//! The kind of a sheet column, read from the SQL type name that the
//! column-type table holds.
use vstd::prelude::*;

use crate::error::SqlError;
use crate::text::text_eq;

verus! {

/// The driver's column kinds that sheet columns may have.
#[derive(Clone, Copy, Debug, PartialEq, Eq, Structural)]
pub enum GenericColumnType {
    /// 32-bit integers.
    Int4,
    /// 64-bit integers.
    Int8,
    /// 16-bit integers.
    Int2,
    /// 8-bit unsigned integers.
    Int1,
    /// Double-precision numbers.
    Float8,
    /// Single-precision numbers.
    Float4,
    /// Fixed-point numbers.
    Decimaln,
    /// Booleans.
    Bit,
    /// Byte strings.
    BigVarChar,
    /// Unicode strings.
    NVarchar,
    /// Dates.
    Daten,
    /// Times of day.
    Timen,
    /// Dates with times.
    Datetime2,
    /// Dates with times and offsets.
    DatetimeOffsetn,
    /// Binary data.
    BigVarBin,
    /// GUIDs.
    Guid,
    /// XML documents.
    Xml,
}

/// The upper-case form of a text, as `str::to_uppercase` gives it.
pub uninterp spec fn upper_of(s: Seq<char>) -> Seq<char>;

/// Relies on `str::to_uppercase`: its result depends on the characters
/// alone (Unicode case mapping).
#[verifier::external_body]
fn uppercase(s: &str) -> (r: String)
    ensures
        r@ == upper_of(s@),
{
    s.to_uppercase()
}

/// A character of the Unicode `White_Space` property, which `str::trim`
/// removes.
pub open spec fn is_white_space(c: char) -> bool {
    let u = c as u32;
    (0x9 <= u && u <= 0xd) || u == 0x20 || u == 0x85 || u == 0xa0 || u == 0x1680 || (0x2000 <= u
        && u <= 0x200a) || u == 0x2028 || u == 0x2029 || u == 0x202f || u == 0x205f || u == 0x3000
}

fn is_white_space_exec(c: char) -> (r: bool)
    ensures
        r == is_white_space(c),
{
    let u = c as u32;
    (0x9 <= u && u <= 0xd) || u == 0x20 || u == 0x85 || u == 0xa0 || u == 0x1680 || (0x2000 <= u
        && u <= 0x200a) || u == 0x2028 || u == 0x2029 || u == 0x202f || u == 0x205f || u == 0x3000
}

/// `s` without its leading and trailing white space.
pub open spec fn trimmed(s: Seq<char>) -> Seq<char>
    decreases s.len(),
{
    if s.len() > 0 && is_white_space(s[0]) {
        trimmed(s.skip(1))
    } else if s.len() > 0 && is_white_space(s.last()) {
        trimmed(s.drop_last())
    } else {
        s
    }
}

fn trim_text(s: &str) -> (r: String)
    ensures
        r@ == trimmed(s@),
{
    let cs = crate::text::chars_of(s);
    let mut from: usize = 0;
    let mut to: usize = cs.len();
    proof {
        assert(cs@.subrange(0, cs@.len() as int) =~= s@);
    }
    loop
        invariant
            from <= to <= cs@.len(),
            trimmed(cs@.subrange(from as int, to as int)) == trimmed(s@),
        ensures
            from <= to <= cs@.len(),
            trimmed(cs@.subrange(from as int, to as int)) == trimmed(s@),
            trimmed(cs@.subrange(from as int, to as int)) == cs@.subrange(from as int, to as int),
        decreases to - from,
    {
        let ghost sub = cs@.subrange(from as int, to as int);
        if from == to {
            proof {
                assert(sub.len() == 0);
            }
            break;
        }
        if is_white_space_exec(cs[from]) {
            proof {
                assert(sub[0] == cs@[from as int]);
                assert(sub.skip(1) =~= cs@.subrange(from + 1, to as int));
            }
            from = from + 1;
        } else if is_white_space_exec(cs[to - 1]) {
            proof {
                assert(sub[0] == cs@[from as int]);
                assert(sub.last() == cs@[to - 1]);
                assert(sub.drop_last() =~= cs@.subrange(from as int, to - 1));
            }
            to = to - 1;
        } else {
            proof {
                assert(sub[0] == cs@[from as int]);
                assert(sub.last() == cs@[to - 1]);
            }
            break;
        }
    }
    crate::text::substring(&cs, from, to)
}

/// The column kind that an upper-case SQL type name stands for.
pub open spec fn column_type_for(u: Seq<char>) -> Option<GenericColumnType> {
    if u == "INT"@ || u == "INT4"@ || u == "INTEGER"@ {
        Some(GenericColumnType::Int4)
    } else if u == "BIGINT"@ || u == "INT8"@ {
        Some(GenericColumnType::Int8)
    } else if u == "SMALLINT"@ || u == "INT2"@ {
        Some(GenericColumnType::Int2)
    } else if u == "TINYINT"@ || u == "INT1"@ {
        Some(GenericColumnType::Int1)
    } else if u == "FLOAT"@ || u == "FLOAT8"@ || u == "DOUBLE"@ {
        Some(GenericColumnType::Float8)
    } else if u == "REAL"@ || u == "FLOAT4"@ {
        Some(GenericColumnType::Float4)
    } else if u == "DECIMAL"@ || u == "NUMERIC"@ {
        Some(GenericColumnType::Decimaln)
    } else if u == "BIT"@ || u == "BOOL"@ || u == "BOOLEAN"@ {
        Some(GenericColumnType::Bit)
    } else if u == "VARCHAR"@ || u == "VARCHAR(MAX)"@ || u == "CHAR"@ {
        Some(GenericColumnType::BigVarChar)
    } else if u == "NVARCHAR"@ || u == "NVARCHAR(MAX)"@ || u == "NCHAR"@ || u == "TEXT"@ {
        Some(GenericColumnType::NVarchar)
    } else if u == "DATE"@ {
        Some(GenericColumnType::Daten)
    } else if u == "TIME"@ {
        Some(GenericColumnType::Timen)
    } else if u == "DATETIME"@ || u == "DATETIME2"@ {
        Some(GenericColumnType::Datetime2)
    } else if u == "DATETIMEOFFSET"@ {
        Some(GenericColumnType::DatetimeOffsetn)
    } else if u == "BINARY"@ || u == "VARBINARY"@ || u == "VARBINARY(MAX)"@ {
        Some(GenericColumnType::BigVarBin)
    } else if u == "UNIQUEIDENTIFIER"@ {
        Some(GenericColumnType::Guid)
    } else if u == "XML"@ {
        Some(GenericColumnType::Xml)
    } else {
        None
    }
}

/// The column kind of an upper-case SQL type name, or `None` for a name
/// that stands for none.
pub fn column_type_of_upper(u: &str) -> (r: Option<GenericColumnType>)
    ensures
        r == column_type_for(u@),
{
    if text_eq(u, "INT") || text_eq(u, "INT4") || text_eq(u, "INTEGER") {
        Some(GenericColumnType::Int4)
    } else if text_eq(u, "BIGINT") || text_eq(u, "INT8") {
        Some(GenericColumnType::Int8)
    } else if text_eq(u, "SMALLINT") || text_eq(u, "INT2") {
        Some(GenericColumnType::Int2)
    } else if text_eq(u, "TINYINT") || text_eq(u, "INT1") {
        Some(GenericColumnType::Int1)
    } else if text_eq(u, "FLOAT") || text_eq(u, "FLOAT8") || text_eq(u, "DOUBLE") {
        Some(GenericColumnType::Float8)
    } else if text_eq(u, "REAL") || text_eq(u, "FLOAT4") {
        Some(GenericColumnType::Float4)
    } else if text_eq(u, "DECIMAL") || text_eq(u, "NUMERIC") {
        Some(GenericColumnType::Decimaln)
    } else if text_eq(u, "BIT") || text_eq(u, "BOOL") || text_eq(u, "BOOLEAN") {
        Some(GenericColumnType::Bit)
    } else if text_eq(u, "VARCHAR") || text_eq(u, "VARCHAR(MAX)") || text_eq(u, "CHAR") {
        Some(GenericColumnType::BigVarChar)
    } else if text_eq(u, "NVARCHAR") || text_eq(u, "NVARCHAR(MAX)") || text_eq(u, "NCHAR") || text_eq(u, "TEXT") {
        Some(GenericColumnType::NVarchar)
    } else if text_eq(u, "DATE") {
        Some(GenericColumnType::Daten)
    } else if text_eq(u, "TIME") {
        Some(GenericColumnType::Timen)
    } else if text_eq(u, "DATETIME") || text_eq(u, "DATETIME2") {
        Some(GenericColumnType::Datetime2)
    } else if text_eq(u, "DATETIMEOFFSET") {
        Some(GenericColumnType::DatetimeOffsetn)
    } else if text_eq(u, "BINARY") || text_eq(u, "VARBINARY") || text_eq(u, "VARBINARY(MAX)") {
        Some(GenericColumnType::BigVarBin)
    } else if text_eq(u, "UNIQUEIDENTIFIER") {
        Some(GenericColumnType::Guid)
    } else if text_eq(u, "XML") {
        Some(GenericColumnType::Xml)
    } else {
        None
    }
}

/// The column kind of a SQL type name, read without surrounding white
/// space and regardless of case; an unknown name is an error that carries
/// it.
pub fn to_generic_column_type(name: &str) -> (r: Result<GenericColumnType, SqlError>)
    ensures
        column_type_for(upper_of(trimmed(name@))) matches Some(k) ==> r == Ok::<
            GenericColumnType,
            SqlError,
        >(k),
        column_type_for(upper_of(trimmed(name@))) is None ==> (r matches Err(
            SqlError::UnknownColumnType(n),
        ) && n@ == name@),
{
    let t = trim_text(name);
    let u = uppercase(t.as_str());
    match column_type_of_upper(u.as_str()) {
        Some(k) => Ok(k),
        None => Err(SqlError::UnknownColumnType(name.to_owned())),
    }
}

} // verus!
