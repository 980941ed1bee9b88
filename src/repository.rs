//! Chain steps that write sheets.
use vstd::prelude::*;

use crate::builder::{build_insert_clause, insert_text, row_tags, rows_texts};
use crate::chain::ChainReturn;
use crate::error::{BatchFault, SqlError};
use crate::params::{cell_key, value_of, SqlMultipleParameters, SqlSingleParameters};
use crate::tables::{DBLoad, Sheet, SheetMetaData};
use crate::value::SqlValue;

verus! {

/// Inserts the rows of the batch into the sheet table and publishes the
/// new sheet's key as `pk`.
pub fn sheet_insert(
    mult: Option<SqlMultipleParameters>,
    sing: Option<SqlSingleParameters>,
    glob: &SqlSingleParameters,
) -> (r: ChainReturn)
    requires
        mult matches Some(m) ==> m.wf(),
    ensures
        mult is None ==> r == ChainReturn::Err(SqlError::MalformedBatch(BatchFault::NoBatch)),
        mult matches Some(m) ==> {
            &&& m.column_names().len() == 0 ==> r == ChainReturn::Err(
                SqlError::MalformedBatch(BatchFault::NoColumns),
            )
            &&& m.column_names().len() > 0 && m.height() == 0 ==> r == ChainReturn::Err(
                SqlError::MalformedBatch(BatchFault::NoRows),
            )
            &&& m.column_names().len() > 0 && m.height() > 0 ==> (r matches Ok(out) && out.0@
                == insert_text(Sheet::table_name(), m.column_names(), m.cells(), m.height())
                && (out.1 matches Some(p) && forall|c: int, row: int|
                0 <= c < m.column_names().len() && 0 <= row < m.height() ==> #[trigger] value_of(
                    p@,
                    cell_key(m.column_names()[c], row as nat),
                ) == Some(m.cells()[c][row])) && (out.2 matches Some(n) && n@ == "pk"@))
        },
{
    let mult = match mult {
        Some(m) => m,
        None => {
            return Err(SqlError::MalformedBatch(BatchFault::NoBatch));
        },
    };
    let sql = match build_insert_clause(Sheet::tab(), &mult) {
        Ok(s) => s,
        Err(e) => {
            return Err(e);
        },
    };
    Ok((sql, Some(mult.to_single()), Some(Sheet::COL_PK.to_owned())))
}

} // verus!

verus! {

/// The text of an insert depends on each cell only through whether it is
/// binary.
proof fn lemma_insert_text_same(
    table: Seq<char>,
    names: Seq<Seq<char>>,
    a: Seq<Seq<SqlValue>>,
    b: Seq<Seq<SqlValue>>,
    h: nat,
)
    requires
        a.len() == names.len(),
        b.len() == names.len(),
        forall|c: int, r: int|
            0 <= c < names.len() && 0 <= r < h ==> (#[trigger] a[c][r]).is_binary() == b[c][r].is_binary(),
    ensures
        insert_text(table, names, a, h) == insert_text(table, names, b, h),
{
    assert forall|r: int| 0 <= r < h implies #[trigger] row_tags(names, a, r) == row_tags(names, b, r) by {
        assert(row_tags(names, a, r) =~= row_tags(names, b, r));
    }
    assert(rows_texts(names, a, h) =~= rows_texts(names, b, h));
}

/// Stamps the key of the sheet published as `pk` onto every row of the
/// batch, as column `Sheet_fk`, and inserts the rows into the sheet
/// metadata table.
pub fn sheet_meta_data_insert(
    mult: Option<SqlMultipleParameters>,
    sing: Option<SqlSingleParameters>,
    glob: &SqlSingleParameters,
) -> (r: ChainReturn)
    requires
        mult matches Some(m) ==> m.wf(),
    ensures
        mult is None ==> r == ChainReturn::Err(SqlError::MalformedBatch(BatchFault::NoBatch)),
        mult is Some && value_of(glob@, "pk"@) is None ==> (r matches Err(
            SqlError::MissingParameter(n),
        ) && n@ == "pk"@),
        mult matches Some(m) ==> value_of(glob@, "pk"@) matches Some(v) ==> {
            let names = m.column_names().push("Sheet_fk"@);
            let cells = m.cells().push(Seq::new(m.height(), |row: int| v));
            &&& m.column_names().contains("Sheet_fk"@) ==> (r matches Err(
                SqlError::MalformedBatch(BatchFault::DuplicateColumn(n)),
            ) && n@ == "Sheet_fk"@)
            &&& !m.column_names().contains("Sheet_fk"@) && m.height() == 0 ==> r == ChainReturn::Err(
                SqlError::MalformedBatch(BatchFault::NoRows),
            )
            &&& !m.column_names().contains("Sheet_fk"@) && m.height() > 0 ==> (r matches Ok(out)
                && out.0@ == insert_text(SheetMetaData::table_name(), names, cells, m.height())
                && out.2 is None && (out.1 matches Some(p) && (forall|c: int, row: int|
                0 <= c < m.column_names().len() && 0 <= row < m.height() ==> #[trigger] value_of(
                    p@,
                    cell_key(m.column_names()[c], row as nat),
                ) == Some(m.cells()[c][row])) && (forall|row: int|
                0 <= row < m.height() ==> (#[trigger] value_of(p@, cell_key("Sheet_fk"@, row as nat))
                    matches Some(x) && x.same(v)))))
        },
{
    let mut mult = match mult {
        Some(m) => m,
        None => {
            return Err(SqlError::MalformedBatch(BatchFault::NoBatch));
        },
    };
    let sheet_id = match glob.get(Sheet::COL_PK) {
        Some(v) => v.duplicate(),
        None => {
            return Err(SqlError::MissingParameter(Sheet::COL_PK.to_owned()));
        },
    };
    let ghost m0 = mult;
    let ghost sid = sheet_id;
    match mult.add_const_column(sheet_id, SheetMetaData::COL_SHEET_FK) {
        Ok(()) => {},
        Err(e) => {
            return Err(e);
        },
    }
    let ghost m1 = mult;
    let sql = match build_insert_clause(SheetMetaData::tab(), &mult) {
        Ok(s) => s,
        Err(e) => {
            return Err(e);
        },
    };
    proof {
        let v = value_of(glob@, "pk"@)->0;
        let cells = m0.cells().push(Seq::new(m0.height(), |row: int| v));
        assert(m1.height() == m0.height()) by {
            if m0.cells().len() > 0 {
                assert(m1.cells()[0] == m0.cells()[0]);
            }
        }
        assert forall|c: int, r: int|
            0 <= c < m1.column_names().len() && 0 <= r < m1.height() implies (#[trigger] m1.cells()[c][r]).is_binary()
                == cells[c][r].is_binary() by {
            if c < m0.cells().len() {
                assert(m1.cells()[c] == m0.cells()[c]);
            } else {
                crate::value::lemma_same_texts(m1.cells()[c][r], sid, seq![]);
                crate::value::lemma_same_texts(sid, v, seq![]);
            }
        }
        assert forall|r: int| 0 <= r < m1.height() implies (#[trigger] m1.cells()[m0.cells().len() as int][r]).same(v) by {
            crate::value::lemma_same_trans(m1.cells()[m0.cells().len() as int][r], sid, v);
        }
        lemma_insert_text_same(SheetMetaData::table_name(), m1.column_names(), m1.cells(), cells, m1.height());
    }
    let single = mult.to_single();
    proof {
        let v = value_of(glob@, "pk"@)->0;
        let last = m0.cells().len() as int;
        assert(m1.column_names()[last] == "Sheet_fk"@);
        assert forall|c: int, row: int|
            0 <= c < m0.column_names().len() && 0 <= row < m0.height() implies #[trigger] value_of(
                single@,
                cell_key(m0.column_names()[c], row as nat),
            ) == Some(m0.cells()[c][row]) by {
            assert(m1.column_names()[c] == m0.column_names()[c]);
            assert(m1.cells()[c] == m0.cells()[c]);
        }
        assert forall|row: int| 0 <= row < m0.height() implies (#[trigger] value_of(
            single@,
            cell_key("Sheet_fk"@, row as nat),
        ) matches Some(x) && x.same(v)) by {
            assert(value_of(single@, cell_key(m1.column_names()[last], row as nat)) == Some(
                m1.cells()[last][row],
            ));
        }
    }
    Ok((sql, Some(single), None))
}

} // verus!
