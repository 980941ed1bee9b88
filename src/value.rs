//! The values that a statement can carry, and their text forms.
use vstd::prelude::*;

use crate::error::SqlError;
use crate::escape::{escape, escaped};
use crate::temporal::{SqlDate, SqlDateTime, SqlTime};
use crate::text::{comma, int_text, joined, lemma_joined_step, push_comma, push_int};

verus! {

/// One value of a statement parameter: exactly one kind is held.
#[derive(Clone, Debug, PartialEq)]
pub enum SqlValue {
    Int1(u8),
    Int2(i16),
    Int(i32),
    Int8(i64),
    /// A single-precision number, held as its decimal text.
    Float4(String),
    /// A double-precision number, held as its decimal text.
    Float(String),
    /// A fixed-point number, held as text.
    Decimal(String),
    Bool(bool),
    Str(String),
    /// A string compared with `LIKE` rather than `=`.
    StrL(String),
    Date(SqlDate),
    Time(SqlTime),
    DateTime(SqlDateTime),
    IntList(Vec<i32>),
    /// Double-precision numbers, each held as its decimal text.
    FloatList(Vec<String>),
    StrList(Vec<String>),
    /// Binary data: it can only be bound, never inlined.
    Bin(Vec<u8>),
    Guid(String),
    Xml(String),
    /// SQL `NULL`.
    Null,
}

/// `t` between single quotes.
pub open spec fn quoted(t: Seq<char>) -> Seq<char> {
    seq!['\''] + t + seq!['\'']
}

/// The texts of the elements of an integer list.
pub open spec fn int_parts(l: Seq<i32>) -> Seq<Seq<char>> {
    l.map_values(|x: i32| int_text(x as int))
}

/// The escaped texts of the elements of a number list.
pub open spec fn float_parts(l: Seq<String>) -> Seq<Seq<char>> {
    l.map_values(|x: String| escaped(x@))
}

/// The escaped and quoted texts of the elements of a string list.
pub open spec fn str_parts(l: Seq<String>) -> Seq<Seq<char>> {
    l.map_values(|x: String| quoted(escaped(x@)))
}

/// The tag that names the parameter `name` for a value: `@name` where the
/// value must be bound, `@_name` where its text may be inlined.
pub open spec fn tag_for(binary: bool, name: Seq<char>) -> Seq<char> {
    if binary {
        seq!['@'] + name
    } else {
        seq!['@', '_'] + name
    }
}

impl SqlValue {
    /// Only binary values are bound rather than inlined.
    pub open spec fn is_binary(self) -> bool {
        self is Bin
    }

    /// A list value, compared with `IN`.
    pub open spec fn is_list(self) -> bool {
        self is IntList || self is FloatList || self is StrList
    }

    /// The literal text of the value; every text it holds is escaped.
    pub open spec fn literal(self) -> Seq<char> {
        match self {
            SqlValue::Int1(v) => int_text(v as int),
            SqlValue::Int2(v) => int_text(v as int),
            SqlValue::Int(v) => int_text(v as int),
            SqlValue::Int8(v) => int_text(v as int),
            SqlValue::Float4(v) => escaped(v@),
            SqlValue::Float(v) => escaped(v@),
            SqlValue::Decimal(v) => escaped(v@),
            SqlValue::Bool(v) => if v {
                seq!['1']
            } else {
                seq!['0']
            },
            SqlValue::Str(v) => escaped(v@),
            SqlValue::StrL(v) => escaped(v@),
            SqlValue::Date(v) => v.text(),
            SqlValue::Time(v) => v.text(),
            SqlValue::DateTime(v) => v.text(),
            SqlValue::IntList(l) => joined(int_parts(l@), comma()),
            SqlValue::FloatList(l) => joined(float_parts(l@), comma()),
            SqlValue::StrList(l) => joined(str_parts(l@), comma()),
            SqlValue::Bin(_) => seq!['@', 'B', 'I', 'N'],
            SqlValue::Guid(v) => escaped(v@),
            SqlValue::Xml(v) => escaped(v@),
            SqlValue::Null => seq!['N', 'U', 'L', 'L'],
        }
    }

    /// The text that stands for the value inside a statement: lists in
    /// parentheses; strings, dates, times, binary markers, GUIDs and XML in
    /// single quotes; the rest bare.
    pub open spec fn sql_text(self) -> Seq<char> {
        if self.is_list() {
            seq!['('] + self.literal() + seq![')']
        } else if self is Str || self is StrL || self is Date || self is Time || self is DateTime
            || self is Bin || self is Guid || self is Xml {
            quoted(self.literal())
        } else {
            self.literal()
        }
    }

    /// The tag that names the parameter `name` for this value.
    pub open spec fn tag_text(self, name: Seq<char>) -> Seq<char> {
        tag_for(self.is_binary(), name)
    }

    /// The comparison of a `WHERE` clause for this value under the tag of
    /// `name`: `IN` for lists (whose statement text brings its own
    /// parentheses), `LIKE` for like-strings, else `=`.
    pub open spec fn where_text(self, name: Seq<char>) -> Seq<char> {
        if self.is_list() {
            seq!['I', 'N', ' '] + self.tag_text(name)
        } else if self is StrL {
            seq!['L', 'I', 'K', 'E', ' '] + self.tag_text(name)
        } else {
            seq!['=', ' '] + self.tag_text(name)
        }
    }
}

fn push_escaped(s: &mut String, v: &String)
    ensures
        final(s)@ == old(s)@ + escaped(v@),
{
    let e = escape(v.as_str());
    s.push_str(e.as_str());
}

fn push_int_list(s: &mut String, l: &Vec<i32>)
    ensures
        final(s)@ == old(s)@ + joined(int_parts(l@), comma()),
{
    let ghost start = s@;
    let ghost parts = int_parts(l@);
    let mut k: usize = 0;
    proof {
        assert(parts.take(0) =~= Seq::<Seq<char>>::empty());
        assert(s@ =~= start + joined(parts.take(0), comma()));
    }
    while k < l.len()
        invariant
            k <= l@.len(),
            parts == int_parts(l@),
            s@ == start + joined(parts.take(k as int), comma()),
        decreases l@.len() - k,
    {
        proof {
            lemma_joined_step(parts, comma(), k as int);
        }
        if k > 0 {
            push_comma(s);
        }
        push_int(s, l[k] as i64);
        proof {
            assert(s@ =~= start + joined(parts.take(k + 1), comma()));
        }
        k = k + 1;
    }
    proof {
        assert(parts.take(l@.len() as int) =~= parts);
    }
}

fn push_float_list(s: &mut String, l: &Vec<String>)
    ensures
        final(s)@ == old(s)@ + joined(float_parts(l@), comma()),
{
    let ghost start = s@;
    let ghost parts = float_parts(l@);
    let mut k: usize = 0;
    proof {
        assert(parts.take(0) =~= Seq::<Seq<char>>::empty());
        assert(s@ =~= start + joined(parts.take(0), comma()));
    }
    while k < l.len()
        invariant
            k <= l@.len(),
            parts == float_parts(l@),
            s@ == start + joined(parts.take(k as int), comma()),
        decreases l@.len() - k,
    {
        proof {
            lemma_joined_step(parts, comma(), k as int);
        }
        if k > 0 {
            push_comma(s);
        }
        push_escaped(s, &l[k]);
        proof {
            assert(s@ =~= start + joined(parts.take(k + 1), comma()));
        }
        k = k + 1;
    }
    proof {
        assert(parts.take(l@.len() as int) =~= parts);
    }
}

fn push_str_list(s: &mut String, l: &Vec<String>)
    ensures
        final(s)@ == old(s)@ + joined(str_parts(l@), comma()),
{
    let ghost start = s@;
    let ghost parts = str_parts(l@);
    let mut k: usize = 0;
    proof {
        assert(parts.take(0) =~= Seq::<Seq<char>>::empty());
        assert(s@ =~= start + joined(parts.take(0), comma()));
    }
    while k < l.len()
        invariant
            k <= l@.len(),
            parts == str_parts(l@),
            s@ == start + joined(parts.take(k as int), comma()),
        decreases l@.len() - k,
    {
        proof {
            lemma_joined_step(parts, comma(), k as int);
        }
        if k > 0 {
            push_comma(s);
        }
        s.push('\'');
        push_escaped(s, &l[k]);
        s.push('\'');
        proof {
            assert(s@ =~= start + joined(parts.take(k + 1), comma()));
        }
        k = k + 1;
    }
    proof {
        assert(parts.take(l@.len() as int) =~= parts);
    }
}

impl SqlValue {
    /// Appends the literal text of the value.
    pub fn push_literal(&self, s: &mut String)
        ensures
            final(s)@ == old(s)@ + self.literal(),
    {
        let ghost start = s@;
        match self {
            SqlValue::Int1(v) => push_int(s, *v as i64),
            SqlValue::Int2(v) => push_int(s, *v as i64),
            SqlValue::Int(v) => push_int(s, *v as i64),
            SqlValue::Int8(v) => push_int(s, *v),
            SqlValue::Float4(v) => push_escaped(s, v),
            SqlValue::Float(v) => push_escaped(s, v),
            SqlValue::Decimal(v) => push_escaped(s, v),
            SqlValue::Bool(v) => {
                if *v {
                    s.push('1');
                } else {
                    s.push('0');
                }
            },
            SqlValue::Str(v) => push_escaped(s, v),
            SqlValue::StrL(v) => push_escaped(s, v),
            SqlValue::Date(v) => {
                let t = v.to_text();
                s.push_str(t.as_str());
            },
            SqlValue::Time(v) => {
                let t = v.to_text();
                s.push_str(t.as_str());
            },
            SqlValue::DateTime(v) => {
                let t = v.to_text();
                s.push_str(t.as_str());
            },
            SqlValue::IntList(l) => push_int_list(s, l),
            SqlValue::FloatList(l) => push_float_list(s, l),
            SqlValue::StrList(l) => push_str_list(s, l),
            SqlValue::Bin(_) => {
                s.push('@');
                s.push('B');
                s.push('I');
                s.push('N');
            },
            SqlValue::Guid(v) => push_escaped(s, v),
            SqlValue::Xml(v) => push_escaped(s, v),
            SqlValue::Null => {
                s.push('N');
                s.push('U');
                s.push('L');
                s.push('L');
            },
        }
        proof {
            assert(s@ =~= start + self.literal());
        }
    }

    /// The literal text of the value, as inlined between other text.
    pub fn to_string(&self) -> (r: String)
        ensures
            r@ == self.literal(),
    {
        let mut s = String::new();
        self.push_literal(&mut s);
        proof {
            assert(s@ =~= self.literal());
        }
        s
    }

    /// Whether the value is a list.
    pub fn is_list_value(&self) -> (r: bool)
        ensures
            r == self.is_list(),
    {
        match self {
            SqlValue::IntList(_) | SqlValue::FloatList(_) | SqlValue::StrList(_) => true,
            _ => false,
        }
    }

    /// Appends the text that stands for the value inside a statement.
    pub fn push_sql(&self, s: &mut String)
        ensures
            final(s)@ == old(s)@ + self.sql_text(),
    {
        let ghost start = s@;
        let quote = match self {
            SqlValue::Str(_) | SqlValue::StrL(_) | SqlValue::Date(_) | SqlValue::Time(_)
            | SqlValue::DateTime(_) | SqlValue::Bin(_) | SqlValue::Guid(_) | SqlValue::Xml(
                _,
            ) => true,
            _ => false,
        };
        if self.is_list_value() {
            s.push('(');
            self.push_literal(s);
            s.push(')');
        } else if quote {
            s.push('\'');
            self.push_literal(s);
            s.push('\'');
        } else {
            self.push_literal(s);
        }
        proof {
            assert(s@ =~= start + self.sql_text());
        }
    }

    /// The text that stands for the value inside a statement.
    pub fn to_sql(&self) -> (r: String)
        ensures
            r@ == self.sql_text(),
    {
        let mut s = String::new();
        self.push_sql(&mut s);
        proof {
            assert(s@ =~= self.sql_text());
        }
        s
    }

    /// Whether the value is binary data.
    pub fn is_bin(&self) -> (r: bool)
        ensures
            r == self.is_binary(),
    {
        match self {
            SqlValue::Bin(_) => true,
            _ => false,
        }
    }

    /// Appends the tag that names the parameter `name` for this value.
    pub fn push_tag(&self, s: &mut String, name: &str)
        ensures
            final(s)@ == old(s)@ + self.tag_text(name@),
    {
        let ghost start = s@;
        s.push('@');
        if !self.is_bin() {
            s.push('_');
        }
        s.push_str(name);
        proof {
            assert(s@ =~= start + self.tag_text(name@));
        }
    }

    /// The tag that names the parameter `name` for this value: `@name` for
    /// binary data, which must be bound, `@_name` otherwise.
    pub fn tag(&self, tag_name: &str) -> (r: String)
        ensures
            r@ == self.tag_text(tag_name@),
    {
        let mut s = String::new();
        self.push_tag(&mut s, tag_name);
        proof {
            assert(s@ =~= self.tag_text(tag_name@));
        }
        s
    }

    /// Appends the comparison of a `WHERE` clause for this value.
    pub fn push_where(&self, s: &mut String, name: &str)
        ensures
            final(s)@ == old(s)@ + self.where_text(name@),
    {
        let ghost start = s@;
        if self.is_list_value() {
            s.push('I');
            s.push('N');
            s.push(' ');
            self.push_tag(s, name);
        } else if let SqlValue::StrL(_) = self {
            s.push('L');
            s.push('I');
            s.push('K');
            s.push('E');
            s.push(' ');
            self.push_tag(s, name);
        } else {
            s.push('=');
            s.push(' ');
            self.push_tag(s, name);
        }
        proof {
            assert(s@ =~= start + self.where_text(name@));
        }
    }

    /// The comparison of a `WHERE` clause for this value under the tag of
    /// `tag_name`: `IN tag`, `LIKE tag` or `= tag`.
    pub fn tag_sql_where(&self, tag_name: &str) -> (r: String)
        ensures
            r@ == self.where_text(tag_name@),
    {
        let mut s = String::new();
        self.push_where(&mut s, tag_name);
        proof {
            assert(s@ =~= self.where_text(tag_name@));
        }
        s
    }

    /// The bytes to hand to the driver for this value: only binary data can
    /// be bound this way.
    pub fn bind_value(&self) -> (r: Result<&Vec<u8>, SqlError>)
        ensures
            self.is_binary() <==> r is Ok,
            r matches Ok(b) ==> *self == SqlValue::Bin(*b),
            r matches Err(e) ==> e is BindingRejected,
    {
        match self {
            SqlValue::Bin(b) => Ok(b),
            _ => Err(SqlError::BindingRejected(String::new())),
        }
    }
}

} // verus!

verus! {

fn copy_vec<T: Copy>(v: &Vec<T>) -> (r: Vec<T>)
    ensures
        r@ == v@,
{
    let mut r: Vec<T> = Vec::new();
    let mut k: usize = 0;
    while k < v.len()
        invariant
            k <= v@.len(),
            r@ == v@.take(k as int),
        decreases v@.len() - k,
    {
        r.push(v[k]);
        k = k + 1;
        proof {
            assert(r@ =~= v@.take(k as int));
        }
    }
    proof {
        assert(v@.take(k as int) =~= v@);
    }
    r
}

fn copy_strings(v: &Vec<String>) -> (r: Vec<String>)
    ensures
        r@ == v@,
{
    let mut r: Vec<String> = Vec::new();
    let mut k: usize = 0;
    while k < v.len()
        invariant
            k <= v@.len(),
            r@ == v@.take(k as int),
        decreases v@.len() - k,
    {
        r.push(v[k].clone());
        k = k + 1;
        proof {
            assert(r@ =~= v@.take(k as int));
        }
    }
    proof {
        assert(v@.take(k as int) =~= v@);
    }
    r
}

impl SqlValue {
    /// The two values hold the same kind and the same contents.
    pub open spec fn same(self, other: SqlValue) -> bool {
        match (self, other) {
            (SqlValue::IntList(a), SqlValue::IntList(b)) => a@ == b@,
            (SqlValue::FloatList(a), SqlValue::FloatList(b)) => a@ == b@,
            (SqlValue::StrList(a), SqlValue::StrList(b)) => a@ == b@,
            (SqlValue::Bin(a), SqlValue::Bin(b)) => a@ == b@,
            _ => self == other,
        }
    }

    /// A copy of the value, with the same kind and contents.
    pub fn duplicate(&self) -> (r: SqlValue)
        ensures
            r.same(*self),
            self.same(r),
    {
        match self {
            SqlValue::Int1(v) => SqlValue::Int1(*v),
            SqlValue::Int2(v) => SqlValue::Int2(*v),
            SqlValue::Int(v) => SqlValue::Int(*v),
            SqlValue::Int8(v) => SqlValue::Int8(*v),
            SqlValue::Float4(v) => SqlValue::Float4(v.clone()),
            SqlValue::Float(v) => SqlValue::Float(v.clone()),
            SqlValue::Decimal(v) => SqlValue::Decimal(v.clone()),
            SqlValue::Bool(v) => SqlValue::Bool(*v),
            SqlValue::Str(v) => SqlValue::Str(v.clone()),
            SqlValue::StrL(v) => SqlValue::StrL(v.clone()),
            SqlValue::Date(v) => SqlValue::Date(*v),
            SqlValue::Time(v) => SqlValue::Time(*v),
            SqlValue::DateTime(v) => SqlValue::DateTime(*v),
            SqlValue::IntList(l) => SqlValue::IntList(copy_vec(l)),
            SqlValue::FloatList(l) => SqlValue::FloatList(copy_strings(l)),
            SqlValue::StrList(l) => SqlValue::StrList(copy_strings(l)),
            SqlValue::Bin(b) => SqlValue::Bin(copy_vec(b)),
            SqlValue::Guid(v) => SqlValue::Guid(v.clone()),
            SqlValue::Xml(v) => SqlValue::Xml(v.clone()),
            SqlValue::Null => SqlValue::Null,
        }
    }
}

/// Values with the same contents have the same text forms and binding mode.
pub proof fn lemma_same_texts(a: SqlValue, b: SqlValue, name: Seq<char>)
    requires
        a.same(b),
    ensures
        a.literal() == b.literal(),
        a.sql_text() == b.sql_text(),
        a.is_binary() == b.is_binary(),
        a.tag_text(name) == b.tag_text(name),
        a.where_text(name) == b.where_text(name),
{
}

} // verus!

verus! {

/// Having the same contents is transitive.
pub proof fn lemma_same_trans(a: SqlValue, b: SqlValue, c: SqlValue)
    requires
        a.same(b),
        b.same(c),
    ensures
        a.same(c),
{
}

} // verus!

verus! {

/// A Rust value that stands for one SQL value.
pub trait ToSqlValue: Sized {
    /// The SQL value that `self` stands for.
    spec fn sql_value_of(self) -> SqlValue;

    fn to_sql_value(self) -> (r: SqlValue)
        ensures
            r == self.sql_value_of(),
    ;
}

impl ToSqlValue for u8 {
    open spec fn sql_value_of(self) -> SqlValue {
        SqlValue::Int1(self)
    }

    fn to_sql_value(self) -> (r: SqlValue) {
        SqlValue::Int1(self)
    }
}

impl ToSqlValue for i16 {
    open spec fn sql_value_of(self) -> SqlValue {
        SqlValue::Int2(self)
    }

    fn to_sql_value(self) -> (r: SqlValue) {
        SqlValue::Int2(self)
    }
}

impl ToSqlValue for i32 {
    open spec fn sql_value_of(self) -> SqlValue {
        SqlValue::Int(self)
    }

    fn to_sql_value(self) -> (r: SqlValue) {
        SqlValue::Int(self)
    }
}

impl ToSqlValue for i64 {
    open spec fn sql_value_of(self) -> SqlValue {
        SqlValue::Int8(self)
    }

    fn to_sql_value(self) -> (r: SqlValue) {
        SqlValue::Int8(self)
    }
}

impl ToSqlValue for bool {
    open spec fn sql_value_of(self) -> SqlValue {
        SqlValue::Bool(self)
    }

    fn to_sql_value(self) -> (r: SqlValue) {
        SqlValue::Bool(self)
    }
}

impl ToSqlValue for String {
    open spec fn sql_value_of(self) -> SqlValue {
        SqlValue::Str(self)
    }

    fn to_sql_value(self) -> (r: SqlValue) {
        SqlValue::Str(self)
    }
}

impl ToSqlValue for SqlDate {
    open spec fn sql_value_of(self) -> SqlValue {
        SqlValue::Date(self)
    }

    fn to_sql_value(self) -> (r: SqlValue) {
        SqlValue::Date(self)
    }
}

impl ToSqlValue for SqlTime {
    open spec fn sql_value_of(self) -> SqlValue {
        SqlValue::Time(self)
    }

    fn to_sql_value(self) -> (r: SqlValue) {
        SqlValue::Time(self)
    }
}

impl ToSqlValue for SqlDateTime {
    open spec fn sql_value_of(self) -> SqlValue {
        SqlValue::DateTime(self)
    }

    fn to_sql_value(self) -> (r: SqlValue) {
        SqlValue::DateTime(self)
    }
}

impl ToSqlValue for Vec<i32> {
    open spec fn sql_value_of(self) -> SqlValue {
        SqlValue::IntList(self)
    }

    fn to_sql_value(self) -> (r: SqlValue) {
        SqlValue::IntList(self)
    }
}

impl ToSqlValue for Vec<String> {
    open spec fn sql_value_of(self) -> SqlValue {
        SqlValue::StrList(self)
    }

    fn to_sql_value(self) -> (r: SqlValue) {
        SqlValue::StrList(self)
    }
}

impl ToSqlValue for Vec<u8> {
    open spec fn sql_value_of(self) -> SqlValue {
        SqlValue::Bin(self)
    }

    fn to_sql_value(self) -> (r: SqlValue) {
        SqlValue::Bin(self)
    }
}

impl<T: ToSqlValue> ToSqlValue for Option<T> {
    open spec fn sql_value_of(self) -> SqlValue {
        match self {
            Some(v) => v.sql_value_of(),
            None => SqlValue::Null,
        }
    }

    fn to_sql_value(self) -> (r: SqlValue) {
        match self {
            Some(v) => v.to_sql_value(),
            None => SqlValue::Null,
        }
    }
}

} // verus!

verus! {

/// A list compared in a `WHERE` clause reads `IN (a, b, ...)` once its tag
/// is replaced by the list's statement text: the parentheses come once.
pub proof fn list_comparison_inlines_once(v: SqlValue, name: Seq<char>)
    requires
        v.is_list(),
    ensures
        v.where_text(name) == seq!['I', 'N', ' '] + v.tag_text(name),
        seq!['I', 'N', ' '] + v.sql_text() == seq!['I', 'N', ' ', '('] + v.literal() + seq![')'],
{
    assert(seq!['I', 'N', ' '] + v.sql_text() =~= seq!['I', 'N', ' ', '('] + v.literal() + seq![')']);
}

} // verus!
