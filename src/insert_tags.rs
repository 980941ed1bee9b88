//! Why an insert built from a batch always resolves against the batch's
//! flattened map.
use vstd::prelude::*;

use crate::binder::{first_unresolved, first_unresolved_from, tag_key, tag_resolves};
use crate::builder::{insert_text, row_tags, row_text, rows_texts, table_ref};
use crate::comments::{comment_free, stripped, ScanMode};
use crate::params::{cell_key, value_of};
use crate::tags::{
    distinct_in_order, is_name_char, is_name_start, lemma_name_len_bound, name_len, tag_at_front, tag_len,
    tag_tokens,
};
use crate::text::{comma, joined, nat_text};
use crate::value::SqlValue;

verus! {

/// Every character of `s` satisfies `p`.
pub open spec fn all_chars(s: Seq<char>, p: spec_fn(char) -> bool) -> bool {
    forall|i: int| 0 <= i < s.len() ==> p(#[trigger] s[i])
}

/// A character that cannot start or continue a comment or a literal.
pub open spec fn inert(c: char) -> bool {
    c != '-' && c != '/' && c != '\''
}

/// A column name usable in a tag: an ASCII letter or `_`, then letters,
/// digits and `_`.
pub open spec fn is_identifier(s: Seq<char>) -> bool {
    &&& s.len() > 0
    &&& is_name_start(s[0])
    &&& all_chars(s, |c: char| is_name_char(c))
}

/// A column whose name starts with `_` holds no binary value: its tags
/// `@_name_i` would read as inline tags.
pub open spec fn underscore_columns_inline(names: Seq<Seq<char>>, cells: Seq<Seq<SqlValue>>, h: nat) -> bool {
    forall|c: int, r: int|
        0 <= c < names.len() && 0 <= r < h && names[c][0] == '_' ==> !(#[trigger] cells[c][r]).is_binary()
}

proof fn lemma_all_concat(a: Seq<char>, b: Seq<char>, p: spec_fn(char) -> bool)
    requires
        all_chars(a, p),
        all_chars(b, p),
    ensures
        all_chars(a + b, p),
{
    assert forall|i: int| 0 <= i < (a + b).len() implies p(#[trigger] (a + b)[i]) by {
        if i < a.len() {
            assert((a + b)[i] == a[i]);
        } else {
            assert((a + b)[i] == b[i - a.len()]);
        }
    }
}

proof fn lemma_all_joined(parts: Seq<Seq<char>>, sep: Seq<char>, p: spec_fn(char) -> bool)
    requires
        forall|k: int| 0 <= k < parts.len() ==> all_chars(#[trigger] parts[k], p),
        all_chars(sep, p),
    ensures
        all_chars(joined(parts, sep), p),
    decreases parts.len(),
{
    if parts.len() == 1 {
        assert(all_chars(parts[0], p));
    } else if parts.len() > 1 {
        assert forall|k: int| 0 <= k < parts.drop_last().len() implies all_chars(
            #[trigger] parts.drop_last()[k],
            p,
        ) by {
            assert(parts.drop_last()[k] == parts[k]);
        }
        lemma_all_joined(parts.drop_last(), sep, p);
        assert(all_chars(parts.last(), p));
        lemma_all_concat(joined(parts.drop_last(), sep), sep, p);
        lemma_all_concat(joined(parts.drop_last(), sep) + sep, parts.last(), p);
    }
}

proof fn lemma_digits(n: nat)
    ensures
        all_chars(nat_text(n), |c: char| is_name_char(c)),
    decreases n,
{
    if n >= 10 {
        lemma_digits(n / 10);
        let d = seq![crate::text::digit_char((n % 10) as int)];
        lemma_all_concat(nat_text(n / 10), d, |c: char| is_name_char(c));
        assert(nat_text(n) =~= nat_text(n / 10) + d);
    }
}

proof fn lemma_no_at_no_tokens(s: Seq<char>)
    requires
        all_chars(s, |c: char| c != '@'),
    ensures
        tag_tokens(s).len() == 0,
    decreases s.len(),
{
    if s.len() > 0 {
        assert(s[0] != '@');
        assert forall|i: int| 0 <= i < s.skip(1).len() implies (|c: char| c != '@')(#[trigger] s.skip(1)[i]) by {
            assert(s.skip(1)[i] == s[i + 1]);
        }
        lemma_no_at_no_tokens(s.skip(1));
    }
}

proof fn lemma_name_len_concat(x: Seq<char>, b: Seq<char>)
    requires
        b.len() == 0 || !is_name_char(b[0]),
    ensures
        name_len(x + b) == name_len(x),
    decreases x.len(),
{
    if x.len() == 0 {
        assert(x + b =~= b);
    } else if is_name_char(x[0]) {
        assert((x + b).skip(1) =~= x.skip(1) + b);
        lemma_name_len_concat(x.skip(1), b);
    }
}

/// Splitting a text before a character that cannot continue a name splits
/// its tags the same way.
proof fn lemma_tokens_concat(a: Seq<char>, b: Seq<char>)
    requires
        b.len() == 0 || !is_name_char(b[0]),
    ensures
        tag_tokens(a + b) == tag_tokens(a) + tag_tokens(b),
    decreases a.len(),
{
    if a.len() == 0 {
        assert(a + b =~= b);
        assert(tag_tokens(a) + tag_tokens(b) =~= tag_tokens(b));
    } else if tag_at_front(a) {
        let ab = a + b;
        assert(ab.skip(1) =~= a.skip(1) + b);
        lemma_name_len_concat(a.skip(1), b);
        lemma_name_len_bound(a.skip(1));
        let n = tag_len(a) as int;
        assert(tag_len(ab) == n);
        assert(ab.take(n) =~= a.take(n));
        assert(ab.skip(n) =~= a.skip(n) + b);
        lemma_tokens_concat(a.skip(n), b);
        assert(tag_tokens(ab) =~= tag_tokens(a) + tag_tokens(b));
    } else {
        let ab = a + b;
        assert(!tag_at_front(ab));
        assert(ab.skip(1) =~= a.skip(1) + b);
        lemma_tokens_concat(a.skip(1), b);
    }
}

/// The only tag of a tag text is itself.
proof fn lemma_single_token(t: Seq<char>)
    requires
        t.len() >= 2,
        t[0] == '@',
        is_name_start(t[1]),
        forall|i: int| 1 <= i < t.len() ==> is_name_char(#[trigger] t[i]),
    ensures
        tag_tokens(t) == seq![t],
{
    assert forall|i: int| 0 <= i < t.skip(1).len() implies is_name_char(#[trigger] t.skip(1)[i]) by {
        assert(t.skip(1)[i] == t[i + 1]);
    }
    lemma_name_len_all(t.skip(1));
    assert(tag_at_front(t));
    assert(tag_len(t) == t.len());
    assert(t.take(t.len() as int) =~= t);
    let rest = t.skip(t.len() as int);
    assert(rest =~= Seq::<char>::empty());
    assert(tag_tokens(rest).len() == 0);
    assert(tag_tokens(t) =~= seq![t]);
}

proof fn lemma_name_len_all(s: Seq<char>)
    requires
        forall|i: int| 0 <= i < s.len() ==> is_name_char(#[trigger] s[i]),
    ensures
        name_len(s) == s.len(),
    decreases s.len(),
{
    if s.len() > 0 {
        assert forall|i: int| 0 <= i < s.skip(1).len() implies is_name_char(#[trigger] s.skip(1)[i]) by {
            assert(s.skip(1)[i] == s[i + 1]);
        }
        lemma_name_len_all(s.skip(1));
    }
}

} // verus!

verus! {

/// The tag of the cell of column `c`, row `r`.
pub open spec fn cell_tag(names: Seq<Seq<char>>, cells: Seq<Seq<SqlValue>>, c: int, r: int) -> Seq<char> {
    cells[c][r].tag_text(cell_key(names[c], r as nat))
}

/// `t` is the tag of one of the cells.
pub open spec fn is_cell_tag(names: Seq<Seq<char>>, cells: Seq<Seq<SqlValue>>, h: nat, t: Seq<char>) -> bool {
    exists|c: int, r: int| 0 <= c < names.len() && 0 <= r < h && t == #[trigger] cell_tag(names, cells, c, r)
}

/// Every tag of `s` is the tag of a cell.
pub open spec fn tokens_good(s: Seq<char>, names: Seq<Seq<char>>, cells: Seq<Seq<SqlValue>>, h: nat) -> bool {
    forall|k: int| 0 <= k < tag_tokens(s).len() ==> is_cell_tag(names, cells, h, #[trigger] tag_tokens(s)[k])
}

/// Starts with a character that cannot continue a name, or is empty.
pub open spec fn guarded(s: Seq<char>) -> bool {
    s.len() == 0 || !is_name_char(s[0])
}

proof fn lemma_good_concat(a: Seq<char>, b: Seq<char>, names: Seq<Seq<char>>, cells: Seq<Seq<SqlValue>>, h: nat)
    requires
        guarded(b),
        tokens_good(a, names, cells, h),
        tokens_good(b, names, cells, h),
    ensures
        tokens_good(a + b, names, cells, h),
{
    lemma_tokens_concat(a, b);
    let ta = tag_tokens(a);
    let tb = tag_tokens(b);
    assert forall|k: int| 0 <= k < tag_tokens(a + b).len() implies is_cell_tag(
        names,
        cells,
        h,
        #[trigger] tag_tokens(a + b)[k],
    ) by {
        if k < ta.len() {
            assert(tag_tokens(a + b)[k] == ta[k]);
        } else {
            assert(tag_tokens(a + b)[k] == tb[k - ta.len()]);
        }
    }
}

proof fn lemma_joined_front(parts: Seq<Seq<char>>, sep: Seq<char>)
    requires
        forall|k: int| 0 <= k < parts.len() ==> guarded(#[trigger] parts[k]) && parts[k].len() > 0,
    ensures
        guarded(joined(parts, sep)),
    decreases parts.len(),
{
    if parts.len() > 1 {
        lemma_joined_front(parts.drop_last(), sep);
        assert(parts.drop_last()[0] == parts[0]);
        lemma_joined_first(parts.drop_last(), sep);
        let j = joined(parts.drop_last(), sep);
        assert((j + sep + parts.last())[0] == j[0]);
    } else if parts.len() == 1 {
        assert(guarded(parts[0]));
    }
}

proof fn lemma_joined_first(parts: Seq<Seq<char>>, sep: Seq<char>)
    requires
        parts.len() > 0,
        forall|k: int| 0 <= k < parts.len() ==> (#[trigger] parts[k]).len() > 0,
    ensures
        joined(parts, sep).len() > 0,
        joined(parts, sep)[0] == parts[0][0],
    decreases parts.len(),
{
    if parts.len() > 1 {
        assert(parts.drop_last()[0] == parts[0]);
        assert forall|k: int| 0 <= k < parts.drop_last().len() implies (#[trigger] parts.drop_last()[k]).len() > 0 by {
            assert(parts.drop_last()[k] == parts[k]);
        }
        lemma_joined_first(parts.drop_last(), sep);
        let j = joined(parts.drop_last(), sep);
        assert((j + sep + parts.last())[0] == j[0]);
    }
}

proof fn lemma_good_joined(
    parts: Seq<Seq<char>>,
    sep: Seq<char>,
    names: Seq<Seq<char>>,
    cells: Seq<Seq<SqlValue>>,
    h: nat,
)
    requires
        forall|k: int|
            0 <= k < parts.len() ==> guarded(#[trigger] parts[k]) && tokens_good(parts[k], names, cells, h),
        guarded(sep),
        tag_tokens(sep).len() == 0,
    ensures
        tokens_good(joined(parts, sep), names, cells, h),
    decreases parts.len(),
{
    if parts.len() == 0 {
        assert(tag_tokens(Seq::<char>::empty()).len() == 0);
    } else if parts.len() == 1 {
        assert(tokens_good(parts[0], names, cells, h));
    } else {
        assert forall|k: int| 0 <= k < parts.drop_last().len() implies guarded(
            #[trigger] parts.drop_last()[k],
        ) && tokens_good(parts.drop_last()[k], names, cells, h) by {
            assert(parts.drop_last()[k] == parts[k]);
        }
        lemma_good_joined(parts.drop_last(), sep, names, cells, h);
        let j = joined(parts.drop_last(), sep);
        lemma_good_concat(j, sep, names, cells, h);
        assert(tokens_good(parts.last(), names, cells, h));
        lemma_good_concat(j + sep, parts.last(), names, cells, h);
    }
}

} // verus!

verus! {

proof fn lemma_key_chars(name: Seq<char>, r: nat)
    requires
        is_identifier(name),
    ensures
        all_chars(cell_key(name, r), |c: char| is_name_char(c)),
        cell_key(name, r).len() > 0,
        cell_key(name, r)[0] == name[0],
{
    lemma_digits(r);
    lemma_all_concat(name, seq!['_'], |c: char| is_name_char(c));
    lemma_all_concat(name + seq!['_'], nat_text(r), |c: char| is_name_char(c));
}

/// What a cell's tag is made of, and that it resolves to the cell's value.
proof fn lemma_cell_tag(
    names: Seq<Seq<char>>,
    cells: Seq<Seq<SqlValue>>,
    h: nat,
    c: int,
    r: int,
    ps: Seq<(Seq<char>, SqlValue)>,
)
    requires
        0 <= c < names.len(),
        0 <= r < h,
        is_identifier(names[c]),
        names[c][0] == '_' ==> !cells[c][r].is_binary(),
        value_of(ps, cell_key(names[c], r as nat)) == Some(cells[c][r]),
    ensures
        tag_tokens(cell_tag(names, cells, c, r)) == seq![cell_tag(names, cells, c, r)],
        tokens_good(cell_tag(names, cells, c, r), names, cells, h),
        guarded(cell_tag(names, cells, c, r)),
        cell_tag(names, cells, c, r).len() > 0,
        all_chars(cell_tag(names, cells, c, r), |x: char| inert(x)),
        tag_resolves(cell_tag(names, cells, c, r), ps),
{
    let key = cell_key(names[c], r as nat);
    let t = cell_tag(names, cells, c, r);
    lemma_key_chars(names[c], r as nat);
    if cells[c][r].is_binary() {
        assert(t == seq!['@'] + key);
        assert(t[1] == key[0]);
        assert(t.skip(1) =~= key);
    } else {
        assert(t == seq!['@', '_'] + key);
        assert(t.skip(2) =~= key);
    }
    assert forall|i: int| 1 <= i < t.len() implies is_name_char(#[trigger] t[i]) by {
        if cells[c][r].is_binary() {
            assert(t[i] == key[i - 1]);
        } else if i >= 2 {
            assert(t[i] == key[i - 2]);
        }
    }
    assert forall|i: int| 0 <= i < t.len() implies (|x: char| inert(x))(#[trigger] t[i]) by {
        if i > 0 {
            assert(is_name_char(t[i]));
        }
    }
    lemma_single_token(t);
    assert(is_cell_tag(names, cells, h, t));
    assert forall|k: int| 0 <= k < tag_tokens(t).len() implies is_cell_tag(
        names,
        cells,
        h,
        #[trigger] tag_tokens(t)[k],
    ) by {
        assert(tag_tokens(t)[k] == t);
    }
    assert(tag_key(t) == key);
}

} // verus!

verus! {

proof fn lemma_comma()
    ensures
        guarded(comma()),
        tag_tokens(comma()).len() == 0,
        all_chars(comma(), |x: char| inert(x)),
        all_chars(comma(), |x: char| x != '@'),
{
    lemma_no_at_no_tokens(comma());
}

proof fn lemma_row(
    names: Seq<Seq<char>>,
    cells: Seq<Seq<SqlValue>>,
    h: nat,
    r: int,
    ps: Seq<(Seq<char>, SqlValue)>,
)
    requires
        0 <= r < h,
        forall|c: int| 0 <= c < names.len() ==> is_identifier(#[trigger] names[c]),
        underscore_columns_inline(names, cells, h),
        forall|c: int, q: int|
            0 <= c < names.len() && 0 <= q < h ==> value_of(ps, cell_key(names[c], q as nat))
                == Some(#[trigger] cells[c][q]),
    ensures
        tokens_good(row_text(names, cells, r), names, cells, h),
        guarded(row_text(names, cells, r)),
        all_chars(row_text(names, cells, r), |x: char| inert(x)),
{
    reveal_strlit("(");
    reveal_strlit(")");
    let parts = row_tags(names, cells, r);
    assert forall|k: int| 0 <= k < parts.len() implies guarded(#[trigger] parts[k]) && parts[k].len() > 0
        && tokens_good(parts[k], names, cells, h) && all_chars(parts[k], |x: char| inert(x)) by {
        assert(parts[k] == cell_tag(names, cells, k, r));
        assert(value_of(ps, cell_key(names[k], r as nat)) == Some(cells[k][r]));
        lemma_cell_tag(names, cells, h, k, r, ps);
    }
    lemma_comma();
    lemma_good_joined(parts, comma(), names, cells, h);
    lemma_joined_front(parts, comma());
    let j = joined(parts, comma());
    let open = "("@;
    let close = ")"@;
    lemma_no_at_no_tokens(open);
    lemma_no_at_no_tokens(close);
    lemma_good_concat(open, j, names, cells, h);
    lemma_good_concat(open + j, close, names, cells, h);
    lemma_all_joined(parts, comma(), |x: char| inert(x));
    lemma_all_concat(open, j, |x: char| inert(x));
    lemma_all_concat(open + j, close, |x: char| inert(x));
    assert((open + j + close)[0] == '(');
}

proof fn lemma_prefix(table: Seq<char>, names: Seq<Seq<char>>)
    requires
        all_chars(table, |c: char| is_name_char(c)),
        forall|c: int| 0 <= c < names.len() ==> is_identifier(#[trigger] names[c]),
    ensures
        ({
            let p = "INSERT INTO "@ + table_ref(table) + " ("@ + joined(names, comma()) + ") VALUES "@;
            all_chars(p, |x: char| x != '@') && all_chars(p, |x: char| inert(x))
        }),
{
    reveal_strlit("INSERT INTO ");
    reveal_strlit("uploader");
    reveal_strlit(".[");
    reveal_strlit("]");
    reveal_strlit(" (");
    reveal_strlit(") VALUES ");
    let na = |x: char| x != '@';
    let ie = |x: char| inert(x);
    assert forall|i: int| 0 <= i < table.len() implies na(#[trigger] table[i]) && ie(table[i]) by {
        assert(is_name_char(table[i]));
    }
    assert forall|k: int| 0 <= k < names.len() implies all_chars(#[trigger] names[k], na) && all_chars(
        names[k],
        ie,
    ) by {
        assert(is_identifier(names[k]));
        assert forall|i: int| 0 <= i < names[k].len() implies na(#[trigger] names[k][i]) && ie(
            names[k][i],
        ) by {
            assert(is_name_char(names[k][i]));
        }
    }
    lemma_comma();
    lemma_all_joined(names, comma(), na);
    lemma_all_joined(names, comma(), ie);
    let t = table_ref(table);
    lemma_all_concat("uploader"@, ".["@, na);
    lemma_all_concat("uploader"@ + ".["@, table, na);
    lemma_all_concat("uploader"@ + ".["@ + table, "]"@, na);
    lemma_all_concat("uploader"@, ".["@, ie);
    lemma_all_concat("uploader"@ + ".["@, table, ie);
    lemma_all_concat("uploader"@ + ".["@ + table, "]"@, ie);
    let j = joined(names, comma());
    lemma_all_concat("INSERT INTO "@, t, na);
    lemma_all_concat("INSERT INTO "@ + t, " ("@, na);
    lemma_all_concat("INSERT INTO "@ + t + " ("@, j, na);
    lemma_all_concat("INSERT INTO "@ + t + " ("@ + j, ") VALUES "@, na);
    lemma_all_concat("INSERT INTO "@, t, ie);
    lemma_all_concat("INSERT INTO "@ + t, " ("@, ie);
    lemma_all_concat("INSERT INTO "@ + t + " ("@, j, ie);
    lemma_all_concat("INSERT INTO "@ + t + " ("@ + j, ") VALUES "@, ie);
}

proof fn lemma_inert_comment_free(t: Seq<char>)
    requires
        all_chars(t, |x: char| inert(x)),
    ensures
        comment_free(t, ScanMode::Code),
    decreases t.len(),
{
    if t.len() > 0 {
        assert(inert(t[0]));
        assert forall|i: int| 0 <= i < t.skip(1).len() implies (|x: char| inert(x))(#[trigger] t.skip(1)[i]) by {
            assert(t.skip(1)[i] == t[i + 1]);
        }
        lemma_inert_comment_free(t.skip(1));
    }
}

proof fn lemma_all_resolve(d: Seq<Seq<char>>, ps: Seq<(Seq<char>, SqlValue)>, i: int)
    requires
        0 <= i <= d.len(),
        forall|k: int| 0 <= k < d.len() ==> tag_resolves(#[trigger] d[k], ps),
    ensures
        first_unresolved_from(d, ps, i) == d.len(),
    decreases d.len() - i,
{
    if i < d.len() {
        assert(tag_resolves(d[i], ps));
        lemma_all_resolve(d, ps, i + 1);
    }
}

/// An insert built from a batch resolves against the batch's flattened map
/// (the map that `to_single` gives): the statement has no comment to lose,
/// every tag in it is the tag of one cell, the map holds that cell's value
/// under the tag's name, and the tag's prefix fits the value. So resolving
/// it meets no missing parameter and no misplaced binary value. Table and
/// column names are identifiers, as tags require, and a column named with a
/// leading `_` holds no binary value (its tag would read as an inline one).
pub proof fn insert_resolves_against_flat_map(
    table: Seq<char>,
    names: Seq<Seq<char>>,
    cells: Seq<Seq<SqlValue>>,
    h: nat,
    ps: Seq<(Seq<char>, SqlValue)>,
)
    requires
        all_chars(table, |c: char| is_name_char(c)),
        forall|c: int| 0 <= c < names.len() ==> is_identifier(#[trigger] names[c]),
        underscore_columns_inline(names, cells, h),
        forall|c: int, r: int|
            0 <= c < names.len() && 0 <= r < h ==> value_of(ps, cell_key(names[c], r as nat))
                == Some(#[trigger] cells[c][r]),
    ensures
        stripped(insert_text(table, names, cells, h)) == insert_text(table, names, cells, h),
        ({
            let d = distinct_in_order(tag_tokens(insert_text(table, names, cells, h)));
            first_unresolved(d, ps) == d.len()
        }),
        forall|r: Result<crate::binder::BoundQuery, crate::error::SqlError>|
            crate::binder::resolves_as(insert_text(table, names, cells, h), Some(ps), r) ==> r is Ok,
{
    reveal_strlit(";");
    let rows = rows_texts(names, cells, h);
    assert forall|k: int| 0 <= k < rows.len() implies guarded(#[trigger] rows[k]) && rows[k].len() > 0
        && tokens_good(rows[k], names, cells, h) && all_chars(rows[k], |x: char| inert(x)) by {
        lemma_row(names, cells, h, k, ps);
        reveal_strlit("(");
        let j = joined(row_tags(names, cells, k), comma());
        assert(rows[k] == "("@ + j + ")"@);
        assert(("("@ + j + ")"@).len() == "("@.len() + j.len() + ")"@.len());
    }
    lemma_comma();
    lemma_good_joined(rows, comma(), names, cells, h);
    lemma_joined_front(rows, comma());
    lemma_all_joined(rows, comma(), |x: char| inert(x));
    lemma_prefix(table, names);
    let p = "INSERT INTO "@ + table_ref(table) + " ("@ + joined(names, comma()) + ") VALUES "@;
    let j = joined(rows, comma());
    let semi = ";"@;
    lemma_no_at_no_tokens(p);
    lemma_no_at_no_tokens(semi);
    lemma_good_concat(p, j, names, cells, h);
    lemma_good_concat(p + j, semi, names, cells, h);
    let text = insert_text(table, names, cells, h);
    assert(text == p + j + semi);
    lemma_all_concat(p, j, |x: char| inert(x));
    lemma_all_concat(p + j, semi, |x: char| inert(x));
    lemma_inert_comment_free(text);
    crate::comments::lemma_strip_comment_free(text, ScanMode::Code);
    let d = distinct_in_order(tag_tokens(text));
    assert forall|k: int| 0 <= k < d.len() implies tag_resolves(#[trigger] d[k], ps) by {
        assert(d.contains(d[k]));
        crate::binder::lemma_distinct_contains(tag_tokens(text), d[k]);
        let m = choose|m: int| 0 <= m < tag_tokens(text).len() && tag_tokens(text)[m] == d[k];
        assert(is_cell_tag(names, cells, h, tag_tokens(text)[m]));
        let (c, r) = choose|c: int, r: int|
            0 <= c < names.len() && 0 <= r < h && d[k] == #[trigger] cell_tag(names, cells, c, r);
        lemma_cell_tag(names, cells, h, c, r, ps);
    }
    lemma_all_resolve(d, ps, 0);
}

} // verus!
