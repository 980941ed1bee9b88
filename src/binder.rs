//! Resolving the tags of a statement against a parameter map: inlined text
//! for `@_name`, positional driver parameters for `@name`.
use vstd::prelude::*;

use crate::comments::{remove_sql_comments, stripped};
use crate::error::SqlError;
use crate::params::{value_of, SqlSingleParameters};
use crate::tags::{distinct_in_order, distinct_texts, tag_at_front, tag_end_at, tag_len, tag_tokens, tags_of};
use crate::text::{chars_of, nat_text, push_nat, substring, texts};
use crate::value::SqlValue;

verus! {

/// A tag whose value may be inlined as text: it starts with `@_`.
pub open spec fn is_inline_tag(t: Seq<char>) -> bool {
    t.len() >= 2 && t[1] == '_'
}

/// The parameter name of a tag: what follows `@_` or `@`.
pub open spec fn tag_key(t: Seq<char>) -> Seq<char> {
    if is_inline_tag(t) {
        t.skip(2)
    } else {
        t.skip(1)
    }
}

/// The tag has a value, and its prefix matches the value: `@_` for a value
/// that is not binary, `@` for binary data.
pub open spec fn tag_resolves(t: Seq<char>, ps: Seq<(Seq<char>, SqlValue)>) -> bool {
    match value_of(ps, tag_key(t)) {
        Some(v) => is_inline_tag(t) == !v.is_binary(),
        None => false,
    }
}

/// The index of the first tag from `i` on that does not resolve, or the
/// length of `ts`.
pub open spec fn first_unresolved_from(ts: Seq<Seq<char>>, ps: Seq<(Seq<char>, SqlValue)>, i: int) -> int
    decreases ts.len() - i,
{
    if i < 0 || i >= ts.len() {
        ts.len() as int
    } else if !tag_resolves(ts[i], ps) {
        i
    } else {
        first_unresolved_from(ts, ps, i + 1)
    }
}

/// The index of the first tag that does not resolve, or the length of `ts`.
pub open spec fn first_unresolved(ts: Seq<Seq<char>>, ps: Seq<(Seq<char>, SqlValue)>) -> int {
    first_unresolved_from(ts, ps, 0)
}

/// The tags that are bound rather than inlined, in order.
pub open spec fn bound_tags(ts: Seq<Seq<char>>) -> Seq<Seq<char>>
    decreases ts.len(),
{
    if ts.len() == 0 {
        seq![]
    } else if is_inline_tag(ts.last()) {
        bound_tags(ts.drop_last())
    } else {
        bound_tags(ts.drop_last()).push(ts.last())
    }
}

/// The index of the first occurrence of `t` in `ts`, or the length.
pub open spec fn first_index(ts: Seq<Seq<char>>, t: Seq<char>) -> int
    decreases ts.len(),
{
    if ts.len() == 0 {
        0
    } else if ts[0] == t {
        0
    } else {
        1 + first_index(ts.skip(1), t)
    }
}

/// What a tag becomes: the statement text of its value where it is inlined,
/// else the driver's positional marker `@P{n}`, numbered from 1 in the order
/// in which bound tags first appear.
pub open spec fn substitution(t: Seq<char>, ps: Seq<(Seq<char>, SqlValue)>, bound: Seq<Seq<char>>) -> Seq<
    char,
> {
    if is_inline_tag(t) {
        match value_of(ps, tag_key(t)) {
            Some(v) => v.sql_text(),
            None => t,
        }
    } else {
        "@P"@ + nat_text((first_index(bound, t) + 1) as nat)
    }
}

/// `s` with each tag, found as `tag_tokens` finds them, replaced by its
/// substitution and the rest kept.
pub open spec fn rewrite(s: Seq<char>, ps: Seq<(Seq<char>, SqlValue)>, bound: Seq<Seq<char>>) -> Seq<char>
    decreases s.len() via rewrite_decreases
{
    if s.len() == 0 {
        seq![]
    } else if tag_at_front(s) {
        substitution(s.take(tag_len(s) as int), ps, bound) + rewrite(s.skip(tag_len(s) as int), ps, bound)
    } else {
        seq![s[0]] + rewrite(s.skip(1), ps, bound)
    }
}

#[via_fn]
proof fn rewrite_decreases(s: Seq<char>, ps: Seq<(Seq<char>, SqlValue)>, bound: Seq<Seq<char>>) {
    if s.len() > 0 {
        crate::tags::lemma_name_len_bound(s.skip(1));
    }
}

/// `x` is a copy of the value that the tag `t` looks up in `ps`.
pub open spec fn bound_value_of(ps: Seq<(Seq<char>, SqlValue)>, t: Seq<char>, x: SqlValue) -> bool {
    match value_of(ps, tag_key(t)) {
        Some(v) => x.same(v),
        None => false,
    }
}

/// A statement ready for the driver: its text and the values of its
/// positional parameters `@P1`, `@P2`, ... in order.
#[derive(Debug)]
pub struct BoundQuery {
    pub text: String,
    pub bound: Vec<SqlValue>,
}

} // verus!

verus! {

pub proof fn lemma_distinct_contains(ts: Seq<Seq<char>>, x: Seq<char>)
    ensures
        distinct_in_order(ts).contains(x) <==> ts.contains(x),
    decreases ts.len(),
{
    if ts.len() > 0 {
        let d = distinct_in_order(ts.drop_last());
        lemma_distinct_contains(ts.drop_last(), x);
        if ts.contains(x) {
            let k = choose|k: int| 0 <= k < ts.len() && ts[k] == x;
            if k < ts.len() - 1 {
                assert(ts.drop_last()[k] == x);
            }
            if !d.contains(ts.last()) {
                assert(d.push(ts.last())[d.len() as int] == ts.last());
                if d.contains(x) {
                    let m = choose|m: int| 0 <= m < d.len() && d[m] == x;
                    assert(d.push(ts.last())[m] == x);
                }
            }
        }
        if distinct_in_order(ts).contains(x) {
            let k = choose|k: int| 0 <= k < distinct_in_order(ts).len() && distinct_in_order(ts)[k] == x;
            if !d.contains(ts.last()) && k == d.len() {
                assert(ts[ts.len() - 1] == x);
            } else {
                assert(d[k] == x);
                let m = choose|m: int| 0 <= m < ts.drop_last().len() && ts.drop_last()[m] == x;
                assert(ts[m] == x);
            }
        }
    }
}

proof fn lemma_first_unresolved_from(ts: Seq<Seq<char>>, ps: Seq<(Seq<char>, SqlValue)>, i: int)
    requires
        0 <= i <= ts.len(),
    ensures
        i <= first_unresolved_from(ts, ps, i) <= ts.len(),
        first_unresolved_from(ts, ps, i) < ts.len() ==> !tag_resolves(
            ts[first_unresolved_from(ts, ps, i)],
            ps,
        ),
        forall|k: int| i <= k < first_unresolved_from(ts, ps, i) ==> tag_resolves(#[trigger] ts[k], ps),
    decreases ts.len() - i,
{
    if i < ts.len() && tag_resolves(ts[i], ps) {
        lemma_first_unresolved_from(ts, ps, i + 1);
    }
}

proof fn lemma_bound_tags_contains(ts: Seq<Seq<char>>, t: Seq<char>)
    requires
        ts.contains(t),
        !is_inline_tag(t),
    ensures
        bound_tags(ts).contains(t),
    decreases ts.len(),
{
    let k = choose|k: int| 0 <= k < ts.len() && ts[k] == t;
    if k == ts.len() - 1 {
        if !is_inline_tag(ts.last()) {
            let b = bound_tags(ts.drop_last()).push(ts.last());
            assert(b[b.len() - 1] == t);
        }
    } else {
        assert(ts.drop_last()[k] == t);
        lemma_bound_tags_contains(ts.drop_last(), t);
        let b0 = bound_tags(ts.drop_last());
        let m = choose|m: int| 0 <= m < b0.len() && b0[m] == t;
        if !is_inline_tag(ts.last()) {
            assert(b0.push(ts.last())[m] == t);
        }
    }
}

proof fn lemma_first_index(ts: Seq<Seq<char>>, t: Seq<char>)
    ensures
        0 <= first_index(ts, t) <= ts.len(),
        first_index(ts, t) < ts.len() ==> ts[first_index(ts, t)] == t,
        forall|k: int| 0 <= k < first_index(ts, t) ==> #[trigger] ts[k] != t,
    decreases ts.len(),
{
    if ts.len() > 0 && ts[0] != t {
        lemma_first_index(ts.skip(1), t);
        assert forall|k: int| 0 <= k < first_index(ts, t) implies #[trigger] ts[k] != t by {
            if k > 0 {
                assert(ts[k] == ts.skip(1)[k - 1]);
            }
        }
    }
}

/// The index of the first string of `v` that holds the text `t`, if any.
fn first_position(v: &Vec<String>, t: &String) -> (r: Option<usize>)
    ensures
        r is None ==> !texts(v@).contains(t@),
        r matches Some(j) ==> j == first_index(texts(v@), t@) && j < v@.len(),
{
    proof {
        lemma_first_index(texts(v@), t@);
    }
    let mut i: usize = 0;
    while i < v.len()
        invariant
            i <= v@.len(),
            forall|k: int| 0 <= k < i ==> v@[k]@ != t@,
            first_index(texts(v@), t@) >= i,
        decreases v@.len() - i,
    {
        proof {
            lemma_first_index(texts(v@), t@);
        }
        if v[i] == *t {
            proof {
                assert(texts(v@)[i as int] == t@);
                if first_index(texts(v@), t@) > i {
                    assert(texts(v@)[i as int] != t@);
                }
            }
            return Some(i);
        }
        proof {
            if first_index(texts(v@), t@) == i {
                assert(texts(v@)[i as int] == t@);
            }
        }
        i = i + 1;
    }
    proof {
        if texts(v@).contains(t@) {
            let k = choose|k: int| 0 <= k < texts(v@).len() && texts(v@)[k] == t@;
            assert(v@[k]@ == t@);
        }
    }
    None
}

/// The parameter name of a tag and whether it may be inlined.
fn split_tag(t: &String) -> (r: (String, bool))
    requires
        t@.len() >= 1,
    ensures
        r.0@ == tag_key(t@),
        r.1 == is_inline_tag(t@),
{
    let cs = chars_of(t.as_str());
    let inline = cs.len() >= 2 && cs[1] == '_';
    let from: usize = if inline {
        2
    } else {
        1
    };
    let key = substring(&cs, from, cs.len());
    proof {
        assert(key@ =~= tag_key(t@));
    }
    (key, inline)
}

} // verus!

verus! {

/// The tags that are bound, with their values, or the first tag that does
/// not resolve.
fn check_tags(ds: &Vec<String>, ps: &SqlSingleParameters) -> (r: Result<(Vec<String>, Vec<SqlValue>), SqlError>)
    requires
        forall|k: int| 0 <= k < ds@.len() ==> (#[trigger] ds@[k])@.len() >= 1,
    ensures
        ({
            let d = texts(ds@);
            let f = first_unresolved(d, ps@);
            &&& r is Ok <==> f == d.len()
            &&& f < d.len() && value_of(ps@, tag_key(d[f])) is None ==> (r matches Err(
                SqlError::MissingParameter(n),
            ) && n@ == d[f])
            &&& f < d.len() && value_of(ps@, tag_key(d[f])) is Some ==> (r matches Err(
                SqlError::BindingRejected(n),
            ) && n@ == d[f])
            &&& r matches Ok(res) ==> {
                &&& texts(res.0@) == bound_tags(d)
                &&& res.1@.len() == res.0@.len()
                &&& forall|i: int|
                    0 <= i < res.1@.len() ==> bound_value_of(ps@, res.0@[i]@, #[trigger] res.1@[i])
            }
        }),
{
    let ghost d = texts(ds@);
    let mut tags: Vec<String> = Vec::new();
    let mut values: Vec<SqlValue> = Vec::new();
    let mut i: usize = 0;
    proof {
        lemma_first_unresolved_from(d, ps@, 0);
        assert(d.take(0) =~= Seq::<Seq<char>>::empty());
    }
    while i < ds.len()
        invariant
            d == texts(ds@),
            forall|k: int| 0 <= k < ds@.len() ==> (#[trigger] ds@[k])@.len() >= 1,
            i <= ds@.len(),
            first_unresolved_from(d, ps@, i as int) == first_unresolved(d, ps@),
            texts(tags@) == bound_tags(d.take(i as int)),
            values@.len() == tags@.len(),
            forall|m: int|
                0 <= m < values@.len() ==> bound_value_of(ps@, tags@[m]@, #[trigger] values@[m]),
        decreases ds@.len() - i,
    {
        let (key, inline) = split_tag(&ds[i]);
        proof {
            assert(d.take(i + 1).drop_last() =~= d.take(i as int));
            assert(d.take(i + 1).last() == d[i as int]);
        }
        match ps.get(key.as_str()) {
            None => {
                return Err(SqlError::MissingParameter(ds[i].clone()));
            },
            Some(v) => {
                if inline == v.is_bin() {
                    return Err(SqlError::BindingRejected(ds[i].clone()));
                }
                if !inline {
                    let ghost before = texts(tags@);
                    let ghost tags_before = tags@;
                    let ghost values_before = values@;
                    tags.push(ds[i].clone());
                    values.push(v.duplicate());
                    proof {
                        assert(texts(tags@) =~= before.push(d[i as int]));
                        assert forall|m: int|
                            0 <= m < values@.len() implies bound_value_of(ps@, tags@[m]@, #[trigger] values@[m]) by {
                            if m < values_before.len() {
                                assert(tags@[m] == tags_before[m]);
                                assert(values@[m] == values_before[m]);
                            } else {
                                assert(tags@[m]@ == d[i as int]);
                            }
                        }
                    }
                }
            },
        }
        i = i + 1;
    }
    proof {
        assert(d.take(i as int) =~= d);
        assert(first_unresolved(d, ps@) == d.len());
    }
    Ok((tags, values))
}

/// The view of an optional map.
pub open spec fn opt_view_ref(m: Option<&SqlSingleParameters>) -> Option<Seq<(Seq<char>, SqlValue)>> {
    match m {
        Some(p) => Some(p@),
        None => None,
    }
}

/// `r` is what resolving the statement text `sql` against the map `params`
/// gives: without a map, the text without comments and no bound value;
/// with one, an error for the first tag (in order of first appearance)
/// that does not resolve, else the rewritten text and the values of the
/// bound tags in order.
pub open spec fn resolves_as(
    sql: Seq<char>,
    params: Option<Seq<(Seq<char>, SqlValue)>>,
    r: Result<BoundQuery, SqlError>,
) -> bool {
    match params {
        None => r matches Ok(q) && q.text@ == stripped(sql) && q.bound@.len() == 0,
        Some(ps) => {
            let d = distinct_in_order(tag_tokens(stripped(sql)));
            let f = first_unresolved(d, ps);
            &&& r is Ok <==> f == d.len()
            &&& f < d.len() && value_of(ps, tag_key(d[f])) is None ==> (r matches Err(
                SqlError::MissingParameter(n),
            ) && n@ == d[f])
            &&& f < d.len() && value_of(ps, tag_key(d[f])) is Some ==> (r matches Err(
                SqlError::BindingRejected(n),
            ) && n@ == d[f])
            &&& r matches Ok(q) ==> {
                let b = bound_tags(d);
                &&& q.text@ == rewrite(stripped(sql), ps, b)
                &&& q.bound@.len() == b.len()
                &&& forall|i: int|
                    0 <= i < b.len() ==> bound_value_of(ps, b[i], #[trigger] q.bound@[i])
            }
        },
    }
}

/// Resolves the tags of a statement against a parameter map. Comments are
/// removed first. Each tag `@_name` is replaced by the statement text of the
/// value of `name`; each tag `@name` by the positional marker `@P1`, `@P2`,
/// ... of its value, numbered in order of first appearance. Without a map
/// the tags stay as they are. Fails on the first tag, in order of first
/// appearance, whose name has no value, or whose prefix does not fit its
/// value: only binary data is bound, and binary data is never inlined.
pub fn parse_sql(sql: &str, sql_parameters: Option<&SqlSingleParameters>) -> (r: Result<BoundQuery, SqlError>)
    ensures
        resolves_as(sql@, opt_view_ref(sql_parameters), r),
{
    let text = remove_sql_comments(sql);
    let ps = match sql_parameters {
        None => {
            return Ok(BoundQuery { text, bound: Vec::new() });
        },
        Some(ps) => ps,
    };
    let s = chars_of(text.as_str());
    let tokens = tags_of(text.as_str());
    let ds = distinct_texts(&tokens);
    let ghost d = texts(ds@);
    proof {
        assert forall|k: int| 0 <= k < ds@.len() implies (#[trigger] ds@[k])@.len() >= 1 by {
            assert(d[k] == ds@[k]@);
            assert(d.contains(d[k]));
            lemma_distinct_contains(tag_tokens(s@), d[k]);
            crate::tags::lemma_tokens_shape(s@, d[k]);
        }
    }
    let (tags, values) = match check_tags(&ds, ps) {
        Err(e) => {
            return Err(e);
        },
        Ok(res) => res,
    };
    let ghost b = texts(tags@);
    proof {
        lemma_first_unresolved_from(d, ps@, 0);
    }
    let mut out = String::new();
    let mut i: usize = 0;
    proof {
        assert(s@.skip(0) =~= s@);
        assert(out@ + rewrite(s@, ps@, b) =~= rewrite(s@, ps@, b));
    }
    while i < s.len()
        invariant
            i <= s@.len(),
            d == distinct_in_order(tag_tokens(s@)),
            b == bound_tags(d),
            b == texts(tags@),
            first_unresolved(d, ps@) == d.len(),
            forall|k: int| 0 <= k < d.len() ==> tag_resolves(#[trigger] d[k], ps@),
            forall|t: Seq<char>| #[trigger]
                tag_tokens(s@.skip(i as int)).contains(t) ==> tag_tokens(s@).contains(t),
            out@ + rewrite(s@.skip(i as int), ps@, b) == rewrite(s@, ps@, b),
        decreases s@.len() - i,
    {
        let ghost rest = s@.skip(i as int);
        match tag_end_at(&s, i) {
            Some(j) => {
                let t = substring(&s, i, j);
                proof {
                    crate::tags::lemma_name_len_bound(rest.skip(1));
                    assert(rest.skip(tag_len(rest) as int) =~= s@.skip(j as int));
                    assert(rest.take(tag_len(rest) as int) =~= t@);
                    assert(tag_tokens(rest)[0] == t@);
                    assert(tag_tokens(rest).contains(t@));
                    assert forall|u: Seq<char>| #[trigger]
                        tag_tokens(s@.skip(j as int)).contains(u) implies tag_tokens(s@).contains(u) by {
                        let k = choose|k: int| 0 <= k < tag_tokens(s@.skip(j as int)).len() && tag_tokens(s@.skip(j as int))[k] == u;
                        assert(tag_tokens(rest)[k + 1] == u);
                        assert(tag_tokens(rest).contains(u));
                    }
                    lemma_distinct_contains(tag_tokens(s@), t@);
                    let k = choose|k: int| 0 <= k < d.len() && d[k] == t@;
                    assert(tag_resolves(d[k], ps@));
                }
                let (key, inline) = split_tag(&t);
                let ghost before = out@;
                if inline {
                    match ps.get(key.as_str()) {
                        Some(v) => {
                            v.push_sql(&mut out);
                        },
                        None => {
                            proof {
                                assert(false);
                            }
                        },
                    }
                } else {
                    proof {
                        lemma_bound_tags_contains(d, t@);
                    }
                    let n_tags = tags.len();
                    match first_position(&tags, &t) {
                        Some(m) => {
                            assert(m < n_tags);
                            let number: usize = m + 1;
                            out.push_str("@P");
                            push_nat(&mut out, number as u64);
                        },
                        None => {
                            proof {
                                assert(false);
                            }
                        },
                    }
                }
                proof {
                    assert(out@ =~= before + substitution(t@, ps@, b));
                    assert(out@ + rewrite(s@.skip(j as int), ps@, b) =~= rewrite(s@, ps@, b));
                }
                i = j;
            },
            None => {
                proof {
                    assert(rest.skip(1) =~= s@.skip(i + 1));
                    assert forall|u: Seq<char>| #[trigger]
                        tag_tokens(s@.skip(i + 1)).contains(u) implies tag_tokens(s@).contains(u) by {
                        assert(tag_tokens(rest) == tag_tokens(s@.skip(i + 1)));
                    }
                }
                out.push(s[i]);
                proof {
                    assert(out@ + rewrite(s@.skip(i + 1), ps@, b) =~= rewrite(s@, ps@, b));
                }
                i = i + 1;
            },
        }
    }
    proof {
        assert(s@.skip(i as int) =~= Seq::<char>::empty());
        assert(out@ =~= rewrite(s@, ps@, b));
    }
    Ok(BoundQuery { text: out, bound: values })
}

} // verus!
