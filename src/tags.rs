//! Parameter tags: `@name` or `@_name` inside statement text.
use vstd::prelude::*;

use crate::comments::{remove_sql_comments, stripped};
use crate::text::{contains_text, texts};

verus! {

/// A character that may open a tag name: an ASCII letter or `_`.
pub open spec fn is_name_start(c: char) -> bool {
    ('a' <= c && c <= 'z') || ('A' <= c && c <= 'Z') || c == '_'
}

/// A character that may continue a tag name: an ASCII letter, digit or `_`.
pub open spec fn is_name_char(c: char) -> bool {
    is_name_start(c) || ('0' <= c && c <= '9')
}

/// How many characters at the start of `s` may belong to a name.
pub open spec fn name_len(s: Seq<char>) -> nat
    decreases s.len(),
{
    if s.len() > 0 && is_name_char(s[0]) {
        1 + name_len(s.skip(1))
    } else {
        0
    }
}

/// A tag starts at the front of `s`: `@` and then a name start.
pub open spec fn tag_at_front(s: Seq<char>) -> bool {
    s.len() >= 2 && s[0] == '@' && is_name_start(s[1])
}

/// The length of the tag at the front of `s`: `@` and the longest name.
pub open spec fn tag_len(s: Seq<char>) -> nat {
    1 + name_len(s.skip(1))
}

/// The tags of `s` from left to right, as the pattern `@[A-Za-z_][A-Za-z0-9_]*`
/// finds them: the leftmost match first, each as long as it can be, the
/// next search starting where the last match ended.
pub open spec fn tag_tokens(s: Seq<char>) -> Seq<Seq<char>>
    decreases s.len()
    via tag_tokens_decreases
{
    if s.len() == 0 {
        seq![]
    } else if tag_at_front(s) {
        seq![s.take(tag_len(s) as int)] + tag_tokens(s.skip(tag_len(s) as int))
    } else {
        tag_tokens(s.skip(1))
    }
}

#[via_fn]
proof fn tag_tokens_decreases(s: Seq<char>) {
    if s.len() > 0 {
        lemma_name_len_bound(s.skip(1));
    }
}

/// The elements of `ts` in the order of their first appearance, each once.
pub open spec fn distinct_in_order(ts: Seq<Seq<char>>) -> Seq<Seq<char>>
    decreases ts.len(),
{
    if ts.len() == 0 {
        seq![]
    } else {
        let d = distinct_in_order(ts.drop_last());
        if d.contains(ts.last()) {
            d
        } else {
            d.push(ts.last())
        }
    }
}

pub proof fn lemma_name_len_bound(s: Seq<char>)
    ensures
        name_len(s) <= s.len(),
        forall|k: int| 0 <= k < name_len(s) ==> is_name_char(#[trigger] s[k]),
        name_len(s) < s.len() ==> !is_name_char(s[name_len(s) as int]),
    decreases s.len(),
{
    if s.len() > 0 && is_name_char(s[0]) {
        lemma_name_len_bound(s.skip(1));
        assert forall|k: int| 0 <= k < name_len(s) implies is_name_char(#[trigger] s[k]) by {
            if k > 0 {
                assert(s[k] == s.skip(1)[k - 1]);
            }
        }
    }
}

fn is_name_start_exec(c: char) -> (r: bool)
    ensures
        r == is_name_start(c),
{
    ('a' <= c && c <= 'z') || ('A' <= c && c <= 'Z') || c == '_'
}

fn is_name_char_exec(c: char) -> (r: bool)
    ensures
        r == is_name_char(c),
{
    is_name_start_exec(c) || ('0' <= c && c <= '9')
}


} // verus!

verus! {

/// The end of the name that starts at `from` in `s`.
fn name_end(s: &Vec<char>, from: usize) -> (r: usize)
    requires
        from <= s@.len(),
    ensures
        r == from + name_len(s@.skip(from as int)),
        r <= s@.len(),
{
    let mut j = from;
    proof {
        lemma_name_len_bound(s@.skip(from as int));
    }
    while j < s.len() && is_name_char_exec(s[j])
        invariant
            from <= j <= s@.len(),
            j - from + name_len(s@.skip(j as int)) == name_len(s@.skip(from as int)),
        decreases s@.len() - j,
    {
        proof {
            assert(s@.skip(j as int).skip(1) =~= s@.skip(j + 1));
        }
        j = j + 1;
    }
    proof {
        if j < s@.len() {
            assert(!is_name_char(s@.skip(j as int)[0]));
        } else {
            assert(s@.skip(j as int).len() == 0);
        }
    }
    j
}

/// Whether a tag starts at position `i` of `s`; if so, where it ends.
pub fn tag_end_at(s: &Vec<char>, i: usize) -> (r: Option<usize>)
    requires
        i < s@.len(),
    ensures
        r is Some <==> tag_at_front(s@.skip(i as int)),
        r matches Some(j) ==> j == i + tag_len(s@.skip(i as int)) && j <= s@.len() && i < j,
{
    if s[i] == '@' && s.len() - i > 1 && is_name_start_exec(s[i + 1]) {
        let j = name_end(s, i + 1);
        proof {
            assert(s@.skip(i as int).skip(1) =~= s@.skip(i + 1));
        }
        Some(j)
    } else {
        None
    }
}

/// The pattern that a tag matches: `@`, an ASCII letter or `_`, then ASCII
/// letters, digits and `_`.
pub open spec fn tag_pattern() -> Seq<char> {
    "@[A-Za-z_][A-Za-z0-9_]*"@
}

/// Relies on `regex::Regex::new` and `Regex::find_iter`: the tag pattern
/// compiles, and its matches come as successive non-overlapping matches,
/// leftmost first, each as long as the pattern allows, which for this
/// pattern is exactly `tag_tokens`.
#[verifier::external_body]
fn tag_matches(pattern: &str, text: &str) -> (r: Vec<String>)
    requires
        pattern@ == tag_pattern(),
    ensures
        texts(r@) == tag_tokens(text@),
{
    let re = regex::Regex::new(pattern).unwrap();
    re.find_iter(text).map(|m| m.as_str().to_string()).collect()
}

/// The tags of a text from left to right, repeats included.
pub fn tags_of(text: &str) -> (r: Vec<String>)
    ensures
        texts(r@) == tag_tokens(text@),
{
    tag_matches("@[A-Za-z_][A-Za-z0-9_]*", text)
}

/// The strings of `ts` in the order of their first appearance, each once.
pub fn distinct_texts(ts: &Vec<String>) -> (r: Vec<String>)
    ensures
        texts(r@) == distinct_in_order(texts(ts@)),
{
    let mut r: Vec<String> = Vec::new();
    let mut i: usize = 0;
    proof {
        assert(texts(ts@).take(0) =~= Seq::<Seq<char>>::empty());
        assert(texts(r@) =~= distinct_in_order(texts(ts@).take(0)));
    }
    while i < ts.len()
        invariant
            i <= ts@.len(),
            texts(r@) == distinct_in_order(texts(ts@).take(i as int)),
        decreases ts@.len() - i,
    {
        let ghost prefix = texts(ts@).take(i + 1);
        proof {
            assert(prefix.drop_last() =~= texts(ts@).take(i as int));
            assert(prefix.last() == ts@[i as int]@);
        }
        if !contains_text(&r, &ts[i]) {
            let ghost before = texts(r@);
            r.push(ts[i].clone());
            proof {
                assert(texts(r@) =~= before.push(ts@[i as int]@));
            }
        }
        i = i + 1;
    }
    proof {
        assert(texts(ts@).take(ts@.len() as int) =~= texts(ts@));
    }
    r
}

/// The tags of a statement text once its comments are removed, each once,
/// in the order of their first appearance.
pub fn extract_sql_params(sql: &str) -> (r: Vec<String>)
    ensures
        texts(r@) == distinct_in_order(tag_tokens(stripped(sql@))),
{
    let text = remove_sql_comments(sql);
    let all = tags_of(text.as_str());
    distinct_texts(&all)
}

} // verus!

verus! {

/// Every tag starts with `@` and has a name.
pub proof fn lemma_tokens_shape(s: Seq<char>, t: Seq<char>)
    requires
        tag_tokens(s).contains(t),
    ensures
        t.len() >= 2,
        t[0] == '@',
    decreases s.len(),
{
    if s.len() > 0 {
        if tag_at_front(s) {
            lemma_name_len_bound(s.skip(1));
            let n = tag_len(s) as int;
            let rest = tag_tokens(s.skip(n));
            let k = choose|k: int| 0 <= k < tag_tokens(s).len() && tag_tokens(s)[k] == t;
            if k > 0 {
                assert(rest[k - 1] == t);
                lemma_tokens_shape(s.skip(n), t);
            }
        } else {
            lemma_tokens_shape(s.skip(1), t);
        }
    }
}

} // verus!
