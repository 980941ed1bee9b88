//! Neutralising text before it is inlined between single quotes.
use vstd::prelude::*;

use crate::text::{chars_of, string_of};

verus! {

/// A control character: general category Cc, that is U+0000 to U+001F and
/// U+007F to U+009F.
pub open spec fn is_control(c: char) -> bool {
    (c as u32) <= 0x1f || (0x7f <= (c as u32) && (c as u32) <= 0x9f)
}

/// What the first pass makes of one character: a single quote is doubled,
/// double quotes and semicolons are dropped.
pub open spec fn quote_piece(c: char) -> Seq<char> {
    if c == '\'' {
        seq!['\'', '\'']
    } else if c == '"' || c == ';' {
        seq![]
    } else {
        seq![c]
    }
}

/// First pass: every single quote doubled, every `"` and `;` removed.
pub open spec fn quote_pass(s: Seq<char>) -> Seq<char>
    decreases s.len(),
{
    if s.len() == 0 {
        seq![]
    } else {
        quote_piece(s[0]) + quote_pass(s.skip(1))
    }
}

/// Second pass: each `--`, taken from left to right without overlap, removed.
pub open spec fn dash_pass(s: Seq<char>) -> Seq<char>
    decreases s.len(),
{
    if s.len() == 0 {
        seq![]
    } else if s.len() >= 2 && s[0] == '-' && s[1] == '-' {
        dash_pass(s.skip(2))
    } else {
        seq![s[0]] + dash_pass(s.skip(1))
    }
}

/// What the last pass makes of one character: `*` becomes the `LIKE`
/// wildcard `%`, control characters are dropped.
pub open spec fn tail_piece(c: char) -> Seq<char> {
    if is_control(c) {
        seq![]
    } else if c == '*' {
        seq!['%']
    } else {
        seq![c]
    }
}

/// Last pass: `*` turned into `%`, control characters removed.
pub open spec fn tail_pass(s: Seq<char>) -> Seq<char>
    decreases s.len(),
{
    if s.len() == 0 {
        seq![]
    } else {
        tail_piece(s[0]) + tail_pass(s.skip(1))
    }
}

/// The escaped form of a text: the three passes in order.
pub open spec fn escaped(s: Seq<char>) -> Seq<char> {
    tail_pass(dash_pass(quote_pass(s)))
}

/// Every single quote of `t` stands in a pair of two adjacent quotes, pairs
/// taken from the left: embedded between two quotes, `t` ends no literal.
pub open spec fn quotes_paired(t: Seq<char>) -> bool
    decreases t.len(),
{
    if t.len() == 0 {
        true
    } else if t[0] == '\'' {
        t.len() >= 2 && t[1] == '\'' && quotes_paired(t.skip(2))
    } else {
        quotes_paired(t.skip(1))
    }
}

fn quote_pass_exec(s: &Vec<char>) -> (r: Vec<char>)
    ensures
        r@ == quote_pass(s@),
{
    let mut r: Vec<char> = Vec::new();
    let mut i: usize = 0;
    proof {
        assert(s@.skip(0) =~= s@);
        assert(r@ + quote_pass(s@) =~= quote_pass(s@));
    }
    while i < s.len()
        invariant
            i <= s@.len(),
            r@ + quote_pass(s@.skip(i as int)) == quote_pass(s@),
        decreases s@.len() - i,
    {
        let c = s[i];
        proof {
            assert(s@.skip(i as int).skip(1) =~= s@.skip(i + 1));
        }
        if c == '\'' {
            r.push('\'');
            r.push('\'');
        } else if c != '"' && c != ';' {
            r.push(c);
        }
        proof {
            assert(r@ + quote_pass(s@.skip(i + 1)) =~= quote_pass(s@));
        }
        i = i + 1;
    }
    proof {
        assert(s@.skip(s@.len() as int) =~= Seq::<char>::empty());
        assert(r@ =~= quote_pass(s@));
    }
    r
}

fn dash_pass_exec(s: &Vec<char>) -> (r: Vec<char>)
    ensures
        r@ == dash_pass(s@),
{
    let mut r: Vec<char> = Vec::new();
    let mut i: usize = 0;
    proof {
        assert(s@.skip(0) =~= s@);
        assert(r@ + dash_pass(s@) =~= dash_pass(s@));
    }
    while i < s.len()
        invariant
            i <= s@.len(),
            r@ + dash_pass(s@.skip(i as int)) == dash_pass(s@),
        decreases s@.len() - i,
    {
        let c = s[i];
        if c == '-' && i + 1 < s.len() && s[i + 1] == '-' {
            proof {
                assert(s@.skip(i as int).skip(2) =~= s@.skip(i + 2));
            }
            i = i + 2;
        } else {
            proof {
                assert(s@.skip(i as int).skip(1) =~= s@.skip(i + 1));
            }
            r.push(c);
            proof {
                assert(r@ + dash_pass(s@.skip(i + 1)) =~= dash_pass(s@));
            }
            i = i + 1;
        }
    }
    proof {
        assert(s@.skip(s@.len() as int) =~= Seq::<char>::empty());
        assert(r@ =~= dash_pass(s@));
    }
    r
}

fn tail_pass_exec(s: &Vec<char>) -> (r: Vec<char>)
    ensures
        r@ == tail_pass(s@),
{
    let mut r: Vec<char> = Vec::new();
    let mut i: usize = 0;
    proof {
        assert(s@.skip(0) =~= s@);
        assert(r@ + tail_pass(s@) =~= tail_pass(s@));
    }
    while i < s.len()
        invariant
            i <= s@.len(),
            r@ + tail_pass(s@.skip(i as int)) == tail_pass(s@),
        decreases s@.len() - i,
    {
        let c = s[i];
        proof {
            assert(s@.skip(i as int).skip(1) =~= s@.skip(i + 1));
        }
        let u = c as u32;
        let control = u <= 0x1f || (0x7f <= u && u <= 0x9f);
        if !control {
            if c == '*' {
                r.push('%');
            } else {
                r.push(c);
            }
        }
        proof {
            assert(r@ + tail_pass(s@.skip(i + 1)) =~= tail_pass(s@));
        }
        i = i + 1;
    }
    proof {
        assert(s@.skip(s@.len() as int) =~= Seq::<char>::empty());
        assert(r@ =~= tail_pass(s@));
    }
    r
}

/// Makes a text safe to embed between single quotes: quotes are doubled;
/// `"`, `;`, `--` and control characters are removed; `*` becomes `%`.
pub fn escape(input: &str) -> (r: String)
    ensures
        r@ == escaped(input@),
{
    let chars = chars_of(input);
    let first = quote_pass_exec(&chars);
    let second = dash_pass_exec(&first);
    let third = tail_pass_exec(&second);
    string_of(&third)
}

} // verus!

verus! {

proof fn lemma_paired_concat(a: Seq<char>, b: Seq<char>)
    requires
        quotes_paired(a),
        quotes_paired(b),
    ensures
        quotes_paired(a + b),
    decreases a.len(),
{
    if a.len() == 0 {
        assert(a + b =~= b);
    } else if a[0] == '\'' {
        lemma_paired_concat(a.skip(2), b);
        assert((a + b).skip(2) =~= a.skip(2) + b);
    } else {
        lemma_paired_concat(a.skip(1), b);
        assert((a + b).skip(1) =~= a.skip(1) + b);
    }
}

proof fn lemma_quote_pass_paired(s: Seq<char>)
    ensures
        quotes_paired(quote_pass(s)),
    decreases s.len(),
{
    if s.len() > 0 {
        lemma_quote_pass_paired(s.skip(1));
        let p = quote_piece(s[0]);
        if s[0] == '\'' {
            assert(p.skip(2) =~= Seq::<char>::empty());
            assert(quotes_paired(p.skip(2)));
        } else if s[0] != '"' && s[0] != ';' {
            assert(p.skip(1) =~= Seq::<char>::empty());
            assert(quotes_paired(p.skip(1)));
        } else {
            assert(p =~= Seq::<char>::empty());
        }
        lemma_paired_concat(p, quote_pass(s.skip(1)));
    }
}

proof fn lemma_dash_pass_paired(t: Seq<char>)
    requires
        quotes_paired(t),
    ensures
        quotes_paired(dash_pass(t)),
    decreases t.len(),
{
    if t.len() == 0 {
    } else if t.len() >= 2 && t[0] == '-' && t[1] == '-' {
        assert(t.skip(1).skip(1) =~= t.skip(2));
        assert(quotes_paired(t.skip(1)));
        lemma_dash_pass_paired(t.skip(2));
    } else if t[0] == '\'' {
        let u = t.skip(1);
        assert(u.skip(1) =~= t.skip(2));
        lemma_dash_pass_paired(t.skip(2));
        assert(dash_pass(u) == seq![u[0]] + dash_pass(u.skip(1)));
        let d = dash_pass(t);
        assert(d =~= seq!['\'', '\''] + dash_pass(t.skip(2)));
        assert(d.skip(2) =~= dash_pass(t.skip(2)));
    } else {
        lemma_dash_pass_paired(t.skip(1));
        assert(dash_pass(t).skip(1) =~= dash_pass(t.skip(1)));
    }
}

proof fn lemma_tail_pass_paired(t: Seq<char>)
    requires
        quotes_paired(t),
    ensures
        quotes_paired(tail_pass(t)),
    decreases t.len(),
{
    if t.len() == 0 {
    } else if t[0] == '\'' {
        let u = t.skip(1);
        assert(u.skip(1) =~= t.skip(2));
        lemma_tail_pass_paired(t.skip(2));
        assert(tail_pass(u) == tail_piece(u[0]) + tail_pass(u.skip(1)));
        let d = tail_pass(t);
        assert(d =~= seq!['\'', '\''] + tail_pass(t.skip(2)));
        assert(d.skip(2) =~= tail_pass(t.skip(2)));
    } else {
        lemma_tail_pass_paired(t.skip(1));
        let p = tail_piece(t[0]);
        if p.len() == 1 {
            assert(p.skip(1) =~= Seq::<char>::empty());
            assert(quotes_paired(p.skip(1)));
        } else {
            assert(p =~= Seq::<char>::empty());
        }
        lemma_paired_concat(p, tail_pass(t.skip(1)));
    }
}

/// Whatever the input, every single quote of its escaped form is one of a
/// pair of adjacent quotes: placed between two quotes, the escaped text is
/// one complete literal and cannot close it early.
pub proof fn escaped_quotes_paired(s: Seq<char>)
    ensures
        quotes_paired(escaped(s)),
{
    lemma_quote_pass_paired(s);
    lemma_dash_pass_paired(quote_pass(s));
    lemma_tail_pass_paired(dash_pass(quote_pass(s)));
}

} // verus!
