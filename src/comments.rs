//! Removal of SQL comments in one left-to-right scan.
use vstd::prelude::*;

use crate::text::{chars_of, string_of};

verus! {

/// Where the comment scanner stands.
#[derive(PartialEq, Eq, Structural, Clone, Copy, Debug)]
pub enum ScanMode {
    /// Plain statement text.
    Code,
    /// Inside a single-quoted literal.
    Quoted,
    /// Inside a `--` comment, up to the end of the line.
    Line,
    /// Inside a `/* ... */` comment.
    Block,
}

/// `s` starts with the two characters `a` and `b`.
pub open spec fn starts_with_pair(s: Seq<char>, a: char, b: char) -> bool {
    s.len() >= 2 && s[0] == a && s[1] == b
}

/// What is left of `s` once comments are removed, the scan starting in
/// `mode`. A comment opens only in code; inside a line comment another `--`
/// is taken as a whole, inside a block comment another `/*` is.
pub open spec fn strip_from(s: Seq<char>, mode: ScanMode) -> Seq<char>
    decreases s.len(),
{
    if s.len() == 0 {
        seq![]
    } else {
        match mode {
            ScanMode::Code => if starts_with_pair(s, '-', '-') {
                strip_from(s.skip(2), ScanMode::Line)
            } else if starts_with_pair(s, '/', '*') {
                strip_from(s.skip(2), ScanMode::Block)
            } else if s[0] == '\'' {
                seq![s[0]] + strip_from(s.skip(1), ScanMode::Quoted)
            } else {
                seq![s[0]] + strip_from(s.skip(1), ScanMode::Code)
            },
            ScanMode::Quoted => if s[0] == '\'' {
                seq![s[0]] + strip_from(s.skip(1), ScanMode::Code)
            } else {
                seq![s[0]] + strip_from(s.skip(1), ScanMode::Quoted)
            },
            ScanMode::Line => if starts_with_pair(s, '-', '-') {
                strip_from(s.skip(2), ScanMode::Line)
            } else if s[0] == '\n' {
                seq!['\n'] + strip_from(s.skip(1), ScanMode::Code)
            } else {
                strip_from(s.skip(1), ScanMode::Line)
            },
            ScanMode::Block => if starts_with_pair(s, '/', '*') {
                strip_from(s.skip(2), ScanMode::Block)
            } else if starts_with_pair(s, '*', '/') {
                strip_from(s.skip(2), ScanMode::Code)
            } else {
                strip_from(s.skip(1), ScanMode::Block)
            },
        }
    }
}

/// A statement text with its comments removed.
pub open spec fn stripped(s: Seq<char>) -> Seq<char> {
    strip_from(s, ScanMode::Code)
}

/// Removes `--` line comments (the newline that ends one is kept) and
/// `/* */` block comments, leaving single-quoted literals untouched.
pub fn remove_sql_comments(sql: &str) -> (r: String)
    ensures
        r@ == stripped(sql@),
{
    let s = chars_of(sql);
    let n = s.len();
    let mut out: Vec<char> = Vec::new();
    let mut mode = ScanMode::Code;
    let mut i: usize = 0;
    proof {
        assert(s@.skip(0) =~= s@);
        assert(out@ + stripped(s@) =~= stripped(s@));
    }
    while i < n
        invariant
            n == s@.len(),
            i <= n,
            out@ + strip_from(s@.skip(i as int), mode) == stripped(s@),
        decreases n - i,
    {
        let c = s[i];
        let next: Option<char> = if i + 1 < n { Some(s[i + 1]) } else { None };
        let ghost rest = s@.skip(i as int);
        proof {
            assert(rest.skip(1) =~= s@.skip(i + 1));
            if i + 1 < n {
                assert(rest.skip(2) =~= s@.skip(i + 2));
            }
        }
        let ghost before = out@;
        let mut step: usize = 1;
        match mode {
            ScanMode::Code => {
                if c == '-' && next == Some('-') {
                    mode = ScanMode::Line;
                    step = 2;
                } else if c == '/' && next == Some('*') {
                    mode = ScanMode::Block;
                    step = 2;
                } else {
                    if c == '\'' {
                        mode = ScanMode::Quoted;
                    }
                    out.push(c);
                }
            },
            ScanMode::Quoted => {
                if c == '\'' {
                    mode = ScanMode::Code;
                }
                out.push(c);
            },
            ScanMode::Line => {
                if c == '-' && next == Some('-') {
                    step = 2;
                } else if c == '\n' {
                    mode = ScanMode::Code;
                    out.push(c);
                }
            },
            ScanMode::Block => {
                if c == '/' && next == Some('*') {
                    step = 2;
                } else if c == '*' && next == Some('/') {
                    mode = ScanMode::Code;
                    step = 2;
                }
            },
        }
        proof {
            assert(out@ + strip_from(s@.skip(i + step), mode) =~= stripped(s@));
        }
        i = i + step;
    }
    proof {
        assert(s@.skip(i as int) =~= Seq::<char>::empty());
        assert(out@ =~= stripped(s@));
    }
    string_of(&out)
}

} // verus!

verus! {

/// Scanned from `mode` (code or a literal), `t` opens no comment: no `--`
/// and no `/*` stands outside single-quoted literals.
pub open spec fn comment_free(t: Seq<char>, mode: ScanMode) -> bool
    decreases t.len(),
{
    if t.len() == 0 {
        true
    } else {
        match mode {
            ScanMode::Code => !starts_with_pair(t, '-', '-') && !starts_with_pair(t, '/', '*')
                && comment_free(
                t.skip(1),
                if t[0] == '\'' {
                    ScanMode::Quoted
                } else {
                    ScanMode::Code
                },
            ),
            ScanMode::Quoted => comment_free(
                t.skip(1),
                if t[0] == '\'' {
                    ScanMode::Code
                } else {
                    ScanMode::Quoted
                },
            ),
            _ => false,
        }
    }
}

pub proof fn lemma_strip_comment_free(t: Seq<char>, mode: ScanMode)
    requires
        comment_free(t, mode),
    ensures
        strip_from(t, mode) == t,
    decreases t.len(),
{
    if t.len() > 0 {
        let next = match mode {
            ScanMode::Code => if t[0] == '\'' {
                ScanMode::Quoted
            } else {
                ScanMode::Code
            },
            _ => if t[0] == '\'' {
                ScanMode::Code
            } else {
                ScanMode::Quoted
            },
        };
        lemma_strip_comment_free(t.skip(1), next);
        assert(seq![t[0]] + t.skip(1) =~= t);
    }
}

proof fn lemma_literal_kept(lit: Seq<char>, rest: Seq<char>)
    requires
        !lit.contains('\''),
    ensures
        strip_from(lit + rest, ScanMode::Quoted) == lit + strip_from(rest, ScanMode::Quoted),
    decreases lit.len(),
{
    if lit.len() == 0 {
        assert(lit + rest =~= rest);
    } else {
        assert(lit[0] != '\'') by {
            assert(lit.contains(lit[0]));
        }
        assert(!lit.skip(1).contains('\'')) by {
            if lit.skip(1).contains('\'') {
                let k = choose|k: int| 0 <= k < lit.skip(1).len() && lit.skip(1)[k] == '\'';
                assert(lit[k + 1] == '\'');
            }
        }
        lemma_literal_kept(lit.skip(1), rest);
        assert((lit + rest).skip(1) =~= lit.skip(1) + rest);
        assert(seq![lit[0]] + lit.skip(1) =~= lit);
    }
}

/// Wherever the scan meets a single quote in code, the literal that it
/// opens is kept character for character up to its closing quote, even when
/// it holds `--` or `/*`.
pub proof fn strip_keeps_literals(lit: Seq<char>, rest: Seq<char>)
    requires
        !lit.contains('\''),
    ensures
        strip_from(seq!['\''] + lit + seq!['\''] + rest, ScanMode::Code) == seq!['\''] + lit
            + seq!['\''] + strip_from(rest, ScanMode::Code),
{
    let whole = seq!['\''] + lit + seq!['\''] + rest;
    assert(whole.skip(1) =~= lit + (seq!['\''] + rest));
    lemma_literal_kept(lit, seq!['\''] + rest);
    let tail = seq!['\''] + rest;
    assert(tail.skip(1) =~= rest);
    assert(strip_from(tail, ScanMode::Quoted) == seq!['\''] + strip_from(rest, ScanMode::Code));
    assert(strip_from(whole, ScanMode::Code) =~= seq!['\''] + lit + seq!['\''] + strip_from(
        rest,
        ScanMode::Code,
    ));
}

} // verus!

verus! {

/// `s` holds `/*` somewhere.
pub open spec fn has_block_opener(s: Seq<char>) -> bool {
    exists|i: int| 0 <= i < s.len() - 1 && s[i] == '/' && #[trigger] s[i + 1] == '*'
}

proof fn lemma_no_opener_skip(s: Seq<char>, k: int)
    requires
        !has_block_opener(s),
        0 <= k <= s.len(),
    ensures
        !has_block_opener(s.skip(k)),
{
    if has_block_opener(s.skip(k)) {
        let i = choose|i: int|
            0 <= i < s.skip(k).len() - 1 && s.skip(k)[i] == '/' && #[trigger] s.skip(k)[i + 1] == '*';
        assert(s[i + k] == '/' && s[i + k + 1] == '*');
    }
}

proof fn lemma_line_output(s: Seq<char>)
    ensures
        strip_from(s, ScanMode::Line).len() == 0 || strip_from(s, ScanMode::Line)[0] == '\n',
    decreases s.len(),
{
    if s.len() > 0 {
        if starts_with_pair(s, '-', '-') {
            lemma_line_output(s.skip(2));
        } else if s[0] != '\n' {
            lemma_line_output(s.skip(1));
        }
    }
}

/// Without `/*`, the output in code starts with the input's first
/// character, or with the newline that ends a line comment.
proof fn lemma_code_output_front(s: Seq<char>)
    requires
        s.len() > 0,
        !has_block_opener(s),
    ensures
        strip_from(s, ScanMode::Code).len() > 0 ==> if starts_with_pair(s, '-', '-') {
            strip_from(s, ScanMode::Code)[0] == '\n'
        } else {
            strip_from(s, ScanMode::Code)[0] == s[0]
        },
{
    if starts_with_pair(s, '-', '-') {
        lemma_line_output(s.skip(2));
    } else if starts_with_pair(s, '/', '*') {
        assert(s[0] == '/' && s[0int + 1] == '*');
    }
}

proof fn lemma_output_comment_free(s: Seq<char>, mode: ScanMode)
    requires
        !has_block_opener(s),
        mode != ScanMode::Block,
    ensures
        comment_free(
            strip_from(s, mode),
            if mode == ScanMode::Quoted {
                ScanMode::Quoted
            } else {
                ScanMode::Code
            },
        ),
    decreases s.len(),
{
    if s.len() > 0 {
        lemma_no_opener_skip(s, 1);
        if s.len() >= 2 {
            lemma_no_opener_skip(s, 2);
        }
        let rest = s.skip(1);
        match mode {
            ScanMode::Code => {
                if starts_with_pair(s, '-', '-') {
                    lemma_output_comment_free(s.skip(2), ScanMode::Line);
                } else if starts_with_pair(s, '/', '*') {
                    assert(s[0] == '/' && s[0int + 1] == '*');
                } else if s[0] == '\'' {
                    lemma_output_comment_free(rest, ScanMode::Quoted);
                    let out = strip_from(s, ScanMode::Code);
                    assert(out.skip(1) =~= strip_from(rest, ScanMode::Quoted));
                } else {
                    lemma_output_comment_free(rest, ScanMode::Code);
                    let x = strip_from(rest, ScanMode::Code);
                    let out = strip_from(s, ScanMode::Code);
                    assert(out.skip(1) =~= x);
                    if rest.len() > 0 {
                        lemma_code_output_front(rest);
                        if s[0] == '/' {
                            assert(s[0] == '/' && s[0int + 1] == rest[0]);
                        }
                    }
                }
            },
            ScanMode::Quoted => {
                let out = strip_from(s, ScanMode::Quoted);
                if s[0] == '\'' {
                    lemma_output_comment_free(rest, ScanMode::Code);
                    assert(out.skip(1) =~= strip_from(rest, ScanMode::Code));
                } else {
                    lemma_output_comment_free(rest, ScanMode::Quoted);
                    assert(out.skip(1) =~= strip_from(rest, ScanMode::Quoted));
                }
            },
            ScanMode::Line => {
                if starts_with_pair(s, '-', '-') {
                    lemma_output_comment_free(s.skip(2), ScanMode::Line);
                } else if s[0] == '\n' {
                    lemma_output_comment_free(rest, ScanMode::Code);
                    let out = strip_from(s, ScanMode::Line);
                    assert(out.skip(1) =~= strip_from(rest, ScanMode::Code));
                } else {
                    lemma_output_comment_free(rest, ScanMode::Line);
                }
            },
            ScanMode::Block => {},
        }
    }
}

/// A text without `/*` loses only line comments, and stripping its output
/// again changes nothing: removing a line comment keeps the newline that
/// ends it, so it never joins two characters into a new comment marker.
pub proof fn strip_idempotent_without_block_comments(s: Seq<char>)
    requires
        !has_block_opener(s),
    ensures
        stripped(stripped(s)) == stripped(s),
{
    lemma_output_comment_free(s, ScanMode::Code);
    lemma_strip_comment_free(stripped(s), ScanMode::Code);
}

} // verus!

verus! {

proof fn lemma_paired_kept(e: Seq<char>, tail: Seq<char>)
    requires
        crate::escape::quotes_paired(e),
    ensures
        strip_from(e + tail, ScanMode::Quoted) == e + strip_from(tail, ScanMode::Quoted),
    decreases e.len(),
{
    if e.len() == 0 {
        assert(e + tail =~= tail);
    } else if e[0] == '\'' {
        let et = e + tail;
        lemma_paired_kept(e.skip(2), tail);
        assert(et.skip(1).skip(1) =~= e.skip(2) + tail);
        assert(et.skip(1)[0] == '\'');
        assert(strip_from(et.skip(1), ScanMode::Code) == seq!['\''] + strip_from(
            e.skip(2) + tail,
            ScanMode::Quoted,
        ));
        assert(e =~= seq!['\'', '\''] + e.skip(2));
        assert(strip_from(et, ScanMode::Quoted) =~= e + strip_from(tail, ScanMode::Quoted));
    } else {
        lemma_paired_kept(e.skip(1), tail);
        assert((e + tail).skip(1) =~= e.skip(1) + tail);
        assert(e =~= seq![e[0]] + e.skip(1));
    }
}

/// An escaped text placed between single quotes is one complete literal:
/// the comment scan enters it at the first quote and leaves it only at the
/// last, so whatever the unescaped text held (`--`, `/*`, quotes), stripping
/// comments keeps the literal as it is and goes on in code after it.
pub proof fn quoted_escaped_is_one_literal(s: Seq<char>, rest: Seq<char>)
    ensures
        strip_from(seq!['\''] + crate::escape::escaped(s) + seq!['\''] + rest, ScanMode::Code)
            == seq!['\''] + crate::escape::escaped(s) + seq!['\''] + strip_from(rest, ScanMode::Code),
        stripped(seq!['\''] + crate::escape::escaped(s) + seq!['\'']) == seq!['\'']
            + crate::escape::escaped(s) + seq!['\''],
{
    let e = crate::escape::escaped(s);
    crate::escape::escaped_quotes_paired(s);
    let close = seq!['\''] + rest;
    lemma_paired_kept(e, close);
    assert(close.skip(1) =~= rest);
    let whole = seq!['\''] + e + seq!['\''] + rest;
    assert(whole.skip(1) =~= e + close);
    assert(strip_from(whole, ScanMode::Code) =~= seq!['\''] + e + seq!['\''] + strip_from(
        rest,
        ScanMode::Code,
    ));
    let empty = Seq::<char>::empty();
    assert(seq!['\''] + e + seq!['\''] + empty =~= seq!['\''] + e + seq!['\'']);
    assert(strip_from(empty, ScanMode::Code) =~= empty);
    assert(seq!['\''] + e + seq!['\''] + strip_from(empty, ScanMode::Code) =~= seq!['\''] + e
        + seq!['\'']);
    assert(strip_from(seq!['\''] + e + seq!['\''] + empty, ScanMode::Code) == seq!['\''] + e
        + seq!['\''] + strip_from(empty, ScanMode::Code)) by {
        let w2 = seq!['\''] + e + seq!['\''] + empty;
        let c2 = seq!['\''] + empty;
        lemma_paired_kept(e, c2);
        assert(c2.skip(1) =~= empty);
        assert(w2.skip(1) =~= e + c2);
    }
}

} // verus!
