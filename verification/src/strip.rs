use vstd::prelude::*;

use crate::color::{fg_code_digit, reset_seq, style_seq, Color};
use crate::render::{line_prefix, render_line, dec_digits};
use crate::search::{replace_all, lemma_replace_self};

verus! {

/// `s` holds no escape byte.
pub open spec fn no_esc(s: Seq<u8>) -> bool {
    forall|k: int| 0 <= k < s.len() ==> s[k] != 27u8
}

/// One left-to-right pass that drops every escape run, from the escape byte
/// through the `m` that ends it; `in_esc` says whether the pass stands inside
/// such a run.
pub open spec fn strip_rec(s: Seq<u8>, in_esc: bool) -> Seq<u8>
    decreases s.len(),
{
    if s.len() == 0 {
        Seq::empty()
    } else if in_esc {
        if s[0] == 109u8 {
            strip_rec(s.drop_first(), false)
        } else {
            strip_rec(s.drop_first(), true)
        }
    } else if s[0] == 27u8 {
        strip_rec(s.drop_first(), true)
    } else {
        seq![s[0]] + strip_rec(s.drop_first(), false)
    }
}

/// `s` with every color escape sequence removed.
pub open spec fn strip_ansi(s: Seq<u8>) -> Seq<u8> {
    strip_rec(s, false)
}

/// Stripping leaves a sequence without escape bytes unchanged.
pub proof fn lemma_strip_no_esc(s: Seq<u8>)
    requires
        no_esc(s),
    ensures
        strip_rec(s, false) == s,
    decreases s.len(),
{
    if s.len() > 0 {
        lemma_strip_no_esc(s.drop_first());
        assert(seq![s[0]] + s.drop_first() =~= s);
    }
}

/// Stripping passes an escape-free prefix through unchanged.
pub proof fn lemma_strip_prefix_no_esc(a: Seq<u8>, b: Seq<u8>)
    requires
        no_esc(a),
    ensures
        strip_rec(a + b, false) == a + strip_rec(b, false),
    decreases a.len(),
{
    if a.len() == 0 {
        assert(a + b =~= b);
        assert(a + strip_rec(b, false) =~= strip_rec(b, false));
    } else {
        lemma_strip_prefix_no_esc(a.drop_first(), b);
        assert((a + b).drop_first() =~= a.drop_first() + b);
        assert(seq![a[0]] + (a.drop_first() + strip_rec(b, false)) =~= a + strip_rec(b, false));
    }
}

/// Stripping drops a leading style sequence whole.
pub proof fn lemma_strip_style(c: Color, b: Seq<u8>)
    ensures
        strip_rec(style_seq(c) + b, false) == strip_rec(b, false),
{
    let d = fg_code_digit(c);
    assert(d != 109u8 && d != 27u8);
    let s0 = style_seq(c) + b;
    let s1 = seq![91u8, 51u8, d, 109u8] + b;
    let s2 = seq![51u8, d, 109u8] + b;
    let s3 = seq![d, 109u8] + b;
    let s4 = seq![109u8] + b;
    assert(s0[0] == 27u8 && s0.drop_first() =~= s1);
    assert(strip_rec(s0, false) == strip_rec(s1, true));
    assert(s1[0] == 91u8 && s1.drop_first() =~= s2);
    assert(strip_rec(s1, true) == strip_rec(s2, true));
    assert(s2[0] == 51u8 && s2.drop_first() =~= s3);
    assert(strip_rec(s2, true) == strip_rec(s3, true));
    assert(s3[0] == d && s3.drop_first() =~= s4);
    assert(strip_rec(s3, true) == strip_rec(s4, true));
    assert(s4[0] == 109u8 && s4.drop_first() =~= b);
    assert(strip_rec(s4, true) == strip_rec(b, false));
}

/// Stripping drops a leading reset sequence whole.
pub proof fn lemma_strip_reset(b: Seq<u8>)
    ensures
        strip_rec(reset_seq() + b, false) == strip_rec(b, false),
{
    let s0 = reset_seq() + b;
    let s1 = seq![91u8, 48u8, 109u8] + b;
    let s2 = seq![48u8, 109u8] + b;
    let s3 = seq![109u8] + b;
    assert(s0[0] == 27u8 && s0.drop_first() =~= s1);
    assert(strip_rec(s0, false) == strip_rec(s1, true));
    assert(s1[0] == 91u8 && s1.drop_first() =~= s2);
    assert(strip_rec(s1, true) == strip_rec(s2, true));
    assert(s2[0] == 48u8 && s2.drop_first() =~= s3);
    assert(strip_rec(s2, true) == strip_rec(s3, true));
    assert(s3[0] == 109u8 && s3.drop_first() =~= b);
    assert(strip_rec(s3, true) == strip_rec(b, false));
}

/// Stripping a highlighted line recovers the line: replacing each occurrence
/// of `pat` by its style-wrapped form and then dropping the escape runs is
/// the identity on lines without escape bytes.
pub proof fn lemma_strip_replace(line: Seq<u8>, pat: Seq<u8>, c: Color)
    requires
        no_esc(line),
    ensures
        strip_ansi(replace_all(line, pat, style_seq(c) + pat + reset_seq())) == line,
    decreases line.len(),
{
    let painted = style_seq(c) + pat + reset_seq();
    if pat.len() == 0 || line.len() < pat.len() {
        lemma_strip_no_esc(line);
    } else if line.subrange(0, pat.len() as int) == pat {
        let tail = line.skip(pat.len() as int);
        assert(no_esc(tail)) by {
            assert(forall|k: int|
                0 <= k < tail.len() ==> tail[k] == line[k + pat.len()] && tail[k] != 27u8);
        }
        lemma_strip_replace(tail, pat, c);
        let rep_tail = replace_all(tail, pat, painted);
        assert(no_esc(pat)) by {
            assert(forall|k: int| 0 <= k < pat.len() ==> pat[k] == line[k] && pat[k] != 27u8);
        }
        assert(painted + rep_tail =~= style_seq(c) + (pat + (reset_seq() + rep_tail)));
        lemma_strip_style(c, pat + (reset_seq() + rep_tail));
        lemma_strip_prefix_no_esc(pat, reset_seq() + rep_tail);
        lemma_strip_reset(rep_tail);
        assert(strip_rec(painted + rep_tail, false) == pat + strip_rec(rep_tail, false));
        assert(pat + tail =~= line);
    } else {
        let tail = line.skip(1);
        assert(no_esc(tail)) by {
            assert(forall|k: int| 0 <= k < tail.len() ==> tail[k] == line[k + 1] && tail[k] != 27u8);
        }
        lemma_strip_replace(tail, pat, c);
        let rep_tail = replace_all(tail, pat, painted);
        assert(replace_all(line, pat, painted) == seq![line[0]] + rep_tail);
        lemma_strip_prefix_no_esc(seq![line[0]], rep_tail);
        assert(seq![line[0]] + tail =~= line);
    }
}

/// The line-number prefix holds digits, spaces and a colon: no escape byte.
pub proof fn lemma_prefix_no_esc(n: nat)
    ensures
        no_esc(line_prefix(n)),
{
    lemma_digits_no_esc(n);
}

proof fn lemma_digits_no_esc(n: nat)
    ensures
        no_esc(dec_digits(n)),
        forall|k: int| 0 <= k < dec_digits(n).len() ==> 48 <= #[trigger] dec_digits(n)[k] <= 57,
    decreases n,
{
    if n >= 10 {
        lemma_digits_no_esc(n / 10);
    }
}

/// Law: stripping the color escape sequences from an output record and
/// removing the line-number prefix reproduces the source line exactly. The
/// law holds of every line without escape bytes of its own, whether the
/// record was rendered with the style-wrapped pattern (colors enabled) or
/// with the bare pattern (colors disabled).
pub proof fn lemma_round_trip(line: Seq<u8>, pat: Seq<u8>, c: Color, numbered: bool, n: nat)
    requires
        no_esc(line),
    ensures
        ({
            let pre: Seq<u8> = if numbered {
                line_prefix(n)
            } else {
                Seq::empty()
            };
            &&& strip_ansi(render_line(line, pat, style_seq(c) + pat + reset_seq(), numbered, n))
                == pre + line
            &&& strip_ansi(render_line(line, pat, pat, numbered, n)) == pre + line
            &&& strip_ansi(render_line(line, pat, style_seq(c) + pat + reset_seq(), numbered, n)).skip(
                pre.len() as int,
            ) == line
            &&& strip_ansi(render_line(line, pat, pat, numbered, n)).skip(pre.len() as int) == line
        }),
{
    let pre: Seq<u8> = if numbered {
        line_prefix(n)
    } else {
        Seq::empty()
    };
    assert(no_esc(pre)) by {
        if numbered {
            lemma_prefix_no_esc(n);
        }
    }
    let wrapped = replace_all(line, pat, style_seq(c) + pat + reset_seq());
    let plain = replace_all(line, pat, pat);
    lemma_strip_prefix_no_esc(pre, wrapped);
    lemma_strip_prefix_no_esc(pre, plain);
    lemma_strip_replace(line, pat, c);
    lemma_replace_self(line, pat);
    lemma_strip_no_esc(line);
    assert((pre + line).skip(pre.len() as int) =~= line);
}

/// Removes every escape run from `s` in one left-to-right pass.
pub fn strip_ansi_bytes(s: &Vec<u8>) -> (r: Vec<u8>)
    ensures
        r@ == strip_ansi(s@),
{
    let mut out: Vec<u8> = Vec::new();
    let mut in_esc = false;
    let n = s.len();
    let mut i: usize = 0;
    proof {
        assert(s@.skip(0) =~= s@);
        assert(Seq::<u8>::empty() + strip_rec(s@, false) =~= strip_rec(s@, false));
    }
    while i < n
        invariant
            n == s@.len(),
            i <= n,
            strip_ansi(s@) == out@ + strip_rec(s@.skip(i as int), in_esc),
        decreases n - i,
    {
        let ghost rest = s@.skip(i as int);
        proof {
            assert(rest.drop_first() =~= s@.skip(i + 1));
            assert(rest[0] == s@[i as int]);
        }
        let b = s[i];
        if in_esc {
            if b == 109 {
                in_esc = false;
            }
        } else if b == 27 {
            in_esc = true;
        } else {
            proof {
                assert(out@ + (seq![rest[0]] + strip_rec(rest.drop_first(), false)) =~= out@.push(
                    rest[0],
                ) + strip_rec(rest.drop_first(), false));
            }
            out.push(b);
        }
        i += 1;
    }
    proof {
        assert(s@.skip(n as int) =~= Seq::<u8>::empty());
        assert(out@ + strip_rec(Seq::<u8>::empty(), in_esc) =~= out@);
    }
    out
}

} // verus!
