use vstd::prelude::*;

use crate::color::{style_seq, reset_seq, Color};
use crate::search::{contains_pat, replace_all, lemma_replace_self};

verus! {

/// The decimal digits of `n`, most significant first.
pub open spec fn dec_digits(n: nat) -> Seq<u8>
    decreases n,
{
    if n < 10 {
        seq![(48 + n) as u8]
    } else {
        dec_digits(n / 10) + seq![(48 + n % 10) as u8]
    }
}

/// The line-number prefix for 1-based line `n`: the decimal digits of `n`
/// right-aligned to a field of at least two characters, then a colon and a
/// space.
pub open spec fn line_prefix(n: nat) -> Seq<u8> {
    (if n < 10 {
        seq![32u8] + dec_digits(n)
    } else {
        dec_digits(n)
    }) + seq![58u8, 32u8]
}

/// Appends the decimal digits of `n` to `out`.
fn push_digits(n: usize, out: &mut Vec<u8>)
    ensures
        final(out)@ == old(out)@ + dec_digits(n as nat),
    decreases n,
{
    if n < 10 {
        out.push(48 + n as u8);
        proof {
            assert(old(out)@ + dec_digits(n as nat) =~= old(out)@.push((48 + n) as u8));
        }
    } else {
        assert(n / 10 < n && n / 10 >= 1) by (nonlinear_arith)
            requires
                n >= 10,
        ;
        push_digits(n / 10, out);
        out.push(48 + (n % 10) as u8);
        proof {
            assert(old(out)@ + dec_digits(n as nat) =~= (old(out)@ + dec_digits(
                (n / 10) as nat,
            )).push((48 + n % 10) as u8));
        }
    }
}

/// Builds the line-number prefix for 1-based line `n`.
pub fn line_number_prefix(n: usize) -> (r: Vec<u8>)
    ensures
        r@ == line_prefix(n as nat),
{
    let mut out: Vec<u8> = Vec::new();
    if n < 10 {
        out.push(32);
    }
    push_digits(n, &mut out);
    out.push(58);
    out.push(32);
    proof {
        assert(out@ =~= line_prefix(n as nat));
    }
    out
}

/// A single output record for the matching 1-based line `n`: the optional
/// line-number prefix, then the line with every occurrence of `pat` replaced
/// by `painted`.
pub open spec fn render_line(
    line: Seq<u8>,
    pat: Seq<u8>,
    painted: Seq<u8>,
    numbered: bool,
    n: nat,
) -> Seq<u8> {
    (if numbered {
        line_prefix(n)
    } else {
        Seq::<u8>::empty()
    }) + replace_all(line, pat, painted)
}

/// The output records produced by scanning the first `n` lines: one rendered
/// record per line that contains `pat`, in file order.
pub open spec fn outputs_upto(
    lines: Seq<Seq<u8>>,
    pat: Seq<u8>,
    painted: Seq<u8>,
    numbered: bool,
    n: int,
) -> Seq<Seq<u8>>
    decreases n,
{
    if n <= 0 {
        Seq::empty()
    } else {
        outputs_upto(lines, pat, painted, numbered, n - 1) + (if contains_pat(
            lines[n - 1],
            pat,
        ) {
            seq![render_line(lines[n - 1], pat, painted, numbered, n as nat)]
        } else {
            Seq::empty()
        })
    }
}

/// The output records produced by scanning all of `lines`.
pub open spec fn outputs(
    lines: Seq<Seq<u8>>,
    pat: Seq<u8>,
    painted: Seq<u8>,
    numbered: bool,
) -> Seq<Seq<u8>> {
    outputs_upto(lines, pat, painted, numbered, lines.len() as int)
}

/// Renders one matching line, given the painted form of the pattern.
pub fn render_match(
    line: &Vec<u8>,
    pattern: &Vec<u8>,
    painted: &Vec<u8>,
    numbered: bool,
    n: usize,
) -> (r: Vec<u8>)
    ensures
        r@ == render_line(line@, pattern@, painted@, numbered, n as nat),
{
    let mut out: Vec<u8> = if numbered {
        line_number_prefix(n)
    } else {
        Vec::new()
    };
    let body = crate::search::replace_bytes(line, pattern, painted);
    crate::bytes::push_all(&mut out, &body);
    out
}

/// Scans `lines` for `pattern`, given the painted form of the pattern, and
/// returns the rendered matching lines in file order.
pub fn find_matches_painted(
    lines: &Vec<Vec<u8>>,
    pattern: &Vec<u8>,
    painted: &Vec<u8>,
    line_number: bool,
) -> (r: Vec<Vec<u8>>)
    ensures
        r.deep_view() == outputs(lines.deep_view(), pattern@, painted@, line_number),
{
    let mut out: Vec<Vec<u8>> = Vec::new();
    let n = lines.len();
    let mut i: usize = 0;
    proof {
        assert(out.deep_view() =~= outputs_upto(
            lines.deep_view(),
            pattern@,
            painted@,
            line_number,
            0,
        ));
    }
    while i < n
        invariant
            n == lines@.len(),
            i <= n,
            out.deep_view() == outputs_upto(
                lines.deep_view(),
                pattern@,
                painted@,
                line_number,
                i as int,
            ),
        decreases n - i,
    {
        let ghost prev = out.deep_view();
        if crate::search::contains_bytes(&lines[i], pattern) {
            let row = render_match(&lines[i], pattern, painted, line_number, i + 1);
            proof {
                assert(lines.deep_view()[i as int] == lines@[i as int]@);
                assert(row.deep_view() =~= row@);
            }
            out.push(row);
            proof {
                assert(out.deep_view() =~= prev + seq![
                    render_line(
                        lines.deep_view()[i as int],
                        pattern@,
                        painted@,
                        line_number,
                        (i + 1) as nat,
                    ),
                ]);
            }
        } else {
            proof {
                assert(lines.deep_view()[i as int] == lines@[i as int]@);
                assert(out.deep_view() =~= prev + Seq::<Seq<u8>>::empty());
            }
        }
        i += 1;
    }
    out
}

/// Scans `lines` for `pattern` and returns the rendered matching lines in
/// file order, with the pattern highlighted in `color` wherever terminal
/// colors are enabled.
pub fn find_matches(
    lines: &Vec<Vec<u8>>,
    pattern: &Vec<u8>,
    color: Color,
    line_number: bool,
) -> (r: Vec<Vec<u8>>)
    ensures
        r.deep_view() == outputs(
            lines.deep_view(),
            pattern@,
            style_seq(color) + pattern@ + reset_seq(),
            line_number,
        ) || r.deep_view() == outputs(lines.deep_view(), pattern@, pattern@, line_number),
{
    let painted = crate::color::painted_pattern(pattern, color);
    find_matches_painted(lines, pattern, &painted, line_number)
}

/// Highlights every occurrence of `pattern` in `line` with `color`: each
/// occurrence is wrapped in the color's style and reset sequences when
/// terminal colors are enabled; the line comes back unchanged when they are
/// disabled.
pub fn colorize(line: &Vec<u8>, pattern: &Vec<u8>, color: Color) -> (r: Vec<u8>)
    ensures
        r@ == replace_all(line@, pattern@, style_seq(color) + pattern@ + reset_seq()) || r@
            == line@,
{
    let painted = crate::color::painted_pattern(pattern, color);
    let r = crate::search::replace_bytes(line, pattern, &painted);
    proof {
        if painted@ == pattern@ {
            lemma_replace_self(line@, pattern@);
        }
    }
    r
}

} // verus!
