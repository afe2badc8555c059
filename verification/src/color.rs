use vstd::prelude::*;

verus! {

/// The closed set of highlight colors the tool recognizes.
#[derive(Clone, Copy, PartialEq, Eq, Structural, Debug)]
pub enum Color {
    Red,
    Green,
    Blue,
    Yellow,
    Magenta,
    Cyan,
    White,
}

/// The bytes of the color's command-line name.
pub open spec fn color_name_seq(c: Color) -> Seq<u8> {
    match c {
        Color::Red => seq![114, 101, 100],
        Color::Green => seq![103, 114, 101, 101, 110],
        Color::Blue => seq![98, 108, 117, 101],
        Color::Yellow => seq![121, 101, 108, 108, 111, 119],
        Color::Magenta => seq![109, 97, 103, 101, 110, 116, 97],
        Color::Cyan => seq![99, 121, 97, 110],
        Color::White => seq![119, 104, 105, 116, 101],
    }
}

/// The final byte of the ANSI foreground code for `c`; the code is the two
/// digits `3` and this one.
pub open spec fn fg_code_digit(c: Color) -> u8 {
    match c {
        Color::Red => 49,
        Color::Green => 50,
        Color::Yellow => 51,
        Color::Blue => 52,
        Color::Magenta => 53,
        Color::Cyan => 54,
        Color::White => 55,
    }
}

/// The terminal escape sequence that switches the foreground to `c`.
pub open spec fn style_seq(c: Color) -> Seq<u8> {
    seq![27u8, 91, 51, fg_code_digit(c), 109]
}

/// The terminal escape sequence that resets all styling.
pub open spec fn reset_seq() -> Seq<u8> {
    seq![27u8, 91, 48, 109]
}

/// The color whose name is `name`, if the name is recognized.
pub open spec fn spec_parse_color(name: Seq<u8>) -> Option<Color> {
    if name == color_name_seq(Color::Red) {
        Some(Color::Red)
    } else if name == color_name_seq(Color::Green) {
        Some(Color::Green)
    } else if name == color_name_seq(Color::Blue) {
        Some(Color::Blue)
    } else if name == color_name_seq(Color::Yellow) {
        Some(Color::Yellow)
    } else if name == color_name_seq(Color::Magenta) {
        Some(Color::Magenta)
    } else if name == color_name_seq(Color::Cyan) {
        Some(Color::Cyan)
    } else if name == color_name_seq(Color::White) {
        Some(Color::White)
    } else {
        None
    }
}

/// The command-line name of `c`, as bytes.
pub fn color_name(c: Color) -> (r: Vec<u8>)
    ensures
        r@ == color_name_seq(c),
{
    let mut out: Vec<u8> = Vec::new();
    match c {
        Color::Red => {
            out.push(114);
            out.push(101);
            out.push(100);
        },
        Color::Green => {
            out.push(103);
            out.push(114);
            out.push(101);
            out.push(101);
            out.push(110);
        },
        Color::Blue => {
            out.push(98);
            out.push(108);
            out.push(117);
            out.push(101);
        },
        Color::Yellow => {
            out.push(121);
            out.push(101);
            out.push(108);
            out.push(108);
            out.push(111);
            out.push(119);
        },
        Color::Magenta => {
            out.push(109);
            out.push(97);
            out.push(103);
            out.push(101);
            out.push(110);
            out.push(116);
            out.push(97);
        },
        Color::Cyan => {
            out.push(99);
            out.push(121);
            out.push(97);
            out.push(110);
        },
        Color::White => {
            out.push(119);
            out.push(104);
            out.push(105);
            out.push(116);
            out.push(101);
        },
    }
    proof {
        assert(out@ =~= color_name_seq(c));
    }
    out
}

/// Maps a color name to its color: exactly the seven recognized names parse.
pub fn parse_color(name: &Vec<u8>) -> (r: Option<Color>)
    ensures
        r == spec_parse_color(name@),
        r matches Some(c) ==> name@ == color_name_seq(c),
        r is None ==> forall|c: Color| name@ != color_name_seq(c),
{
    if crate::bytes::eq_bytes(name, &color_name(Color::Red)) {
        Some(Color::Red)
    } else if crate::bytes::eq_bytes(name, &color_name(Color::Green)) {
        Some(Color::Green)
    } else if crate::bytes::eq_bytes(name, &color_name(Color::Blue)) {
        Some(Color::Blue)
    } else if crate::bytes::eq_bytes(name, &color_name(Color::Yellow)) {
        Some(Color::Yellow)
    } else if crate::bytes::eq_bytes(name, &color_name(Color::Magenta)) {
        Some(Color::Magenta)
    } else if crate::bytes::eq_bytes(name, &color_name(Color::Cyan)) {
        Some(Color::Cyan)
    } else if crate::bytes::eq_bytes(name, &color_name(Color::White)) {
        Some(Color::White)
    } else {
        proof {
            assert forall|c: Color| name@ != color_name_seq(c) by {
                match c {
                    Color::Red => {},
                    Color::Green => {},
                    Color::Blue => {},
                    Color::Yellow => {},
                    Color::Magenta => {},
                    Color::Cyan => {},
                    Color::White => {},
                }
            }
        }
        None
    }
}

/// Relies on colored::Colorize::color and on ColoredString's Display
/// implementation: coloring the empty string with a plain foreground color
/// and printing it yields the color's style escape sequence followed by the
/// reset escape sequence when colors are enabled, and the empty string when
/// they are disabled.
#[verifier::external_body]
fn styled_empty(color: Color) -> (r: Vec<u8>)
    ensures
        r@ == Seq::<u8>::empty() || r@ == style_seq(color) + reset_seq(),
{
    let c = match color {
        Color::Red => colored::Color::Red,
        Color::Green => colored::Color::Green,
        Color::Blue => colored::Color::Blue,
        Color::Yellow => colored::Color::Yellow,
        Color::Magenta => colored::Color::Magenta,
        Color::Cyan => colored::Color::Cyan,
        Color::White => colored::Color::White,
    };
    colored::Colorize::color("", c).to_string().into_bytes()
}

/// The pattern as it will appear in the output: wrapped in the color's style
/// and reset sequences when the terminal colors are enabled, unchanged when
/// they are disabled.
pub fn painted_pattern(pattern: &Vec<u8>, color: Color) -> (r: Vec<u8>)
    ensures
        r@ == style_seq(color) + pattern@ + reset_seq() || r@ == pattern@,
{
    let styled = styled_empty(color);
    let mut out: Vec<u8> = Vec::new();
    if styled.len() == 0 {
        crate::bytes::push_all(&mut out, pattern);
        proof {
            assert(out@ =~= pattern@);
        }
        return out;
    }
    let mut k: usize = 0;
    while k < 5
        invariant
            styled@ == style_seq(color) + reset_seq(),
            k <= 5,
            out@ == styled@.take(k as int),
        decreases 5 - k,
    {
        out.push(styled[k]);
        proof {
            assert(styled@.take(k + 1) =~= styled@.take(k as int).push(styled@[k as int]));
        }
        k += 1;
    }
    proof {
        assert(styled@.take(5) =~= style_seq(color));
    }
    crate::bytes::push_all(&mut out, pattern);
    let mut k: usize = 5;
    while k < 9
        invariant
            styled@ == style_seq(color) + reset_seq(),
            5 <= k <= 9,
            out@ == style_seq(color) + pattern@ + styled@.subrange(5, k as int),
        decreases 9 - k,
    {
        out.push(styled[k]);
        proof {
            assert(styled@.subrange(5, k + 1) =~= styled@.subrange(5, k as int).push(
                styled@[k as int],
            ));
            assert((style_seq(color) + pattern@ + styled@.subrange(5, k as int)).push(
                styled@[k as int],
            ) =~= style_seq(color) + pattern@ + styled@.subrange(5, k + 1));
        }
        k += 1;
    }
    proof {
        assert(styled@.subrange(5, 9) =~= reset_seq());
    }
    out
}

} // verus!
