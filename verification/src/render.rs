//! Rendering of a line counter into a fixed-width text field.
//!
//! A counter is shown in decimal and aligned inside a minimum field width:
//! left-justified with trailing spaces, right-justified with leading spaces,
//! or right-justified with leading zeros. Values wider than the field are
//! never truncated.
use vstd::prelude::*;
use vstd::string::*;

verus! {

/// Alignment of the rendered counter inside its field.
#[derive(Clone, Copy, PartialEq, Eq, Structural, Debug)]
pub enum NumberFormat {
    LeftJustified,
    RightJustified,
    RightJustifiedZeroPadded,
}

/// The decimal digit character for a value below ten.
pub open spec fn digit_char(d: int) -> char {
    if d == 0 {
        '0'
    } else if d == 1 {
        '1'
    } else if d == 2 {
        '2'
    } else if d == 3 {
        '3'
    } else if d == 4 {
        '4'
    } else if d == 5 {
        '5'
    } else if d == 6 {
        '6'
    } else if d == 7 {
        '7'
    } else if d == 8 {
        '8'
    } else {
        '9'
    }
}

/// The decimal digit string of a non-negative value, most significant first.
pub open spec fn decimal_digits(n: int) -> Seq<char>
    decreases n,
{
    if n < 10 {
        seq![digit_char(n)]
    } else {
        decimal_digits(n / 10) + seq![digit_char(n % 10)]
    }
}

/// `n` copies of one character.
pub open spec fn repeat_char(c: char, n: int) -> Seq<char> {
    Seq::new(if n < 0 { 0 } else { n as nat }, |i: int| c)
}

/// A digit string aligned inside a field of at least `width` characters.
pub open spec fn pad_digits(digits: Seq<char>, width: int, format: NumberFormat) -> Seq<char> {
    if digits.len() >= width {
        digits
    } else {
        match format {
            NumberFormat::LeftJustified => digits + repeat_char(' ', width - digits.len()),
            NumberFormat::RightJustified => repeat_char(' ', width - digits.len()) + digits,
            NumberFormat::RightJustifiedZeroPadded => repeat_char('0', width - digits.len())
                + digits,
        }
    }
}

/// The full rendering of counter value `n` in the given width and alignment.
pub open spec fn rendered_number(n: int, width: int, format: NumberFormat) -> Seq<char> {
    pad_digits(decimal_digits(n), width, format)
}

fn append_digit(s: &mut String, d: u64)
    requires
        d < 10,
    ensures
        final(s)@ == old(s)@ + seq![digit_char(d as int)],
{
    if d == 0 {
        proof {
            reveal_strlit("0");
        }
        s.append("0");
    } else if d == 1 {
        proof {
            reveal_strlit("1");
        }
        s.append("1");
    } else if d == 2 {
        proof {
            reveal_strlit("2");
        }
        s.append("2");
    } else if d == 3 {
        proof {
            reveal_strlit("3");
        }
        s.append("3");
    } else if d == 4 {
        proof {
            reveal_strlit("4");
        }
        s.append("4");
    } else if d == 5 {
        proof {
            reveal_strlit("5");
        }
        s.append("5");
    } else if d == 6 {
        proof {
            reveal_strlit("6");
        }
        s.append("6");
    } else if d == 7 {
        proof {
            reveal_strlit("7");
        }
        s.append("7");
    } else if d == 8 {
        proof {
            reveal_strlit("8");
        }
        s.append("8");
    } else {
        proof {
            reveal_strlit("9");
        }
        s.append("9");
    }
    proof {
        assert(final(s)@ =~= old(s)@ + seq![digit_char(d as int)]);
    }
}

fn push_decimal(s: &mut String, n: u64)
    ensures
        final(s)@ == old(s)@ + decimal_digits(n as int),
    decreases n,
{
    if n < 10 {
        append_digit(s, n);
    } else {
        push_decimal(s, n / 10);
        append_digit(s, n % 10);
        proof {
            assert(final(s)@ =~= old(s)@ + decimal_digits(n as int));
        }
    }
}

fn push_repeated(s: &mut String, c: char, pad: &str, count: usize)
    requires
        pad@ == seq![c],
    ensures
        final(s)@ == old(s)@ + repeat_char(c, count as int),
{
    let mut i: usize = 0;
    while i < count
        invariant
            i <= count,
            pad@ == seq![c],
            s@ == old(s)@ + repeat_char(c, i as int),
        decreases count - i,
    {
        s.append(pad);
        i = i + 1;
        proof {
            assert(s@ =~= old(s)@ + repeat_char(c, i as int));
        }
    }
}

pub(crate) fn push_spaces(s: &mut String, count: usize)
    ensures
        final(s)@ == old(s)@ + repeat_char(' ', count as int),
{
    proof {
        reveal_strlit(" ");
        assert(" "@ =~= seq![' ']);
    }
    push_repeated(s, ' ', " ", count);
}

fn push_zeros(s: &mut String, count: usize)
    ensures
        final(s)@ == old(s)@ + repeat_char('0', count as int),
{
    proof {
        reveal_strlit("0");
        assert("0"@ =~= seq!['0']);
    }
    push_repeated(s, '0', "0", count);
}

/// Render counter value `n` into a field of at least `width` columns.
pub fn render_number(n: u64, width: usize, format: NumberFormat) -> (r: String)
    ensures
        r@ == rendered_number(n as int, width as int, format),
{
    let mut digits = String::new();
    push_decimal(&mut digits, n);
    let dlen = digits.as_str().unicode_len();
    if dlen >= width {
        digits
    } else {
        match format {
            NumberFormat::LeftJustified => {
                push_spaces(&mut digits, width - dlen);
                digits
            },
            NumberFormat::RightJustified => {
                let mut r = String::new();
                push_spaces(&mut r, width - dlen);
                r.append(digits.as_str());
                r
            },
            NumberFormat::RightJustifiedZeroPadded => {
                let mut r = String::new();
                push_zeros(&mut r, width - dlen);
                r.append(digits.as_str());
                r
            },
        }
    }
}

} // verus!
