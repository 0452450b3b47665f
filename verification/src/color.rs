use vstd::prelude::*;
use crate::text::push_char;

verus! {

/// A colour in 8-bit sRGB channels.
#[derive(Clone, Copy, PartialEq, Eq, Debug)]
pub struct Rgb8 {
    pub r: u8,
    pub g: u8,
    pub b: u8,
}

/// The lower-case hexadecimal digit of a value below 16.
pub open spec fn hex_digit(n: int) -> char {
    if n < 10 {
        (48 + n) as char
    } else {
        (87 + n) as char
    }
}

/// The two lower-case hexadecimal digits of a byte, high digit first.
pub open spec fn byte_hex(b: u8) -> Seq<char> {
    seq![hex_digit(b as int / 16), hex_digit(b as int % 16)]
}

/// `#rrggbb` in lower-case hexadecimal.
pub open spec fn color_hex_spec(c: Rgb8) -> Seq<char> {
    seq!['#'] + byte_hex(c.r) + byte_hex(c.g) + byte_hex(c.b)
}

fn digit(n: u8) -> (c: char)
    requires
        n < 16,
    ensures
        c == hex_digit(n as int),
{
    if n < 10 {
        (n + 48) as char
    } else {
        (n + 87) as char
    }
}

fn push_byte(s: &mut String, b: u8)
    ensures
        final(s)@ == old(s)@ + byte_hex(b),
{
    push_char(s, digit(b / 16));
    push_char(s, digit(b % 16));
}

impl Rgb8 {
    /// The colour as `#rrggbb`, two lower-case hex digits per channel.
    pub fn to_hex(&self) -> (s: String)
        ensures
            s@ == color_hex_spec(*self),
    {
        let mut s = String::new();
        push_char(&mut s, '#');
        push_byte(&mut s, self.r);
        push_byte(&mut s, self.g);
        push_byte(&mut s, self.b);
        s
    }
}

/// The digit spelled by `hex_digit` names the value back.
proof fn lemma_hex_digit_injective(x: int, y: int)
    requires
        0 <= x < 16,
        0 <= y < 16,
        hex_digit(x) == hex_digit(y),
    ensures
        x == y,
{
    assert((48 + x) as char as int == 48 + x);
    assert((48 + y) as char as int == 48 + y);
    assert((87 + x) as char as int == 87 + x);
    assert((87 + y) as char as int == 87 + y);
}

/// Two colours with the same `#rrggbb` spelling are the same colour:
/// the hex text that replaces a placeholder determines the colour.
pub proof fn lemma_color_hex_injective(a: Rgb8, b: Rgb8)
    requires
        color_hex_spec(a) == color_hex_spec(b),
    ensures
        a == b,
{
    let sa = color_hex_spec(a);
    let sb = color_hex_spec(b);
    assert(sa[1] == sb[1] && sa[2] == sb[2] && sa[3] == sb[3]);
    assert(sa[4] == sb[4] && sa[5] == sb[5] && sa[6] == sb[6]);
    lemma_hex_digit_injective(a.r as int / 16, b.r as int / 16);
    lemma_hex_digit_injective(a.r as int % 16, b.r as int % 16);
    lemma_hex_digit_injective(a.g as int / 16, b.g as int / 16);
    lemma_hex_digit_injective(a.g as int % 16, b.g as int % 16);
    lemma_hex_digit_injective(a.b as int / 16, b.b as int / 16);
    lemma_hex_digit_injective(a.b as int % 16, b.b as int % 16);
}

/// Every spelling is seven characters: `#` and six lower-case hex digits.
pub proof fn lemma_color_hex_shape(c: Rgb8)
    ensures
        color_hex_spec(c).len() == 7,
        color_hex_spec(c)[0] == '#',
        forall|i: int|
            1 <= i < 7 ==> {
                let d = #[trigger] color_hex_spec(c)[i];
                ('0' <= d <= '9') || ('a' <= d <= 'f')
            },
{
}

/// The value of a lower-case hexadecimal digit.
pub open spec fn digit_value(d: char) -> int {
    if '0' <= d <= '9' {
        d as int - 48
    } else {
        d as int - 87
    }
}

/// The spelling reads back as the colour: the digits after `#` give red,
/// green and blue, two digits each, high digit first.
pub proof fn lemma_color_hex_reads_back(c: Rgb8)
    ensures
        digit_value(color_hex_spec(c)[1]) * 16 + digit_value(color_hex_spec(c)[2]) == c.r,
        digit_value(color_hex_spec(c)[3]) * 16 + digit_value(color_hex_spec(c)[4]) == c.g,
        digit_value(color_hex_spec(c)[5]) * 16 + digit_value(color_hex_spec(c)[6]) == c.b,
{
    let s = color_hex_spec(c);
    assert forall|n: int| 0 <= n < 16 implies digit_value(#[trigger] hex_digit(n)) == n by {
        assert((48 + n) as char as int == 48 + n);
        assert((87 + n) as char as int == 87 + n);
    }
    assert(s[1] == hex_digit(c.r as int / 16) && s[2] == hex_digit(c.r as int % 16));
    assert(s[3] == hex_digit(c.g as int / 16) && s[4] == hex_digit(c.g as int % 16));
    assert(s[5] == hex_digit(c.b as int / 16) && s[6] == hex_digit(c.b as int % 16));
}

} // verus!
