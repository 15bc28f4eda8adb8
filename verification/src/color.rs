//! Colours and styles for terminal text: ANSI escape sequences around a
//! text, and RGB colours written as `#RRGGBB`.
use crate::text::{concat, push_char, string_of};
use vstd::prelude::*;

mod hex;
pub use hex::{
    bad_blue_message, bad_code_message, bad_green_message, bad_red_message, hex_value, is_hex_digit,
    lemma_rgb_text_round_trip, parse_hex_byte, rgb_parse, split_two_bytes,
};

verus! {

/// The escape sequence that ends every colour or style.
pub open spec fn reset_seq() -> Seq<char> {
    "\x1b[0m"@
}

/// The escape sequence `ESC [ code m`.
pub open spec fn sgr(code: Seq<char>) -> Seq<char> {
    "\x1b["@ + code + "m"@
}

/// The text `s` in the style with code `code`: `ESC [ code m`, the text, `ESC [ 0 m`.
pub open spec fn styled(code: Seq<char>, s: Seq<char>) -> Seq<char> {
    sgr(code) + s + reset_seq()
}

/// The decimal digits of `n`, without leading zeros (`0` for zero).
pub open spec fn decimal(n: nat) -> Seq<char>
    decreases n,
{
    if n < 10 {
        seq![digit_char(n)]
    } else {
        decimal(n / 10).push(digit_char(n % 10))
    }
}

/// The character of the decimal or hexadecimal digit `d` (upper-case letters).
pub open spec fn digit_char(d: nat) -> char {
    if d < 10 {
        (('0' as nat) + d) as char
    } else {
        (('A' as nat) + d - 10) as char
    }
}

/// The two upper-case hexadecimal digits of `n`.
pub open spec fn hex2(n: u8) -> Seq<char> {
    seq![digit_char((n / 16) as nat), digit_char((n % 16) as nat)]
}

/// The colour code of an RGB foreground (`prefix` 38) or background (48):
/// `prefix;2;red;green;blue`.
pub open spec fn rgb_code(prefix: Seq<char>, c: RGB) -> Seq<char> {
    prefix + ";2;"@ + decimal(c.red as nat) + ";"@ + decimal(c.green as nat) + ";"@ + decimal(c.blue as nat)
}

/// A colour given by its red, green and blue parts.
#[derive(Debug)]
pub struct RGB {
    pub red: u8,
    pub green: u8,
    pub blue: u8,
}

impl RGB {
    /// The colour with the parts `red`, `green` and `blue`.
    pub fn new(red: u8, green: u8, blue: u8) -> (r: RGB)
        ensures
            r.red == red,
            r.green == green,
            r.blue == blue,
    {
        RGB { red, green, blue }
    }

    /// The colour as `#RRGGBB`, in upper-case hexadecimal.
    pub fn to_string(&self) -> (r: String)
        ensures
            r@ == seq!['#'] + hex2(self.red) + hex2(self.green) + hex2(self.blue),
    {
        let mut r = string_of("#");
        push_hex2(&mut r, self.red);
        push_hex2(&mut r, self.green);
        push_hex2(&mut r, self.blue);
        proof {
            reveal_strlit("#");
        }
        r
    }
}

fn digit_to_char(d: u8) -> (r: char)
    requires
        d < 16,
    ensures
        r == digit_char(d as nat),
{
    if d < 10 {
        ((48u8 + d) as char)
    } else {
        ((55u8 + d) as char)
    }
}

fn push_hex2(s: &mut String, n: u8)
    ensures
        final(s)@ == old(s)@ + hex2(n),
{
    push_char(s, digit_to_char(n / 16));
    push_char(s, digit_to_char(n % 16));
}

/// The decimal digits of `n`.
pub fn decimal_string(n: u8) -> (r: String)
    ensures
        r@ == decimal(n as nat),
{
    let mut r = String::new();
    let ghost e = Seq::<char>::empty();
    if n >= 100 {
        push_char(&mut r, digit_to_char(n / 100));
        push_char(&mut r, digit_to_char((n / 10) % 10));
        push_char(&mut r, digit_to_char(n % 10));
        proof {
            let a = (n / 100) as nat;
            let b = (n / 10) as nat;
            assert(b / 10 == a);
            assert(decimal(a) == seq![digit_char(a)]);
            assert(decimal(b) == decimal(a).push(digit_char(b % 10)));
            assert(decimal(n as nat) == decimal(b).push(digit_char((n % 10) as nat)));
            assert(r@ =~= e.push(digit_char(a)).push(digit_char(b % 10)).push(digit_char((n % 10) as nat)));
        }
    } else if n >= 10 {
        push_char(&mut r, digit_to_char(n / 10));
        push_char(&mut r, digit_to_char(n % 10));
        proof {
            let b = (n / 10) as nat;
            assert(decimal(b) == seq![digit_char(b)]);
            assert(decimal(n as nat) == decimal(b).push(digit_char((n % 10) as nat)));
            assert(r@ =~= e.push(digit_char(b)).push(digit_char((n % 10) as nat)));
        }
    } else {
        push_char(&mut r, digit_to_char(n));
        assert(r@ =~= e.push(digit_char(n as nat)));
    }
    assert(r@ =~= decimal(n as nat));
    r
}

/// `open`, then `s`, then the reset sequence.
fn wrap(open: &str, s: &str) -> (r: String)
    ensures
        r@ == open@ + s@ + reset_seq(),
{
    let mut r = concat(open, s);
    r.append("\x1b[0m");
    r
}

/// `s` in the RGB colour `c`, as foreground (`prefix` "38") or background ("48").
fn wrap_rgb(prefix: &str, c: &RGB, s: &str) -> (r: String)
    ensures
        r@ == styled(rgb_code(prefix@, *c), s@),
{
    let mut r = string_of("\x1b[");
    r.append(prefix);
    r.append(";2;");
    let red = decimal_string(c.red);
    r.append(red.as_str());
    r.append(";");
    let green = decimal_string(c.green);
    r.append(green.as_str());
    r.append(";");
    let blue = decimal_string(c.blue);
    r.append(blue.as_str());
    r.append("m");
    r.append(s);
    r.append("\x1b[0m");
    assert(r@ =~= styled(rgb_code(prefix@, *c), s@));
    r
}

/// A text in a foreground colour.
pub trait Colorize {
    fn red(&self) -> String;

    fn yellow(&self) -> String;

    fn green(&self) -> String;

    fn cyan(&self) -> String;

    fn blue(&self) -> String;

    fn magenta(&self) -> String;

    fn rgb(&self, rgb: RGB) -> String;
}

impl Colorize for String {
    fn red(&self) -> (r: String)
        ensures
            r@ == "\x1b[31m"@ + self@ + reset_seq(),
    {
        wrap("\x1b[31m", self.as_str())
    }

    fn yellow(&self) -> (r: String)
        ensures
            r@ == "\x1b[33m"@ + self@ + reset_seq(),
    {
        wrap("\x1b[33m", self.as_str())
    }

    fn green(&self) -> (r: String)
        ensures
            r@ == "\x1b[32m"@ + self@ + reset_seq(),
    {
        wrap("\x1b[32m", self.as_str())
    }

    fn cyan(&self) -> (r: String)
        ensures
            r@ == "\x1b[36m"@ + self@ + reset_seq(),
    {
        wrap("\x1b[36m", self.as_str())
    }

    fn blue(&self) -> (r: String)
        ensures
            r@ == "\x1b[34m"@ + self@ + reset_seq(),
    {
        wrap("\x1b[34m", self.as_str())
    }

    fn magenta(&self) -> (r: String)
        ensures
            r@ == "\x1b[35m"@ + self@ + reset_seq(),
    {
        wrap("\x1b[35m", self.as_str())
    }

    fn rgb(&self, rgb: RGB) -> (r: String)
        ensures
            r@ == styled(rgb_code("38"@, rgb), self@),
    {
        wrap_rgb("38", &rgb, self.as_str())
    }
}

impl Colorize for &str {
    fn red(&self) -> (r: String)
        ensures
            r@ == "\x1b[31m"@ + self@ + reset_seq(),
    {
        wrap("\x1b[31m", *self)
    }

    fn yellow(&self) -> (r: String)
        ensures
            r@ == "\x1b[33m"@ + self@ + reset_seq(),
    {
        wrap("\x1b[33m", *self)
    }

    fn green(&self) -> (r: String)
        ensures
            r@ == "\x1b[32m"@ + self@ + reset_seq(),
    {
        wrap("\x1b[32m", *self)
    }

    fn cyan(&self) -> (r: String)
        ensures
            r@ == "\x1b[36m"@ + self@ + reset_seq(),
    {
        wrap("\x1b[36m", *self)
    }

    fn blue(&self) -> (r: String)
        ensures
            r@ == "\x1b[34m"@ + self@ + reset_seq(),
    {
        wrap("\x1b[34m", *self)
    }

    fn magenta(&self) -> (r: String)
        ensures
            r@ == "\x1b[35m"@ + self@ + reset_seq(),
    {
        wrap("\x1b[35m", *self)
    }

    fn rgb(&self, rgb: RGB) -> (r: String)
        ensures
            r@ == styled(rgb_code("38"@, rgb), self@),
    {
        wrap_rgb("38", &rgb, *self)
    }
}

/// A text on a background colour.
pub trait ColorizeBg {
    fn red_bg(&self) -> String;

    fn yellow_bg(&self) -> String;

    fn green_bg(&self) -> String;

    fn cyan_bg(&self) -> String;

    fn blue_bg(&self) -> String;

    fn magenta_bg(&self) -> String;

    fn rgb_bg(&self, rgb: RGB) -> String;
}

impl ColorizeBg for String {
    fn red_bg(&self) -> (r: String)
        ensures
            r@ == "\x1b[41m"@ + self@ + reset_seq(),
    {
        wrap("\x1b[41m", self.as_str())
    }

    fn yellow_bg(&self) -> (r: String)
        ensures
            r@ == "\x1b[43m"@ + self@ + reset_seq(),
    {
        wrap("\x1b[43m", self.as_str())
    }

    fn green_bg(&self) -> (r: String)
        ensures
            r@ == "\x1b[42m"@ + self@ + reset_seq(),
    {
        wrap("\x1b[42m", self.as_str())
    }

    fn cyan_bg(&self) -> (r: String)
        ensures
            r@ == "\x1b[46m"@ + self@ + reset_seq(),
    {
        wrap("\x1b[46m", self.as_str())
    }

    fn blue_bg(&self) -> (r: String)
        ensures
            r@ == "\x1b[44m"@ + self@ + reset_seq(),
    {
        wrap("\x1b[44m", self.as_str())
    }

    fn magenta_bg(&self) -> (r: String)
        ensures
            r@ == "\x1b[45m"@ + self@ + reset_seq(),
    {
        wrap("\x1b[45m", self.as_str())
    }

    fn rgb_bg(&self, rgb: RGB) -> (r: String)
        ensures
            r@ == styled(rgb_code("48"@, rgb), self@),
    {
        wrap_rgb("48", &rgb, self.as_str())
    }
}

impl ColorizeBg for &str {
    fn red_bg(&self) -> (r: String)
        ensures
            r@ == "\x1b[41m"@ + self@ + reset_seq(),
    {
        wrap("\x1b[41m", *self)
    }

    fn yellow_bg(&self) -> (r: String)
        ensures
            r@ == "\x1b[43m"@ + self@ + reset_seq(),
    {
        wrap("\x1b[43m", *self)
    }

    fn green_bg(&self) -> (r: String)
        ensures
            r@ == "\x1b[42m"@ + self@ + reset_seq(),
    {
        wrap("\x1b[42m", *self)
    }

    fn cyan_bg(&self) -> (r: String)
        ensures
            r@ == "\x1b[46m"@ + self@ + reset_seq(),
    {
        wrap("\x1b[46m", *self)
    }

    fn blue_bg(&self) -> (r: String)
        ensures
            r@ == "\x1b[44m"@ + self@ + reset_seq(),
    {
        wrap("\x1b[44m", *self)
    }

    fn magenta_bg(&self) -> (r: String)
        ensures
            r@ == "\x1b[45m"@ + self@ + reset_seq(),
    {
        wrap("\x1b[45m", *self)
    }

    fn rgb_bg(&self, rgb: RGB) -> (r: String)
        ensures
            r@ == styled(rgb_code("48"@, rgb), self@),
    {
        wrap_rgb("48", &rgb, *self)
    }
}

/// A text in bold, italic or underlined.
pub trait StyleModifier {
    fn bold(&self) -> String;

    fn italic(&self) -> String;

    fn underline(&self) -> String;
}

impl StyleModifier for String {
    fn bold(&self) -> (r: String)
        ensures
            r@ == "\x1b[1m"@ + self@ + reset_seq(),
    {
        wrap("\x1b[1m", self.as_str())
    }

    fn italic(&self) -> (r: String)
        ensures
            r@ == "\x1b[3m"@ + self@ + reset_seq(),
    {
        wrap("\x1b[3m", self.as_str())
    }

    fn underline(&self) -> (r: String)
        ensures
            r@ == "\x1b[4m"@ + self@ + reset_seq(),
    {
        wrap("\x1b[4m", self.as_str())
    }
}

impl StyleModifier for &str {
    fn bold(&self) -> (r: String)
        ensures
            r@ == "\x1b[1m"@ + self@ + reset_seq(),
    {
        wrap("\x1b[1m", *self)
    }

    fn italic(&self) -> (r: String)
        ensures
            r@ == "\x1b[3m"@ + self@ + reset_seq(),
    {
        wrap("\x1b[3m", *self)
    }

    fn underline(&self) -> (r: String)
        ensures
            r@ == "\x1b[4m"@ + self@ + reset_seq(),
    {
        wrap("\x1b[4m", *self)
    }
}

} // verus!
