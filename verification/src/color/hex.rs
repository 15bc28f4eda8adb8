//! Reading an RGB colour from its `#RRGGBB` form.
use super::{digit_char, hex2, RGB};
use crate::text::{chars_of, concat, push_char, utf8_len, utf8_len_within, utf8_width, utf8_width_of};
use vstd::prelude::*;

verus! {

/// The first two bytes of `t` as a text, and the rest; `None` where the
/// second byte boundary falls inside a character (slicing there panics).
pub open spec fn split_two_bytes(t: Seq<char>) -> Option<(Seq<char>, Seq<char>)> {
    if t.len() >= 1 && utf8_width(t[0]) == 2 {
        Some((t.take(1), t.skip(1)))
    } else if t.len() >= 2 && utf8_width(t[0]) == 1 && utf8_width(t[1]) == 1 {
        Some((t.take(2), t.skip(2)))
    } else {
        None
    }
}

/// Whether `c` is a hexadecimal digit, in either case.
pub open spec fn is_hex_digit(c: char) -> bool {
    ('0' <= c && c <= '9') || ('a' <= c && c <= 'f') || ('A' <= c && c <= 'F')
}

/// The value of the hexadecimal digit `c`.
pub open spec fn hex_value(c: char) -> nat {
    if '0' <= c && c <= '9' {
        ((c as u32) - ('0' as u32)) as nat
    } else if 'a' <= c && c <= 'f' {
        ((c as u32) - ('a' as u32) + 10) as nat
    } else {
        ((c as u32) - ('A' as u32) + 10) as nat
    }
}

/// What `u8::from_str_radix(p, 16)` gives for a text `p` of at most two
/// characters: an optional `+`, then one or two hexadecimal digits.
pub open spec fn parse_hex_byte(p: Seq<char>) -> Option<u8> {
    let d = if p.len() > 0 && p[0] == '+' {
        p.drop_first()
    } else {
        p
    };
    if d.len() == 1 && is_hex_digit(d[0]) {
        Some(hex_value(d[0]) as u8)
    } else if d.len() == 2 && is_hex_digit(d[0]) && is_hex_digit(d[1]) {
        Some((16 * hex_value(d[0]) + hex_value(d[1])) as u8)
    } else {
        None
    }
}

/// The message for a text that is not `#` followed by six bytes.
pub open spec fn bad_code_message(s: Seq<char>) -> Seq<char> {
    "無効なカラーコードです: "@ + s
}

/// The message for a red part that is not a hexadecimal byte.
pub open spec fn bad_red_message(p: Seq<char>) -> Seq<char> {
    "無効な赤色値です: "@ + p
}

/// The message for a green part that is not a hexadecimal byte.
pub open spec fn bad_green_message(p: Seq<char>) -> Seq<char> {
    "無効な緑色値です: "@ + p
}

/// The message for a blue part that is not a hexadecimal byte.
pub open spec fn bad_blue_message(p: Seq<char>) -> Seq<char> {
    "無効な青色値です: "@ + p
}

/// The outcome of reading `s` as `#RRGGBB`: the text must start with `#` and
/// be seven bytes long; the bytes 1..3, 3..5 and 5..7 are read in base 16 one
/// after the other, and the first that fails gives the error. `None` where a
/// slice that is taken cuts a character in two.
pub open spec fn rgb_parse(s: Seq<char>) -> Option<Result<RGB, Seq<char>>> {
    if !(s.len() > 0 && s[0] == '#' && utf8_len(s) == 7) {
        Some(Err(bad_code_message(s)))
    } else {
        match split_two_bytes(s.drop_first()) {
            None => None,
            Some((red_text, rest)) => match parse_hex_byte(red_text) {
                None => Some(Err(bad_red_message(red_text))),
                Some(red) => match split_two_bytes(rest) {
                    None => None,
                    Some((green_text, blue_text)) => match parse_hex_byte(green_text) {
                        None => Some(Err(bad_green_message(green_text))),
                        Some(green) => match parse_hex_byte(blue_text) {
                            None => Some(Err(bad_blue_message(blue_text))),
                            Some(blue) => Some(Ok(RGB { red, green, blue })),
                        },
                    },
                },
            },
        }
    }
}

proof fn lemma_hex2_reads_back(n: u8)
    ensures
        parse_hex_byte(hex2(n)) == Some(n),
        utf8_width(hex2(n)[0]) == 1,
        utf8_width(hex2(n)[1]) == 1,
        hex2(n).len() == 2,
{
    let hi = (n / 16) as nat;
    let lo = (n % 16) as nat;
    assert(hex_value(digit_char(hi)) == hi);
    assert(hex_value(digit_char(lo)) == lo);
    assert(16 * hi + lo == n);
}

/// Reading back what `RGB::to_string` writes gives the same colour.
pub proof fn lemma_rgb_text_round_trip(c: RGB)
    ensures
        rgb_parse(seq!['#'] + hex2(c.red) + hex2(c.green) + hex2(c.blue)) == Some(
            Ok::<RGB, Seq<char>>(c),
        ),
{
    let s = seq!['#'] + hex2(c.red) + hex2(c.green) + hex2(c.blue);
    lemma_hex2_reads_back(c.red);
    lemma_hex2_reads_back(c.green);
    lemma_hex2_reads_back(c.blue);
    assert(s.len() == 7);
    assert(s[0] == '#');
    assert(s[1] == hex2(c.red)[0] && s[2] == hex2(c.red)[1]);
    assert(s[3] == hex2(c.green)[0] && s[4] == hex2(c.green)[1]);
    assert(s[5] == hex2(c.blue)[0] && s[6] == hex2(c.blue)[1]);
    assert(utf8_len(s.take(1)) == 1) by {
        assert(s.take(1).drop_last() =~= Seq::<char>::empty());
        assert(utf8_len(Seq::<char>::empty()) == 0);
    }
    assert(utf8_len(s.take(2)) == 2) by {
        assert(s.take(2).drop_last() =~= s.take(1));
    }
    assert(utf8_len(s.take(3)) == 3) by {
        assert(s.take(3).drop_last() =~= s.take(2));
    }
    assert(utf8_len(s.take(4)) == 4) by {
        assert(s.take(4).drop_last() =~= s.take(3));
    }
    assert(utf8_len(s.take(5)) == 5) by {
        assert(s.take(5).drop_last() =~= s.take(4));
    }
    assert(utf8_len(s.take(6)) == 6) by {
        assert(s.take(6).drop_last() =~= s.take(5));
    }
    assert(utf8_len(s) == 7) by {
        assert(s.drop_last() =~= s.take(6));
    }
    let t = s.drop_first();
    assert(t.take(2) =~= hex2(c.red));
    assert(t.skip(2).take(2) =~= hex2(c.green));
    assert(t.skip(2).skip(2) =~= hex2(c.blue));
}

/// Where the first two bytes of `cs[start..]` end, as in `split_two_bytes`.
fn split_two_bytes_at(cs: &Vec<char>, start: usize) -> (r: Option<usize>)
    requires
        start <= cs.len(),
    ensures
        match split_two_bytes(cs@.subrange(start as int, cs.len() as int)) {
            None => r is None,
            Some(parts) => r matches Some(j) && start <= j <= cs.len() && parts.0 == cs@.subrange(
                start as int,
                j as int,
            ) && parts.1 == cs@.subrange(j as int, cs.len() as int),
        },
{
    let ghost t = cs@.subrange(start as int, cs.len() as int);
    if start < cs.len() && utf8_width_of(cs[start]) == 2 {
        assert(t.take(1) =~= cs@.subrange(start as int, start + 1));
        assert(t.skip(1) =~= cs@.subrange(start + 1, cs.len() as int));
        Some(start + 1)
    } else if cs.len() - start >= 2 && utf8_width_of(cs[start]) == 1 && utf8_width_of(cs[start + 1])
        == 1 {
        assert(t.take(2) =~= cs@.subrange(start as int, start + 2));
        assert(t.skip(2) =~= cs@.subrange(start + 2, cs.len() as int));
        Some(start + 2)
    } else {
        None
    }
}

fn is_hex_digit_char(c: char) -> (r: bool)
    ensures
        r == is_hex_digit(c),
{
    ('0' <= c && c <= '9') || ('a' <= c && c <= 'f') || ('A' <= c && c <= 'F')
}

fn hex_value_of(c: char) -> (r: u8)
    requires
        is_hex_digit(c),
    ensures
        r == hex_value(c),
        r < 16,
{
    let v = c as u32;
    if '0' <= c && c <= '9' {
        (v - 48) as u8
    } else if 'a' <= c && c <= 'f' {
        (v - 87) as u8
    } else {
        (v - 55) as u8
    }
}

/// `u8::from_str_radix` in base 16 on the text `cs[a..b]` of at most two characters.
fn hex_byte(cs: &Vec<char>, a: usize, b: usize) -> (r: Option<u8>)
    requires
        a <= b <= cs.len(),
    ensures
        r == parse_hex_byte(cs@.subrange(a as int, b as int)),
{
    let ghost p = cs@.subrange(a as int, b as int);
    let mut from = a;
    if a < b && cs[a] == '+' {
        from = a + 1;
        assert(p.drop_first() =~= cs@.subrange(from as int, b as int));
    } else {
        assert(p =~= cs@.subrange(from as int, b as int));
    }
    if b - from == 1 && is_hex_digit_char(cs[from]) {
        Some(hex_value_of(cs[from]))
    } else if b - from == 2 && is_hex_digit_char(cs[from]) && is_hex_digit_char(cs[from + 1]) {
        let hi = hex_value_of(cs[from]);
        let lo = hex_value_of(cs[from + 1]);
        Some(16 * hi + lo)
    } else {
        None
    }
}

/// The text `cs[a..b]`.
fn text_of(cs: &Vec<char>, a: usize, b: usize) -> (r: String)
    requires
        a <= b <= cs.len(),
    ensures
        r@ == cs@.subrange(a as int, b as int),
{
    let mut r = String::new();
    let mut i = a;
    while i < b
        invariant
            a <= i <= b,
            b <= cs.len(),
            r@ == cs@.subrange(a as int, i as int),
        decreases b - i,
    {
        push_char(&mut r, cs[i]);
        i = i + 1;
        assert(r@ =~= cs@.subrange(a as int, i as int));
    }
    r
}

impl RGB {
    /// Reads a colour written as `#RRGGBB` in hexadecimal, either case.
    /// A text that does not start with `#` or is not seven bytes long, and a
    /// part that is not a hexadecimal byte, give the message of `rgb_parse`.
    pub fn from_str(s: &str) -> (r: Result<RGB, String>)
        requires
            rgb_parse(s@) is Some,
        ensures
            match r {
                Ok(c) => rgb_parse(s@) == Some(Ok::<RGB, Seq<char>>(c)),
                Err(e) => rgb_parse(s@) == Some(Err::<RGB, Seq<char>>(e@)),
            },
    {
        let cs = chars_of(s);
        let n = cs.len();
        if !(n > 0 && cs[0] == '#' && utf8_len_within(&cs, 7) && !utf8_len_within(&cs, 6)) {
            return Err(concat("無効なカラーコードです: ", s));
        }
        assert(s@.drop_first() =~= cs@.subrange(1, n as int));
        let j = match split_two_bytes_at(&cs, 1) {
            Some(j) => j,
            None => vstd::pervasive::unreached(),
        };
        let red = match hex_byte(&cs, 1, j) {
            Some(v) => v,
            None => {
                let p = text_of(&cs, 1, j);
                return Err(concat("無効な赤色値です: ", p.as_str()));
            },
        };
        let k = match split_two_bytes_at(&cs, j) {
            Some(k) => k,
            None => vstd::pervasive::unreached(),
        };
        let green = match hex_byte(&cs, j, k) {
            Some(v) => v,
            None => {
                let p = text_of(&cs, j, k);
                return Err(concat("無効な緑色値です: ", p.as_str()));
            },
        };
        let blue = match hex_byte(&cs, k, n) {
            Some(v) => v,
            None => {
                let p = text_of(&cs, k, n);
                return Err(concat("無効な青色値です: ", p.as_str()));
            },
        };
        Ok(RGB { red, green, blue })
    }
}

} // verus!
