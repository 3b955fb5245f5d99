//! Verified building blocks for the textual forms the pipeline emits:
//! decimal and hexadecimal digit strings, MAC and IP address text, and
//! cell fitting for the live table.

use vstd::prelude::*;

verus! {

/// The decimal digit character for a value below ten.
pub open spec fn digit_char(d: nat) -> char
    recommends
        d < 10,
{
    if d == 0 {
        '0'
    } else if d == 1 {
        '1'
    } else if d == 2 {
        '2'
    } else if d == 3 {
        '3'
    } else if d == 4 {
        '4'
    } else if d == 5 {
        '5'
    } else if d == 6 {
        '6'
    } else if d == 7 {
        '7'
    } else if d == 8 {
        '8'
    } else {
        '9'
    }
}

/// The decimal digit string of `n`, most significant digit first, with no
/// leading zeros (a single `'0'` for zero).
pub open spec fn dec_digits(n: nat) -> Seq<char>
    decreases n,
{
    if n < 10 {
        seq![digit_char(n)]
    } else {
        dec_digits(n / 10).push(digit_char(n % 10))
    }
}

/// The lowercase hexadecimal digit character for a value below sixteen.
pub open spec fn hex_char(d: nat) -> char
    recommends
        d < 16,
{
    if d < 10 {
        digit_char(d)
    } else if d == 10 {
        'a'
    } else if d == 11 {
        'b'
    } else if d == 12 {
        'c'
    } else if d == 13 {
        'd'
    } else if d == 14 {
        'e'
    } else {
        'f'
    }
}

/// The two lowercase hex digits of one byte.
pub open spec fn hex2(b: u8) -> Seq<char> {
    seq![hex_char(b as nat / 16), hex_char(b as nat % 16)]
}

/// The lowercase hexadecimal digit string of `n`, no leading zeros.
pub open spec fn hex_digits(n: nat) -> Seq<char>
    decreases n,
{
    if n < 16 {
        seq![hex_char(n)]
    } else {
        hex_digits(n / 16).push(hex_char(n % 16))
    }
}

/// `hex_digits(n)` left-padded with `'0'` to at least four characters.
pub open spec fn hex_min4(n: nat) -> Seq<char> {
    let h = hex_digits(n);
    if h.len() >= 4 {
        h
    } else {
        Seq::new((4 - h.len()) as nat, |i: int| '0') + h
    }
}

fn digit_str(d: u8) -> (r: &'static str)
    requires
        d < 10,
    ensures
        r@ == seq![digit_char(d as nat)],
{
    proof {
        reveal_strlit("0");
        reveal_strlit("1");
        reveal_strlit("2");
        reveal_strlit("3");
        reveal_strlit("4");
        reveal_strlit("5");
        reveal_strlit("6");
        reveal_strlit("7");
        reveal_strlit("8");
        reveal_strlit("9");
    }
    match d {
        0 => "0",
        1 => "1",
        2 => "2",
        3 => "3",
        4 => "4",
        5 => "5",
        6 => "6",
        7 => "7",
        8 => "8",
        _ => "9",
    }
}

fn hex_char_str(d: u8) -> (r: &'static str)
    requires
        d < 16,
    ensures
        r@ == seq![hex_char(d as nat)],
{
    if d < 10 {
        digit_str(d)
    } else {
        proof {
            reveal_strlit("a");
            reveal_strlit("b");
            reveal_strlit("c");
            reveal_strlit("d");
            reveal_strlit("e");
            reveal_strlit("f");
        }
        match d {
            10 => "a",
            11 => "b",
            12 => "c",
            13 => "d",
            14 => "e",
            _ => "f",
        }
    }
}

/// The decimal digit string of `n`.
pub fn u64_to_dec(n: u64) -> (r: String)
    ensures
        r@ == dec_digits(n as nat),
    decreases n,
{
    if n < 10 {
        digit_str(n as u8).to_owned()
    } else {
        let mut s = u64_to_dec(n / 10);
        s.append(digit_str((n % 10) as u8));
        s
    }
}

/// Appends the two lowercase hex digits of `b`.
pub fn push_hex2(s: &mut String, b: u8)
    ensures
        final(s)@ == old(s)@ + hex2(b),
{
    s.append(hex_char_str(b / 16));
    s.append(hex_char_str(b % 16));
}

/// The lowercase hexadecimal digit string of `n`.
pub fn usize_to_hex(n: usize) -> (r: String)
    ensures
        r@ == hex_digits(n as nat),
    decreases n,
{
    if n < 16 {
        hex_char_str(n as u8).to_owned()
    } else {
        let mut s = usize_to_hex(n / 16);
        s.append(hex_char_str((n % 16) as u8));
        s
    }
}

/// `n` in hex, zero-padded to at least four characters, as the hexdump
/// offset column shows it.
pub fn usize_to_hex_min4(n: usize) -> (r: String)
    ensures
        r@ == hex_min4(n as nat),
{
    let h = usize_to_hex(n);
    let len = h.as_str().unicode_len();
    if len >= 4 {
        h
    } else {
        proof {
            reveal_strlit("0000");
        }
        let pad = "0000".substring_ascii(0, 4 - len);
        let mut r = pad.to_owned();
        r.append(h.as_str());
        assert(pad@ =~= Seq::new((4 - h@.len()) as nat, |i: int| '0'));
        r
    }
}

/// Relies on std's `String::push`: appends exactly the one character.
#[verifier::external_body]
pub fn push_char(s: &mut String, c: char)
    ensures
        final(s)@ == old(s)@.push(c),
{
    s.push(c);
}

/// Whether `c` occurs in `s`.
pub open spec fn contains_char(s: Seq<char>, c: char) -> bool {
    exists|i: int| 0 <= i < s.len() && s[i] == c
}

/// Scans a string for a character; the IPv6 test on textual addresses.
pub fn str_contains_char(s: &str, c: char) -> (r: bool)
    ensures
        r == contains_char(s@, c),
{
    let len = s.unicode_len();
    let mut i: usize = 0;
    while i < len
        invariant
            i <= len,
            len == s@.len(),
            forall|j: int| 0 <= j < i ==> s@[j] != c,
        decreases len - i,
    {
        if s.get_char(i) == c {
            return true;
        }
        i = i + 1;
    }
    false
}

/// `s` unchanged when it fits in `width` characters; otherwise its first
/// `width - 1` characters with a trailing ellipsis (the ellipsis alone when
/// `width <= 1`).
pub open spec fn spec_fit_cell(s: Seq<char>, width: nat) -> Seq<char> {
    if s.len() <= width {
        s
    } else if width <= 1 {
        seq!['\u{2026}']
    } else {
        s.subrange(0, width - 1) + seq!['\u{2026}']
    }
}

/// Fits a table cell's text to a column width.
pub fn fit_cell(s: &str, width: usize) -> (r: String)
    ensures
        r@ == spec_fit_cell(s@, width as nat),
{
    proof {
        reveal_strlit("\u{2026}");
    }
    let len = s.unicode_len();
    if len <= width {
        s.to_owned()
    } else if width <= 1 {
        "\u{2026}".to_owned()
    } else {
        let t = s.substring_char(0, width - 1);
        let mut r = t.to_owned();
        r.append("\u{2026}");
        r
    }
}

} // verus!
