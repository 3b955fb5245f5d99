//! The append-only inspection store: one self-describing text line per
//! captured packet, parsed back on lookup.
//!
//! A line holds the record's fields in a fixed order.  Numbers are decimal;
//! each embedded string is length-prefixed so its content never has to be
//! escaped; the payload bytes are hex-encoded, two digits per byte, which
//! round-trips them losslessly.

use vstd::prelude::*;
use crate::models::Packet;
use crate::text::{dec_digits, digit_char, hex2, hex_char, push_hex2, u64_to_dec};

verus! {

/// The persisted unit: one captured-and-accepted packet, keyed by the
/// 1-based sequence id its consumer assigned.
#[derive(Debug, Clone)]
pub struct InspectRecord {
    pub id: u64,
    pub iface: String,
    pub proto: String,
    /// Source address text, or "?" when the packet had no network layer.
    pub src_ip: String,
    pub dst_ip: String,
    pub size: usize,
    pub payload: Vec<u8>,
}

/// The mathematical image of a record: its numbers and the character and
/// byte sequences of its fields.
#[verifier::ext_equal]
pub struct RecordModel {
    pub id: u64,
    pub iface: Seq<char>,
    pub proto: Seq<char>,
    pub src_ip: Seq<char>,
    pub dst_ip: Seq<char>,
    pub size: usize,
    pub payload: Seq<u8>,
}

impl View for InspectRecord {
    type V = RecordModel;

    open spec fn view(&self) -> RecordModel {
        RecordModel {
            id: self.id,
            iface: self.iface@,
            proto: self.proto@,
            src_ip: self.src_ip@,
            dst_ip: self.dst_ip@,
            size: self.size,
            payload: self.payload@,
        }
    }
}

/// A length-prefixed string field: the character count in decimal, a
/// colon, then the characters themselves.
pub open spec fn lenstr(s: Seq<char>) -> Seq<char> {
    dec_digits(s.len()) + seq![':'] + s
}

/// The hex text of a byte sequence, two lowercase digits per byte.
pub open spec fn hex_bytes(p: Seq<u8>) -> Seq<char>
    decreases p.len(),
{
    if p.len() == 0 {
        Seq::empty()
    } else {
        hex_bytes(p.drop_last()) + hex2(p.last())
    }
}

/// The stored line for a record.
pub open spec fn spec_encode_record(m: RecordModel) -> Seq<char> {
    "id="@ + dec_digits(m.id as nat) + ";if="@ + lenstr(m.iface) + ";pr="@ + lenstr(m.proto)
        + ";src="@ + lenstr(m.src_ip) + ";dst="@ + lenstr(m.dst_ip) + ";sz="@ + dec_digits(
        m.size as nat,
    ) + ";pl="@ + hex_bytes(m.payload)
}

/// Appends the length-prefixed form of `t`.
fn push_lenstr(s: &mut String, t: &str)
    ensures
        final(s)@ == old(s)@ + lenstr(t@),
{
    proof {
        reveal_strlit(":");
    }
    let n = t.unicode_len();
    let d = u64_to_dec(n as u64);
    s.append(d.as_str());
    s.append(":");
    s.append(t);
}

/// Appends the hex text of every byte of `p`.
fn push_hex_bytes(s: &mut String, p: &Vec<u8>)
    ensures
        final(s)@ == old(s)@ + hex_bytes(p@),
{
    let mut i: usize = 0;
    while i < p.len()
        invariant
            i <= p@.len(),
            s@ == old(s)@ + hex_bytes(p@.subrange(0, i as int)),
        decreases p@.len() - i,
    {
        push_hex2(s, p[i]);
        proof {
            assert(p@.subrange(0, i + 1 as int).drop_last() =~= p@.subrange(0, i as int));
        }
        i = i + 1;
    }
    proof {
        assert(p@.subrange(0, p@.len() as int) =~= p@);
    }
}

/// A decimal digit character, by code point.
pub open spec fn is_dec_digit(c: char) -> bool {
    48 <= c as u32 && c as u32 <= 57
}

/// The value of a decimal digit character.
pub open spec fn dec_digit_val(c: char) -> nat
    recommends
        is_dec_digit(c),
{
    (c as u32 - 48) as nat
}

/// A lowercase hexadecimal digit character, by code point.
pub open spec fn is_hex_digit(c: char) -> bool {
    is_dec_digit(c) || (97 <= c as u32 && c as u32 <= 102)
}

/// The value of a lowercase hexadecimal digit character.
pub open spec fn hex_digit_val(c: char) -> nat
    recommends
        is_hex_digit(c),
{
    if is_dec_digit(c) {
        dec_digit_val(c)
    } else {
        (c as u32 - 97 + 10) as nat
    }
}

/// The first position at or past `i` that does not hold a decimal digit.
pub open spec fn digits_end(s: Seq<char>, i: int) -> int
    recommends
        0 <= i <= s.len(),
    decreases s.len() - i,
{
    if i < s.len() && is_dec_digit(s[i]) {
        digits_end(s, i + 1)
    } else {
        i
    }
}

/// The number the digit characters of `s[i..j)` spell.
pub open spec fn digits_value(s: Seq<char>, i: int, j: int) -> nat
    recommends
        0 <= i <= j <= s.len(),
    decreases j - i,
{
    if i < j {
        digits_value(s, i, j - 1) * 10 + dec_digit_val(s[j - 1])
    } else {
        0
    }
}

/// Reads a nonempty decimal number at `i`: its value and the position
/// after its digits.
pub open spec fn take_dec(s: Seq<char>, i: int) -> Option<(nat, int)> {
    let j = digits_end(s, i);
    if j == i {
        None
    } else {
        Some((digits_value(s, i, j), j))
    }
}

/// Matches the literal `lit` at `i`: the position after it.
pub open spec fn take_lit(s: Seq<char>, i: int, lit: Seq<char>) -> Option<int> {
    if 0 <= i && i + lit.len() <= s.len() && s.subrange(i, i + lit.len()) == lit {
        Some(i + lit.len())
    } else {
        None
    }
}

/// Reads a length-prefixed string at `i`: its characters and the position
/// after them.
pub open spec fn take_lenstr(s: Seq<char>, i: int) -> Option<(Seq<char>, int)> {
    match take_dec(s, i) {
        None => None,
        Some((n, j)) => match take_lit(s, j, ":"@) {
            None => None,
            Some(k) => if k + n <= s.len() {
                Some((s.subrange(k, k + n), k + n))
            } else {
                None
            },
        },
    }
}

/// Reads hex byte pairs from `i` to the end of the line.
pub open spec fn take_hex_run(s: Seq<char>, i: int) -> Option<Seq<u8>>
    recommends
        0 <= i <= s.len(),
    decreases s.len() - i,
{
    if i == s.len() {
        Some(Seq::empty())
    } else if i + 2 <= s.len() && is_hex_digit(s[i]) && is_hex_digit(s[i + 1]) {
        match take_hex_run(s, i + 2) {
            None => None,
            Some(rest) => Some(
                seq![(hex_digit_val(s[i]) * 16 + hex_digit_val(s[i + 1])) as u8] + rest,
            ),
        }
    } else {
        None
    }
}

/// Parses one stored line back into a record, or nothing when the line is
/// blank, damaged, or holds an out-of-range number.
pub open spec fn spec_parse_record(s: Seq<char>) -> Option<RecordModel> {
    match take_lit(s, 0, "id="@) {
        None => None,
        Some(i1) => match take_dec(s, i1) {
            None => None,
            Some((id, i2)) => if id > u64::MAX {
                None
            } else {
                match take_lit(s, i2, ";if="@) {
                    None => None,
                    Some(i3) => match take_lenstr(s, i3) {
                        None => None,
                        Some((iface, i4)) => match take_lit(s, i4, ";pr="@) {
                            None => None,
                            Some(i5) => match take_lenstr(s, i5) {
                                None => None,
                                Some((proto, i6)) => match take_lit(s, i6, ";src="@) {
                                    None => None,
                                    Some(i7) => match take_lenstr(s, i7) {
                                        None => None,
                                        Some((src_ip, i8)) => match take_lit(s, i8, ";dst="@) {
                                            None => None,
                                            Some(i9) => match take_lenstr(s, i9) {
                                                None => None,
                                                Some((dst_ip, i10)) => match take_lit(
                                                    s,
                                                    i10,
                                                    ";sz="@,
                                                ) {
                                                    None => None,
                                                    Some(i11) => match take_dec(s, i11) {
                                                        None => None,
                                                        Some((size, i12)) => if size
                                                            > usize::MAX {
                                                            None
                                                        } else {
                                                            match take_lit(s, i12, ";pl="@) {
                                                                None => None,
                                                                Some(i13) => match take_hex_run(
                                                                    s,
                                                                    i13,
                                                                ) {
                                                                    None => None,
                                                                    Some(payload) => Some(
                                                                        RecordModel {
                                                                            id: id as u64,
                                                                            iface,
                                                                            proto,
                                                                            src_ip,
                                                                            dst_ip,
                                                                            size: size as usize,
                                                                            payload,
                                                                        },
                                                                    ),
                                                                },
                                                            }
                                                        },
                                                    },
                                                },
                                            },
                                        },
                                    },
                                },
                            },
                        },
                    },
                }
            },
        },
    }
}

proof fn lemma_digits_end_of_run(s: Seq<char>, i: int, j: int)
    requires
        0 <= i <= j <= s.len(),
        forall|k: int| i <= k < j ==> is_dec_digit(s[k]),
        j == s.len() || !is_dec_digit(s[j]),
    ensures
        digits_end(s, i) == j,
    decreases j - i,
{
    if i < j {
        lemma_digits_end_of_run(s, i + 1, j);
    }
}

fn dec_digit_of(c: char) -> (r: Option<u8>)
    ensures
        r is Some <==> is_dec_digit(c),
        r matches Some(d) ==> d as nat == dec_digit_val(c) && d < 10,
{
    let u = c as u32;
    if 48 <= u && u <= 57 {
        Some((u - 48) as u8)
    } else {
        None
    }
}

fn hex_digit_of(c: char) -> (r: Option<u8>)
    ensures
        r is Some <==> is_hex_digit(c),
        r matches Some(d) ==> d as nat == hex_digit_val(c) && d < 16,
{
    let u = c as u32;
    if 48 <= u && u <= 57 {
        Some((u - 48) as u8)
    } else if 97 <= u && u <= 102 {
        Some((u - 97 + 10) as u8)
    } else {
        None
    }
}

fn expect_lit(s: &str, i: usize, lit: &str) -> (r: Option<usize>)
    requires
        i <= s@.len(),
    ensures
        r matches Some(j) ==> take_lit(s@, i as int, lit@) == Some(j as int) && i <= j <= s@.len(),
        r is None ==> take_lit(s@, i as int, lit@) is None,
{
    let len = s.unicode_len();
    let llen = lit.unicode_len();
    if llen > len - i {
        return None;
    }
    let mut k: usize = 0;
    while k < llen
        invariant
            k <= llen,
            i + llen <= len,
            len == s@.len(),
            llen == lit@.len(),
            forall|m: int| 0 <= m < k ==> s@[i + m] == lit@[m],
        decreases llen - k,
    {
        if s.get_char(i + k) != lit.get_char(k) {
            proof {
                let sub = s@.subrange(i as int, i + lit@.len());
                assert(sub[k as int] == s@[i + k]);
                assert(sub != lit@);
            }
            return None;
        }
        k = k + 1;
    }
    proof {
        assert(s@.subrange(i as int, i + lit@.len()) =~= lit@);
    }
    Some(i + llen)
}

fn parse_dec_u64(s: &str, i: usize) -> (r: Option<(u64, usize)>)
    requires
        i <= s@.len(),
    ensures
        r matches Some(p) ==> take_dec(s@, i as int) == Some((p.0 as nat, p.1 as int)) && i
            <= p.1 <= s@.len(),
        r is None ==> take_dec(s@, i as int) is None || (take_dec(s@, i as int) matches Some(p)
            && p.0 > u64::MAX),
{
    let len = s.unicode_len();
    let mut j: usize = i;
    let mut v: u64 = 0;
    let mut ok: bool = true;
    while j < len
        invariant_except_break
            i <= j <= len,
            len == s@.len(),
            forall|k: int| i <= k < j ==> is_dec_digit(s@[k]),
            ok ==> v as nat == digits_value(s@, i as int, j as int),
            !ok ==> digits_value(s@, i as int, j as int) > u64::MAX,
        ensures
            i <= j <= len,
            forall|k: int| i <= k < j ==> is_dec_digit(s@[k]),
            j == len || !is_dec_digit(s@[j as int]),
            ok ==> v as nat == digits_value(s@, i as int, j as int),
            !ok ==> digits_value(s@, i as int, j as int) > u64::MAX,
        decreases len - j,
    {
        let c = s.get_char(j);
        match dec_digit_of(c) {
            None => {
                break;
            },
            Some(d) => {
                if ok {
                    if v <= (u64::MAX - d as u64) / 10 {
                        proof {
                            assert(v * 10 + d <= u64::MAX) by (nonlinear_arith)
                                requires
                                    v <= (u64::MAX - d as u64) / 10,
                                    d < 10,
                            ;
                        }
                        v = v * 10 + d as u64;
                    } else {
                        proof {
                            assert(v * 10 + d > u64::MAX) by (nonlinear_arith)
                                requires
                                    v > (u64::MAX - d as u64) / 10,
                                    d < 10,
                            ;
                        }
                        ok = false;
                    }
                } else {
                    proof {
                        assert(digits_value(s@, i as int, j as int) * 10 + dec_digit_val(s@[j as int])
                            > u64::MAX) by (nonlinear_arith)
                            requires
                                digits_value(s@, i as int, j as int) > u64::MAX,
                        ;
                    }
                }
                j = j + 1;
            },
        }
    }
    proof {
        lemma_digits_end_of_run(s@, i as int, j as int);
    }
    if j == i {
        None
    } else if ok {
        Some((v, j))
    } else {
        None
    }
}

fn parse_lenstr_field(s: &str, i: usize) -> (r: Option<(String, usize)>)
    requires
        i <= s@.len(),
    ensures
        r matches Some(p) ==> take_lenstr(s@, i as int) == Some((p.0@, p.1 as int)) && i
            <= p.1 <= s@.len(),
        r is None ==> take_lenstr(s@, i as int) is None,
{
    let len = s.unicode_len();
    match parse_dec_u64(s, i) {
        None => {
            proof {
                if take_dec(s@, i as int) matches Some(p) {
                    // the length overflowed u64, so it cannot fit in what is
                    // left of the line either
                    assert(take_lenstr(s@, i as int) is None);
                }
            }
            None
        },
        Some((n, j)) => {
            match expect_lit(s, j, ":") {
                None => None,
                Some(k) => {
                    if n <= (len - k) as u64 {
                        let nn = n as usize;
                        let t = s.substring_char(k, k + nn);
                        Some((t.to_owned(), k + nn))
                    } else {
                        None
                    }
                },
            }
        },
    }
}

fn parse_hex_tail(s: &str, i: usize) -> (r: Option<Vec<u8>>)
    requires
        i <= s@.len(),
    ensures
        r matches Some(v) ==> take_hex_run(s@, i as int) == Some(v@),
        r is None ==> take_hex_run(s@, i as int) is None,
{
    let len = s.unicode_len();
    let mut j: usize = i;
    let mut out: Vec<u8> = Vec::new();
    while j < len
        invariant
            i <= j <= len,
            len == s@.len(),
            match take_hex_run(s@, j as int) {
                Some(rest) => take_hex_run(s@, i as int) == Some(out@ + rest),
                None => take_hex_run(s@, i as int) is None,
            },
        decreases len - j,
    {
        if j + 1 >= len {
            return None;
        }
        let d1 = match hex_digit_of(s.get_char(j)) {
            Some(d) => d,
            None => {
                return None;
            },
        };
        let d2 = match hex_digit_of(s.get_char(j + 1)) {
            Some(d) => d,
            None => {
                return None;
            },
        };
        let b = d1 * 16 + d2;
        proof {
            let rest_new = take_hex_run(s@, j + 2);
            if rest_new is Some {
                let rn = rest_new->0;
                assert(out@ + (seq![b] + rn) =~= out@.push(b) + rn);
            }
        }
        out.push(b);
        j = j + 2;
    }
    proof {
        assert(out@ + Seq::<u8>::empty() =~= out@);
    }
    Some(out)
}

proof fn lemma_digit_char_val(d: nat)
    requires
        d < 10,
    ensures
        is_dec_digit(digit_char(d)),
        dec_digit_val(digit_char(d)) == d,
{
}

proof fn lemma_hex_char_val(d: nat)
    requires
        d < 16,
    ensures
        is_hex_digit(hex_char(d)),
        hex_digit_val(hex_char(d)) == d,
{
    if d < 10 {
        lemma_digit_char_val(d);
    }
}

proof fn lemma_dec_digits_are_digits(n: nat)
    ensures
        dec_digits(n).len() >= 1,
        forall|k: int| 0 <= k < dec_digits(n).len() ==> is_dec_digit(#[trigger] dec_digits(n)[k]),
    decreases n,
{
    if n < 10 {
        lemma_digit_char_val(n);
    } else {
        lemma_dec_digits_are_digits(n / 10);
        lemma_digit_char_val(n % 10);
    }
}

proof fn lemma_dec_digits_value(n: nat, s: Seq<char>, i: int)
    requires
        0 <= i,
        i + dec_digits(n).len() <= s.len(),
        s.subrange(i, i + dec_digits(n).len()) == dec_digits(n),
    ensures
        digits_value(s, i, i + dec_digits(n).len()) == n,
    decreases n,
{
    let l = dec_digits(n).len() as int;
    if n < 10 {
        assert(s.subrange(i, i + l)[0] == s[i]);
        assert(s[i] == digit_char(n));
        lemma_digit_char_val(n);
        assert(digits_value(s, i, i + 1) == digits_value(s, i, i) * 10 + dec_digit_val(s[i]));
    } else {
        assert(dec_digits(n) == dec_digits(n / 10).push(digit_char(n % 10)));
        assert(s.subrange(i, i + l - 1) =~= dec_digits(n / 10)) by {
            assert(forall|k: int| 0 <= k < l ==> #[trigger] s.subrange(i, i + l)[k] == s[i + k]);
        }
        lemma_dec_digits_value(n / 10, s, i);
        assert(s.subrange(i, i + l)[l - 1] == s[i + l - 1]);
        assert(s[i + l - 1] == digit_char(n % 10));
        lemma_digit_char_val(n % 10);
        assert(digits_value(s, i, i + l) == digits_value(s, i, i + l - 1) * 10 + dec_digit_val(
            s[i + l - 1],
        ));
        assert(digits_value(s, i, i + l - 1) == n / 10);
        assert(n == (n / 10) * 10 + n % 10);
    }
}

proof fn lemma_take_dec_at(n: nat, pre: Seq<char>, rest: Seq<char>)
    requires
        rest.len() == 0 || !is_dec_digit(rest[0]),
    ensures
        take_dec(pre + dec_digits(n) + rest, pre.len() as int) == Some(
            (n, pre.len() + dec_digits(n).len() as int),
        ),
{
    let s = pre + dec_digits(n) + rest;
    let i = pre.len() as int;
    let j = i + dec_digits(n).len();
    lemma_dec_digits_are_digits(n);
    assert(forall|k: int| i <= k < j ==> s[k] == dec_digits(n)[k - i]);
    lemma_digits_end_of_run(s, i, j);
    assert(s.subrange(i, j) =~= dec_digits(n));
    lemma_dec_digits_value(n, s, i);
}

proof fn lemma_take_lit_at(pre: Seq<char>, lit: Seq<char>, rest: Seq<char>)
    ensures
        take_lit(pre + lit + rest, pre.len() as int, lit) == Some(pre.len() + lit.len() as int),
{
    let s = pre + lit + rest;
    assert(s.subrange(pre.len() as int, pre.len() + lit.len() as int) =~= lit);
}

proof fn lemma_take_lenstr_at(t: Seq<char>, pre: Seq<char>, rest: Seq<char>)
    ensures
        take_lenstr(pre + lenstr(t) + rest, pre.len() as int) == Some(
            (t, pre.len() + lenstr(t).len() as int),
        ),
{
    let s = pre + lenstr(t) + rest;
    let i = pre.len() as int;
    let rest1 = seq![':'] + t + rest;
    assert(s =~= pre + dec_digits(t.len()) + rest1);
    assert(!is_dec_digit(rest1[0]));
    lemma_take_dec_at(t.len(), pre, rest1);
    let j = i + dec_digits(t.len()).len();
    let pre2 = pre + dec_digits(t.len());
    let rest2 = t + rest;
    assert(s =~= pre2 + ":"@ + rest2) by {
        reveal_strlit(":");
        assert(":"@ =~= seq![':']);
    }
    lemma_take_lit_at(pre2, ":"@, rest2);
    reveal_strlit(":");
    let k = j + 1;
    assert(k == pre2.len() + ":"@.len());
    assert(k + t.len() <= s.len());
    assert(s.subrange(k, k + t.len()) =~= t);
    assert(lenstr(t).len() == dec_digits(t.len()).len() + 1 + t.len());
}

proof fn lemma_hex_bytes_head(p: Seq<u8>)
    requires
        p.len() > 0,
    ensures
        hex_bytes(p) == hex2(p[0]) + hex_bytes(p.drop_first()),
    decreases p.len(),
{
    if p.len() == 1 {
        assert(p.drop_last() =~= Seq::<u8>::empty());
        assert(p.drop_first() =~= Seq::<u8>::empty());
        assert(hex_bytes(p) =~= hex2(p[0]) + hex_bytes(p.drop_first()));
    } else {
        lemma_hex_bytes_head(p.drop_last());
        assert(p.drop_last()[0] == p[0]);
        assert(p.drop_last().drop_first() =~= p.drop_first().drop_last());
        assert(p.drop_first().last() == p.last());
        assert(hex_bytes(p.drop_first()) == hex_bytes(p.drop_first().drop_last()) + hex2(
            p.drop_first().last(),
        ));
        assert(hex_bytes(p) =~= hex2(p[0]) + hex_bytes(p.drop_first()));
    }
}

proof fn lemma_take_hex_run_at(p: Seq<u8>, pre: Seq<char>)
    ensures
        take_hex_run(pre + hex_bytes(p), pre.len() as int) == Some(p),
    decreases p.len(),
{
    let s = pre + hex_bytes(p);
    let i = pre.len() as int;
    if p.len() == 0 {
        assert(s =~= pre);
        assert(i == s.len());
    } else {
        lemma_hex_bytes_head(p);
        let b = p[0];
        lemma_hex_char_val(b as nat / 16);
        lemma_hex_char_val(b as nat % 16);
        assert(s[i] == hex2(b)[0]);
        assert(s[i + 1] == hex2(b)[1]);
        let pre2 = pre + hex2(b);
        assert(s =~= pre2 + hex_bytes(p.drop_first()));
        lemma_take_hex_run_at(p.drop_first(), pre2);
        assert(i + 2 == pre2.len());
        assert((hex_digit_val(s[i]) * 16 + hex_digit_val(s[i + 1])) as u8 == b);
        assert(seq![b] + p.drop_first() =~= p);
    }
}

proof fn lemma_seq_assoc(a: Seq<char>, b: Seq<char>, c: Seq<char>)
    ensures
        (a + b) + c == a + (b + c),
{
    assert((a + b) + c =~= a + (b + c));
}

/// Round trip: parsing the stored line of any record yields that record,
/// field for field, payload byte for payload byte.
#[verifier::rlimit(100)]
pub proof fn lemma_parse_encode_record(m: RecordModel)
    ensures
        spec_parse_record(spec_encode_record(m)) == Some(m),
{
    let s = spec_encode_record(m);
    let a = dec_digits(m.id as nat);
    let b = lenstr(m.iface);
    let c = lenstr(m.proto);
    let d = lenstr(m.src_ip);
    let e = lenstr(m.dst_ip);
    let f = dec_digits(m.size as nat);
    let g = hex_bytes(m.payload);
    let l1 = "id="@;
    let l2 = ";if="@;
    let l3 = ";pr="@;
    let l4 = ";src="@;
    let l5 = ";dst="@;
    let l6 = ";sz="@;
    let l7 = ";pl="@;
    reveal_strlit("id=");
    reveal_strlit(";if=");
    reveal_strlit(";pr=");
    reveal_strlit(";src=");
    reveal_strlit(";dst=");
    reveal_strlit(";sz=");
    reveal_strlit(";pl=");

    // the left-associated prefixes of the line, one per component
    let u1 = l1;
    let u2 = u1 + a;
    let u3 = u2 + l2;
    let u4 = u3 + b;
    let u5 = u4 + l3;
    let u6 = u5 + c;
    let u7 = u6 + l4;
    let u8 = u7 + d;
    let u9 = u8 + l5;
    let u10 = u9 + e;
    let u11 = u10 + l6;
    let u12 = u11 + f;
    let u13 = u12 + l7;

    // the right-associated suffixes, one per component
    let t13 = l7 + g;
    let t12 = f + t13;
    let t11 = l6 + t12;
    let t10 = e + t11;
    let t9 = l5 + t10;
    let t8 = d + t9;
    let t7 = l4 + t8;
    let t6 = c + t7;
    let t5 = l3 + t6;
    let t4 = b + t5;
    let t3 = l2 + t4;
    let t2 = a + t3;

    // rewrite the line from fully left-associated to each split point
    assert(s == u13 + g);
    lemma_seq_assoc(u12, l7, g);
    assert(s == u12 + t13);
    lemma_seq_assoc(u11, f, t13);
    assert(s == u11 + t12);
    lemma_seq_assoc(u10, l6, t12);
    assert(s == u10 + t11);
    lemma_seq_assoc(u9, e, t11);
    assert(s == u9 + t10);
    lemma_seq_assoc(u8, l5, t10);
    assert(s == u8 + t9);
    lemma_seq_assoc(u7, d, t9);
    assert(s == u7 + t8);
    lemma_seq_assoc(u6, l4, t8);
    assert(s == u6 + t7);
    lemma_seq_assoc(u5, c, t7);
    assert(s == u5 + t6);
    lemma_seq_assoc(u4, l3, t6);
    assert(s == u4 + t5);
    lemma_seq_assoc(u3, b, t5);
    assert(s == u3 + t4);
    lemma_seq_assoc(u2, l2, t4);
    assert(s == u2 + t3);
    lemma_seq_assoc(u1, a, t3);
    assert(s == u1 + t2);

    // id=
    assert(s == Seq::<char>::empty() + l1 + t2) by {
        assert(Seq::<char>::empty() + l1 =~= l1);
    }
    lemma_take_lit_at(Seq::<char>::empty(), l1, t2);
    let i1 = l1.len() as int;
    assert(take_lit(s, 0, l1) == Some(i1));

    // the id digits, ended by the ';' of ";if="
    assert(s == u1 + a + t3) by {
        lemma_seq_assoc(u1, a, t3);
    }
    assert(t3[0] == ';');
    lemma_take_dec_at(m.id as nat, u1, t3);
    let i2 = i1 + a.len() as int;
    assert(take_dec(s, i1) == Some((m.id as nat, i2)));

    // ;if= and the interface field
    assert(s == u2 + l2 + t4) by {
        lemma_seq_assoc(u2, l2, t4);
    }
    lemma_take_lit_at(u2, l2, t4);
    let i3 = i2 + l2.len() as int;
    assert(take_lit(s, i2, l2) == Some(i3));

    assert(s == u3 + b + t5) by {
        lemma_seq_assoc(u3, b, t5);
    }
    lemma_take_lenstr_at(m.iface, u3, t5);
    let i4 = i3 + b.len() as int;
    assert(take_lenstr(s, i3) == Some((m.iface, i4)));

    // ;pr= and the label field
    assert(s == u4 + l3 + t6) by {
        lemma_seq_assoc(u4, l3, t6);
    }
    lemma_take_lit_at(u4, l3, t6);
    let i5 = i4 + l3.len() as int;
    assert(take_lit(s, i4, l3) == Some(i5));

    assert(s == u5 + c + t7) by {
        lemma_seq_assoc(u5, c, t7);
    }
    lemma_take_lenstr_at(m.proto, u5, t7);
    let i6 = i5 + c.len() as int;
    assert(take_lenstr(s, i5) == Some((m.proto, i6)));

    // ;src= and the source address
    assert(s == u6 + l4 + t8) by {
        lemma_seq_assoc(u6, l4, t8);
    }
    lemma_take_lit_at(u6, l4, t8);
    let i7 = i6 + l4.len() as int;
    assert(take_lit(s, i6, l4) == Some(i7));

    assert(s == u7 + d + t9) by {
        lemma_seq_assoc(u7, d, t9);
    }
    lemma_take_lenstr_at(m.src_ip, u7, t9);
    let i8 = i7 + d.len() as int;
    assert(take_lenstr(s, i7) == Some((m.src_ip, i8)));

    // ;dst= and the destination address
    assert(s == u8 + l5 + t10) by {
        lemma_seq_assoc(u8, l5, t10);
    }
    lemma_take_lit_at(u8, l5, t10);
    let i9 = i8 + l5.len() as int;
    assert(take_lit(s, i8, l5) == Some(i9));

    assert(s == u9 + e + t11) by {
        lemma_seq_assoc(u9, e, t11);
    }
    lemma_take_lenstr_at(m.dst_ip, u9, t11);
    let i10 = i9 + e.len() as int;
    assert(take_lenstr(s, i9) == Some((m.dst_ip, i10)));

    // ;sz= and the size
    assert(s == u10 + l6 + t12) by {
        lemma_seq_assoc(u10, l6, t12);
    }
    lemma_take_lit_at(u10, l6, t12);
    let i11 = i10 + l6.len() as int;
    assert(take_lit(s, i10, l6) == Some(i11));

    assert(s == u11 + f + t13) by {
        lemma_seq_assoc(u11, f, t13);
    }
    assert(t13[0] == ';');
    lemma_take_dec_at(m.size as nat, u11, t13);
    let i12 = i11 + f.len() as int;
    assert(take_dec(s, i11) == Some((m.size as nat, i12)));

    // ;pl= and the payload bytes
    assert(s == u12 + l7 + g) by {
        lemma_seq_assoc(u12, l7, g);
    }
    lemma_take_lit_at(u12, l7, g);
    let i13 = i12 + l7.len() as int;
    assert(take_lit(s, i12, l7) == Some(i13));

    lemma_take_hex_run_at(m.payload, u13);
    assert(take_hex_run(s, i13) == Some(m.payload));

    assert(spec_parse_record(s) matches Some(m2) && m2 =~= m);
}

/// Parses one stored line back into a record; `None` for a blank, damaged
/// or out-of-range line.
pub fn parse_record(line: &str) -> (r: Option<InspectRecord>)
    ensures
        r matches Some(rec) ==> spec_parse_record(line@) == Some(rec@),
        r is None ==> spec_parse_record(line@) is None,
{
    let i1 = match expect_lit(line, 0, "id=") {
        Some(i) => i,
        None => {
            return None;
        },
    };
    let (id, i2) = match parse_dec_u64(line, i1) {
        Some(p) => p,
        None => {
            return None;
        },
    };
    let i3 = match expect_lit(line, i2, ";if=") {
        Some(i) => i,
        None => {
            return None;
        },
    };
    let (iface, i4) = match parse_lenstr_field(line, i3) {
        Some(p) => p,
        None => {
            return None;
        },
    };
    let i5 = match expect_lit(line, i4, ";pr=") {
        Some(i) => i,
        None => {
            return None;
        },
    };
    let (proto, i6) = match parse_lenstr_field(line, i5) {
        Some(p) => p,
        None => {
            return None;
        },
    };
    let i7 = match expect_lit(line, i6, ";src=") {
        Some(i) => i,
        None => {
            return None;
        },
    };
    let (src_ip, i8) = match parse_lenstr_field(line, i7) {
        Some(p) => p,
        None => {
            return None;
        },
    };
    let i9 = match expect_lit(line, i8, ";dst=") {
        Some(i) => i,
        None => {
            return None;
        },
    };
    let (dst_ip, i10) = match parse_lenstr_field(line, i9) {
        Some(p) => p,
        None => {
            return None;
        },
    };
    let i11 = match expect_lit(line, i10, ";sz=") {
        Some(i) => i,
        None => {
            return None;
        },
    };
    let (size64, i12) = match parse_dec_u64(line, i11) {
        Some(p) => p,
        None => {
            return None;
        },
    };
    if size64 > usize::MAX as u64 {
        return None;
    }
    let i13 = match expect_lit(line, i12, ";pl=") {
        Some(i) => i,
        None => {
            return None;
        },
    };
    let payload = match parse_hex_tail(line, i13) {
        Some(v) => v,
        None => {
            return None;
        },
    };
    let rec = InspectRecord {
        id,
        iface,
        proto,
        src_ip,
        dst_ip,
        size: size64 as usize,
        payload,
    };
    proof {
        assert(spec_parse_record(line@) matches Some(m) && m =~= rec@);
    }
    Some(rec)
}

/// Serializes one record as one line of self-describing structured text.
pub fn encode_record(rec: &InspectRecord) -> (line: String)
    ensures
        line@ == spec_encode_record(rec@),
{
    let mut s = String::new();
    s.append("id=");
    let d = u64_to_dec(rec.id);
    s.append(d.as_str());
    s.append(";if=");
    push_lenstr(&mut s, rec.iface.as_str());
    s.append(";pr=");
    push_lenstr(&mut s, rec.proto.as_str());
    s.append(";src=");
    push_lenstr(&mut s, rec.src_ip.as_str());
    s.append(";dst=");
    push_lenstr(&mut s, rec.dst_ip.as_str());
    s.append(";sz=");
    let sz = u64_to_dec(rec.size as u64);
    s.append(sz.as_str());
    s.append(";pl=");
    push_hex_bytes(&mut s, &rec.payload);
    s
}

/// Builds the record the consumer persists for one accepted packet: the
/// packet's addresses, or "?" placeholders when it has no network layer,
/// its label, and its full raw bytes.
pub fn make_record(id: u64, iface: &str, proto: &str, packet: &Packet) -> (rec: InspectRecord)
    ensures
        rec.id == id,
        rec.iface@ == iface@,
        rec.proto@ == proto@,
        match packet.ip {
            Some(ip) => rec.src_ip@ == ip.src_ip@ && rec.dst_ip@ == ip.dst_ip@,
            None => rec.src_ip@ == "?"@ && rec.dst_ip@ == "?"@,
        },
        rec.size == packet.payload@.len(),
        rec.payload@ == packet.payload@,
{
    let (src_ip, dst_ip) = match &packet.ip {
        Some(ip) => (ip.src_ip.clone(), ip.dst_ip.clone()),
        None => ("?".to_owned(), "?".to_owned()),
    };
    InspectRecord {
        id,
        iface: iface.to_owned(),
        proto: proto.to_owned(),
        src_ip,
        dst_ip,
        size: packet.payload.len(),
        payload: clone_bytes(&packet.payload),
    }
}

fn clone_bytes(v: &Vec<u8>) -> (r: Vec<u8>)
    ensures
        r@ == v@,
{
    let mut out: Vec<u8> = Vec::new();
    let mut i: usize = 0;
    while i < v.len()
        invariant
            i <= v@.len(),
            out@ == v@.subrange(0, i as int),
        decreases v@.len() - i,
    {
        out.push(v[i]);
        proof {
            assert(out@ =~= v@.subrange(0, i + 1 as int));
        }
        i = i + 1;
    }
    proof {
        assert(v@.subrange(0, v@.len() as int) =~= v@);
    }
    out
}

/// The first record in `lines`, scanning from position `i`, whose line
/// parses and whose id matches; lines that do not parse are skipped.
pub open spec fn spec_lookup_from(lines: Seq<Seq<char>>, id: u64, i: int) -> Option<RecordModel>
    recommends
        0 <= i <= lines.len(),
    decreases lines.len() - i,
{
    if i < 0 || i >= lines.len() {
        None
    } else {
        match spec_parse_record(lines[i]) {
            Some(m) => if m.id == id {
                Some(m)
            } else {
                spec_lookup_from(lines, id, i + 1)
            },
            None => spec_lookup_from(lines, id, i + 1),
        }
    }
}

/// The first record in the stored lines whose id matches.
pub open spec fn spec_lookup(lines: Seq<Seq<char>>, id: u64) -> Option<RecordModel> {
    spec_lookup_from(lines, id, 0)
}

/// The append-only, id-indexed log of inspected packets: one encoded line
/// per record, in append order.  Reading it back and persisting it are the
/// caller's side of the contract; the store itself is the line image.
pub struct Store {
    lines: Vec<String>,
}

impl View for Store {
    type V = Seq<Seq<char>>;

    closed spec fn view(&self) -> Seq<Seq<char>> {
        Seq::new(self.lines@.len(), |i: int| self.lines@[i]@)
    }
}

impl Store {
    /// An empty store.
    pub fn new() -> (s: Store)
        ensures
            s@ == Seq::<Seq<char>>::empty(),
    {
        let s = Store { lines: Vec::new() };
        proof {
            assert(s@ =~= Seq::<Seq<char>>::empty());
        }
        s
    }

    /// A store read back from previously persisted lines.
    pub fn from_lines(lines: Vec<String>) -> (s: Store)
        ensures
            s@.len() == lines@.len(),
            forall|i: int| 0 <= i < lines@.len() ==> s@[i] == lines@[i]@,
    {
        Store { lines }
    }

    /// Truncates the store; the start of a new capture session.
    pub fn reset(&mut self)
        ensures
            final(self)@ == Seq::<Seq<char>>::empty(),
    {
        self.lines.clear();
        proof {
            assert(self@ =~= Seq::<Seq<char>>::empty());
        }
    }

    /// Appends one record as one encoded line; nothing already stored
    /// changes.  The returned line is what a persisting caller writes out.
    pub fn append(&mut self, rec: &InspectRecord) -> (line: String)
        ensures
            final(self)@ == old(self)@.push(spec_encode_record(rec@)),
            line@ == spec_encode_record(rec@),
    {
        let line = encode_record(rec);
        let copy = line.clone();
        self.lines.push(copy);
        proof {
            assert(self@ =~= old(self)@.push(spec_encode_record(rec@)));
        }
        line
    }

    /// Scans the store from the beginning and returns the first record
    /// whose id matches, skipping lines that do not parse; `None` exactly
    /// when no stored line holds the id.
    pub fn lookup(&self, id: u64) -> (r: Option<InspectRecord>)
        ensures
            r matches Some(rec) ==> spec_lookup(self@, id) == Some(rec@),
            r is None ==> spec_lookup(self@, id) is None,
    {
        let n = self.lines.len();
        let mut i: usize = 0;
        while i < n
            invariant
                i <= n,
                n == self.lines@.len(),
                self@.len() == n,
                spec_lookup(self@, id) == spec_lookup_from(self@, id, i as int),
            decreases n - i,
        {
            proof {
                assert(self@[i as int] == self.lines@[i as int]@);
            }
            match parse_record(self.lines[i].as_str()) {
                Some(rec) => {
                    if rec.id == id {
                        return Some(rec);
                    }
                },
                None => {},
            }
            i = i + 1;
        }
        None
    }
}

/// Round trip through the store: appending a record whose id is not yet
/// present and then looking that id up returns the record, equal in every
/// field, exact payload bytes included.
pub proof fn lemma_append_then_lookup(lines: Seq<Seq<char>>, m: RecordModel)
    requires
        spec_lookup(lines, m.id) is None,
    ensures
        spec_lookup(lines.push(spec_encode_record(m)), m.id) == Some(m),
{
    lemma_parse_encode_record(m);
    lemma_lookup_from_push(lines, m, 0);
}

proof fn lemma_lookup_from_push(lines: Seq<Seq<char>>, m: RecordModel, i: int)
    requires
        0 <= i <= lines.len(),
        spec_lookup_from(lines, m.id, i) is None,
        spec_parse_record(spec_encode_record(m)) == Some(m),
    ensures
        spec_lookup_from(lines.push(spec_encode_record(m)), m.id, i) == Some(m),
    decreases lines.len() - i,
{
    let pushed = lines.push(spec_encode_record(m));
    if i == lines.len() {
        assert(pushed[i] == spec_encode_record(m));
    } else {
        assert(pushed[i] == lines[i]);
        lemma_lookup_from_push(lines, m, i + 1);
    }
}

/// After a reset, every lookup reports not-found: the empty store holds no
/// id at all.
pub proof fn lemma_reset_then_lookup(id: u64)
    ensures
        spec_lookup(Seq::<Seq<char>>::empty(), id) is None,
{
}

} // verus!
