//! The payload codec of the wire protocol.
//!
//! Each frame payload is one message in a self-describing structured text
//! encoding: objects with the field names written out, string values quoted
//! with the usual backslash escapes, absent optional values written as
//! `null`, and integers in plain decimal.  The encoder emits one canonical
//! form; the parser accepts exactly that canonical form and is proved to be
//! its inverse, so a message survives the trip through the channel unchanged.
//!
//! This module holds the byte-level building blocks: string escaping, the
//! string and integer scanners, and the generic byte helpers.  Each scanner
//! is proved to recover exactly the content whose encoding stands at its
//! position; the message-level parsers build on that.

use vstd::prelude::*;

verus! {

/// The string delimiter `"`.
pub const QUOTE: u8 = 0x22;

/// The escape character `\`.
pub const BACKSLASH: u8 = 0x5c;

// --- escaping ----------------------------------------------------------

/// The digit for one hex nibble, lower case.
pub open spec fn hex_digit(n: u8) -> u8
    recommends
        n < 16,
{
    if n < 10 {
        (0x30 + n) as u8
    } else {
        (0x57 + n) as u8
    }
}

/// Whether a byte is a lower-case hex digit.
pub open spec fn is_hex_lower(x: u8) -> bool {
    (0x30 <= x && x <= 0x39) || (0x61 <= x && x <= 0x66)
}

/// The value of a lower-case hex digit.
pub open spec fn hex_val(x: u8) -> u8
    recommends
        is_hex_lower(x),
{
    if x <= 0x39 {
        (x - 0x30) as u8
    } else {
        (x - 0x57) as u8
    }
}

/// A hex digit's value is the nibble it was made from.
pub proof fn lemma_hex_digit_val(n: u8)
    requires
        n < 16,
    ensures
        is_hex_lower(hex_digit(n)),
        hex_val(hex_digit(n)) == n,
{
}

/// The escape of one byte: `"` and `\` get a backslash, control bytes get a
/// four-digit hex escape, everything else stands for itself.
pub open spec fn esc_byte(x: u8) -> Seq<u8> {
    if x == QUOTE {
        seq![BACKSLASH, QUOTE]
    } else if x == BACKSLASH {
        seq![BACKSLASH, BACKSLASH]
    } else if x < 0x20 {
        seq![BACKSLASH, 0x75u8, 0x30u8, 0x30u8, hex_digit(x / 16), hex_digit(x % 16)]
    } else {
        seq![x]
    }
}

/// The escape of a byte sequence.
pub open spec fn escape_bytes(b: Seq<u8>) -> Seq<u8>
    decreases b.len(),
{
    if b.len() == 0 {
        Seq::empty()
    } else {
        esc_byte(b[0]) + escape_bytes(b.skip(1))
    }
}

/// Escaping distributes over concatenation.
pub proof fn lemma_escape_concat(a: Seq<u8>, b: Seq<u8>)
    ensures
        escape_bytes(a + b) == escape_bytes(a) + escape_bytes(b),
    decreases a.len(),
{
    if a.len() == 0 {
        assert(a + b =~= b);
        assert(escape_bytes(a) + escape_bytes(b) =~= escape_bytes(b));
    } else {
        assert((a + b).skip(1) =~= a.skip(1) + b);
        lemma_escape_concat(a.skip(1), b);
        assert(escape_bytes(a + b) =~= escape_bytes(a) + escape_bytes(b));
    }
}

// --- the string scanner -------------------------------------------------

/// Scanning the inside of a quoted string: the bytes after the opening quote.
/// Returns the unescaped content and the bytes consumed, closing quote
/// included.  Accepts exactly the canonical escapes the encoder emits.
pub open spec fn spec_scan_str(b: Seq<u8>) -> Option<(Seq<u8>, int)>
    decreases b.len(),
{
    if b.len() == 0 {
        Option::None
    } else if b[0] == QUOTE {
        Option::Some((Seq::empty(), 1))
    } else if b[0] == BACKSLASH {
        if b.len() >= 2 && b[1] == QUOTE {
            match spec_scan_str(b.skip(2)) {
                Option::Some((c, n)) => Option::Some((seq![QUOTE] + c, 2 + n)),
                Option::None => Option::None,
            }
        } else if b.len() >= 2 && b[1] == BACKSLASH {
            match spec_scan_str(b.skip(2)) {
                Option::Some((c, n)) => Option::Some((seq![BACKSLASH] + c, 2 + n)),
                Option::None => Option::None,
            }
        } else if b.len() >= 6 && b[1] == 0x75 && b[2] == 0x30 && b[3] == 0x30 && is_hex_lower(
            b[4],
        ) && is_hex_lower(b[5]) && hex_val(b[4]) * 16 + hex_val(b[5]) < 0x20 {
            match spec_scan_str(b.skip(6)) {
                Option::Some((c, n)) => Option::Some(
                    (seq![(hex_val(b[4]) * 16 + hex_val(b[5])) as u8] + c, 6 + n),
                ),
                Option::None => Option::None,
            }
        } else {
            Option::None
        }
    } else if b[0] >= 0x20 {
        match spec_scan_str(b.skip(1)) {
            Option::Some((c, n)) => Option::Some((seq![b[0]] + c, 1 + n)),
            Option::None => Option::None,
        }
    } else {
        Option::None
    }
}

/// Scan completeness: scanning an escaped content followed by the closing
/// quote recovers exactly that content, whatever follows.
pub proof fn lemma_scan_escape(c: Seq<u8>, rest: Seq<u8>)
    ensures
        spec_scan_str(escape_bytes(c) + seq![QUOTE] + rest) == Option::Some(
            (c, escape_bytes(c).len() + 1 as int),
        ),
    decreases c.len(),
{
    let b = escape_bytes(c) + seq![QUOTE] + rest;
    if c.len() == 0 {
        assert(b =~= seq![QUOTE] + rest);
        assert(b[0] == QUOTE);
        assert(c =~= Seq::<u8>::empty());
    } else {
        let x = c[0];
        let tail = escape_bytes(c.skip(1)) + seq![QUOTE] + rest;
        assert(escape_bytes(c) == esc_byte(x) + escape_bytes(c.skip(1)));
        assert(b =~= esc_byte(x) + tail);
        lemma_scan_escape(c.skip(1), rest);
        let k = esc_byte(x).len() as int;
        assert(b.skip(k) =~= tail);
        if x == QUOTE {
            assert(b[0] == BACKSLASH && b[1] == QUOTE);
            assert(seq![QUOTE] + c.skip(1) =~= c);
        } else if x == BACKSLASH {
            assert(b[0] == BACKSLASH && b[1] != QUOTE && b[1] == BACKSLASH);
            assert(seq![BACKSLASH] + c.skip(1) =~= c);
        } else if x < 0x20 {
            assert(b[0] == BACKSLASH);
            assert(b[1] == 0x75 && b[2] == 0x30 && b[3] == 0x30);
            assert(b[4] == hex_digit(x / 16) && b[5] == hex_digit(x % 16));
            lemma_hex_digit_val(x / 16);
            lemma_hex_digit_val(x % 16);
            assert(hex_val(b[4]) * 16 + hex_val(b[5]) == x) by {
                assert((x / 16) * 16 + (x % 16) == x) by (nonlinear_arith);
            }
            assert(seq![x] + c.skip(1) =~= c);
        } else {
            assert(b[0] == x && x != QUOTE && x != BACKSLASH && x >= 0x20);
            assert(seq![x] + c.skip(1) =~= c);
        }
    }
}

// --- decimal integers ---------------------------------------------------

/// Whether a byte is a decimal digit.
pub open spec fn is_digit(x: u8) -> bool {
    0x30 <= x && x <= 0x39
}

/// The decimal digits of a number, most significant first, no sign, no
/// leading zeros (`0` itself is the single digit `0`).
pub open spec fn dec_digits(n: nat) -> Seq<u8>
    decreases n,
{
    if n < 10 {
        seq![(0x30 + n) as u8]
    } else {
        dec_digits(n / 10) + seq![(0x30 + n % 10) as u8]
    }
}

/// Every byte of a decimal rendering is a digit.
pub proof fn lemma_dec_digits_are_digits(n: nat)
    ensures
        forall|i: int| 0 <= i < dec_digits(n).len() ==> is_digit(#[trigger] dec_digits(n)[i]),
    decreases n,
{
    if n < 10 {
        assert(dec_digits(n) =~= seq![(0x30 + n) as u8]);
        assert(is_digit(dec_digits(n)[0]));
    } else {
        lemma_dec_digits_are_digits(n / 10);
        assert(dec_digits(n) == dec_digits(n / 10) + seq![(0x30 + n % 10) as u8]);
        assert forall|i: int| 0 <= i < dec_digits(n).len() implies is_digit(
            #[trigger] dec_digits(n)[i],
        ) by {
            if i < dec_digits(n / 10).len() {
                assert(dec_digits(n)[i] == dec_digits(n / 10)[i]);
            } else {
                assert(dec_digits(n)[i] == (0x30 + n % 10) as u8);
            }
        }
    }
}

/// A positive number's first digit is not zero.
pub proof fn lemma_dec_digits_first(n: nat)
    requires
        n >= 1,
    ensures
        dec_digits(n)[0] != 0x30,
    decreases n,
{
    if n >= 10 {
        lemma_dec_digits_first(n / 10);
    }
}

/// A decimal rendering has at least one digit.
pub proof fn lemma_dec_digits_len_pos(n: nat)
    ensures
        dec_digits(n).len() >= 1,
    decreases n,
{
    if n >= 10 {
        lemma_dec_digits_len_pos(n / 10);
    }
}

/// Two numbers with the same decimal rendering are the same number.
pub proof fn lemma_dec_digits_injective(a: nat, b: nat)
    requires
        dec_digits(a) == dec_digits(b),
    ensures
        a == b,
    decreases a + b,
{
    lemma_dec_digits_len_pos(a / 10);
    lemma_dec_digits_len_pos(b / 10);
    if a < 10 && b < 10 {
        assert(dec_digits(a) == seq![(0x30 + a) as u8]);
        assert(dec_digits(b) == seq![(0x30 + b) as u8]);
        assert(seq![(0x30 + a) as u8][0] == (0x30 + a) as u8);
        assert(seq![(0x30 + b) as u8][0] == (0x30 + b) as u8);
        assert((0x30 + a) as u8 == (0x30 + b) as u8);
        assert(0x30 + a < 256 && 0x30 + b < 256);
    } else if a < 10 && b >= 10 {
        assert(dec_digits(b).len() >= 2);
    } else if a >= 10 && b < 10 {
        assert(dec_digits(a).len() >= 2);
    } else {
        let la = dec_digits(a / 10);
        let lb = dec_digits(b / 10);
        assert(dec_digits(a) == la + seq![(0x30 + a % 10) as u8]);
        assert(dec_digits(b) == lb + seq![(0x30 + b % 10) as u8]);
        assert(dec_digits(a).last() == (0x30 + a % 10) as u8);
        assert(dec_digits(b).last() == (0x30 + b % 10) as u8);
        assert(a % 10 == b % 10);
        assert(la =~= dec_digits(a).drop_last());
        assert(lb =~= dec_digits(b).drop_last());
        lemma_dec_digits_injective(a / 10, b / 10);
        assert(a == 10 * (a / 10) + a % 10) by (nonlinear_arith);
        assert(b == 10 * (b / 10) + b % 10) by (nonlinear_arith);
    }
}

/// Ten to the `k`.
pub open spec fn pow10(k: nat) -> nat
    decreases k,
{
    if k == 0 {
        1
    } else {
        10 * pow10((k - 1) as nat)
    }
}

/// A number below ten to the `k` has at most `k` digits.
pub proof fn lemma_dec_digits_len(n: nat, k: nat)
    requires
        k >= 1,
        n < pow10(k),
    ensures
        dec_digits(n).len() <= k,
    decreases k,
{
    if n < 10 {
    } else {
        assert(pow10(k) == 10 * pow10((k - 1) as nat));
        if k == 1 {
            assert(pow10(1nat) == 10);
        } else {
            assert(n / 10 < pow10((k - 1) as nat)) by (nonlinear_arith)
                requires
                    n < 10 * pow10((k - 1) as nat),
            ;
            lemma_dec_digits_len(n / 10, (k - 1) as nat);
        }
    }
}

/// A `u32` has at most ten digits.
pub proof fn lemma_dec_digits_len_u32(n: u32)
    ensures
        dec_digits(n as nat).len() <= 10,
{
    assert(pow10(10nat) == 10000000000) by {
        reveal_with_fuel(pow10, 11);
    }
    lemma_dec_digits_len(n as nat, 10nat);
}


// --- executable scanners ------------------------------------------------

/// Prepends already-scanned content and consumed length to a scan outcome.
pub open spec fn scan_cont(acc: Seq<u8>, k: int, r: Option<(Seq<u8>, int)>) -> Option<
    (Seq<u8>, int),
> {
    match r {
        Option::Some(cn) => Option::Some((acc + cn.0, k + cn.1)),
        Option::None => Option::None,
    }
}

/// Continuations compose.
pub proof fn lemma_scan_cont_assoc(a: Seq<u8>, k: int, b: Seq<u8>, m: int, r: Option<(Seq<u8>, int)>)
    ensures
        scan_cont(a, k, scan_cont(b, m, r)) == scan_cont(a + b, k + m, r),
{
    match r {
        Option::Some(cn) => {
            assert(a + (b + cn.0) =~= (a + b) + cn.0);
        },
        Option::None => {},
    }
}

/// Scans the inside of a quoted string starting at `start` (just after the
/// opening quote).  Returns the unescaped content and the index just past
/// the closing quote, exactly as the scanner specification says.
pub fn scan_str(buf: &Vec<u8>, start: usize) -> (r: Option<(Vec<u8>, usize)>)
    requires
        start <= buf@.len(),
    ensures
        r is None ==> spec_scan_str(buf@.skip(start as int)) is None,
        r matches Some(ce) ==> {
            &&& spec_scan_str(buf@.skip(start as int)) == Option::Some(
                (ce.0@, ce.1 - start as int),
            )
            &&& start < ce.1 <= buf@.len()
        },
{
    let mut acc: Vec<u8> = Vec::new();
    let mut j: usize = start;
    loop
        invariant
            start <= j <= buf@.len(),
            spec_scan_str(buf@.skip(start as int)) == scan_cont(
                acc@,
                j - start as int,
                spec_scan_str(buf@.skip(j as int)),
            ),
        decreases buf@.len() - j,
    {
        proof {
            if j < buf@.len() {
                assert(buf@.skip(j as int)[0] == buf@[j as int]);
            }
        }
        if j == buf.len() {
            return None;
        }
        let x = buf[j];
        if x == 0x22 {
            proof {
                assert(spec_scan_str(buf@.skip(j as int)) == Option::Some(
                    (Seq::<u8>::empty(), 1int),
                ));
                assert(acc@ + Seq::<u8>::empty() =~= acc@);
            }
            return Some((acc, j + 1));
        } else if x == 0x5c {
            if buf.len() - j < 2 {
                return None;
            }
            let y = buf[j + 1];
            proof {
                assert(buf@.skip(j as int)[1] == buf@[j + 1]);
            }
            if y == 0x22 {
                proof {
                    assert(buf@.skip(j as int).skip(2) =~= buf@.skip(j + 2));
                    assert(spec_scan_str(buf@.skip(j as int)) == scan_cont(
                        seq![QUOTE],
                        2,
                        spec_scan_str(buf@.skip(j + 2)),
                    ));
                    lemma_scan_cont_assoc(
                        acc@,
                        j - start as int,
                        seq![QUOTE],
                        2,
                        spec_scan_str(buf@.skip(j + 2)),
                    );
                }
                acc.push(0x22);
                j = j + 2;
            } else if y == 0x5c {
                proof {
                    assert(buf@.skip(j as int).skip(2) =~= buf@.skip(j + 2));
                    assert(spec_scan_str(buf@.skip(j as int)) == scan_cont(
                        seq![BACKSLASH],
                        2,
                        spec_scan_str(buf@.skip(j + 2)),
                    ));
                    lemma_scan_cont_assoc(
                        acc@,
                        j - start as int,
                        seq![BACKSLASH],
                        2,
                        spec_scan_str(buf@.skip(j + 2)),
                    );
                }
                acc.push(0x5c);
                j = j + 2;
            } else if y == 0x75 {
                if buf.len() - j < 6 {
                    return None;
                }
                let h2 = buf[j + 2];
                let h3 = buf[j + 3];
                let h4 = buf[j + 4];
                let h5 = buf[j + 5];
                proof {
                    assert(buf@.skip(j as int)[2] == buf@[j + 2]);
                    assert(buf@.skip(j as int)[3] == buf@[j + 3]);
                    assert(buf@.skip(j as int)[4] == buf@[j + 4]);
                    assert(buf@.skip(j as int)[5] == buf@[j + 5]);
                }
                if h2 == 0x30 && h3 == 0x30 && ((0x30 <= h4 && h4 <= 0x39) || (0x61 <= h4 && h4
                    <= 0x66)) && ((0x30 <= h5 && h5 <= 0x39) || (0x61 <= h5 && h5 <= 0x66)) {
                    let v4: u8 = if h4 <= 0x39 {
                        h4 - 0x30
                    } else {
                        h4 - 0x57
                    };
                    let v5: u8 = if h5 <= 0x39 {
                        h5 - 0x30
                    } else {
                        h5 - 0x57
                    };
                    let v: u8 = v4 * 16 + v5;
                    if v < 0x20 {
                        proof {
                            assert(buf@.skip(j as int).skip(6) =~= buf@.skip(j + 6));
                            assert(spec_scan_str(buf@.skip(j as int)) == scan_cont(
                                seq![v],
                                6,
                                spec_scan_str(buf@.skip(j + 6)),
                            ));
                            lemma_scan_cont_assoc(
                                acc@,
                                j - start as int,
                                seq![v],
                                6,
                                spec_scan_str(buf@.skip(j + 6)),
                            );
                        }
                        acc.push(v);
                        j = j + 6;
                    } else {
                        return None;
                    }
                } else {
                    return None;
                }
            } else {
                return None;
            }
        } else if x >= 0x20 {
            proof {
                assert(buf@.skip(j as int).skip(1) =~= buf@.skip(j + 1));
                assert(spec_scan_str(buf@.skip(j as int)) == scan_cont(
                    seq![x],
                    1,
                    spec_scan_str(buf@.skip(j + 1)),
                ));
                lemma_scan_cont_assoc(
                    acc@,
                    j - start as int,
                    seq![x],
                    1,
                    spec_scan_str(buf@.skip(j + 1)),
                );
            }
            acc.push(x);
            j = j + 1;
        } else {
            return None;
        }
    }
}


/// Ten to the power grows with the exponent.
pub proof fn lemma_pow10_mono(a: nat, b: nat)
    requires
        a <= b,
    ensures
        pow10(a) <= pow10(b),
    decreases b,
{
    if a < b {
        lemma_pow10_mono(a, (b - 1) as nat);
        assert(pow10(b) == 10 * pow10((b - 1) as nat));
    }
}

/// A decimal number standing at `off` in `b`, written in full: its digits,
/// then either the end of `b` or a byte that is not a digit.
pub open spec fn spec_u32_at(b: Seq<u8>, off: int, w: u32) -> bool {
    let d = dec_digits(w as nat);
    &&& 0 <= off
    &&& off + d.len() <= b.len()
    &&& b.subrange(off, off + d.len() as int) == d
    &&& (off + d.len() == b.len() || !is_digit(b[off + d.len()]))
}

/// At one position there is at most one fully written number.
pub proof fn lemma_digit_run_unique(b: Seq<u8>, off: int, n1: nat, n2: nat)
    requires
        0 <= off,
        off + dec_digits(n1).len() <= b.len(),
        b.subrange(off, off + dec_digits(n1).len() as int) == dec_digits(n1),
        off + dec_digits(n1).len() == b.len() || !is_digit(b[off + dec_digits(n1).len()]),
        off + dec_digits(n2).len() <= b.len(),
        b.subrange(off, off + dec_digits(n2).len() as int) == dec_digits(n2),
        off + dec_digits(n2).len() == b.len() || !is_digit(b[off + dec_digits(n2).len()]),
    ensures
        n1 == n2,
{
    let d1 = dec_digits(n1);
    let d2 = dec_digits(n2);
    lemma_dec_digits_are_digits(n1);
    lemma_dec_digits_are_digits(n2);
    if d1.len() < d2.len() {
        assert(b[off + d1.len()] == d2[d1.len() as int]);
        assert(is_digit(d2[d1.len() as int]));
    } else if d2.len() < d1.len() {
        assert(b[off + d2.len()] == d1[d2.len() as int]);
        assert(is_digit(d1[d2.len() as int]));
    } else {
        assert(d1 =~= d2);
        lemma_dec_digits_injective(n1, n2);
    }
}

/// Parses the decimal number fully written at `off`, if one is: its value
/// and the index just past its digits.  Exactly the numbers the encoder can
/// write are recovered.
pub fn parse_u32_at(buf: &Vec<u8>, off: usize) -> (r: Option<(u32, usize)>)
    requires
        off <= buf@.len(),
    ensures
        r matches Some(ve) ==> off < ve.1 <= buf@.len(),
        forall|w: u32|
            spec_u32_at(buf@, off as int, w) ==> ({
                &&& r matches Some(ve)
                &&& ve.0 == w
                &&& ve.1 == off + dec_digits(w as nat).len()
            }),
{
    let m: usize = buf.len();
    if off == m {
        proof {
            assert forall|w: u32| !spec_u32_at(buf@, off as int, w) by {
                lemma_dec_digits_len_pos(w as nat);
            }
        }
        return None;
    }
    let c0 = buf[off];
    if !(0x30 <= c0 && c0 <= 0x39) {
        proof {
            assert forall|w: u32| !spec_u32_at(buf@, off as int, w) by {
                lemma_dec_digits_len_pos(w as nat);
                lemma_dec_digits_are_digits(w as nat);
                if spec_u32_at(buf@, off as int, w) {
                    assert(buf@[off as int] == dec_digits(w as nat)[0]);
                    assert(is_digit(dec_digits(w as nat)[0]));
                }
            }
        }
        return None;
    }
    if c0 == 0x30 {
        proof {
            assert forall|w: u32| spec_u32_at(buf@, off as int, w) implies w == 0
                && dec_digits(w as nat).len() == 1 by {
                lemma_dec_digits_len_pos(w as nat);
                assert(buf@[off as int] == dec_digits(w as nat)[0]);
                if w >= 1 {
                    lemma_dec_digits_first(w as nat);
                }
                assert(w < 10);
                assert(dec_digits(w as nat) == seq![(0x30 + w as nat) as u8]);
            }
        }
        return Some((0, off + 1));
    }
    let mut acc: u64 = (c0 - 0x30) as u64;
    let mut j: usize = off + 1;
    proof {
        assert(dec_digits(acc as nat) == seq![(0x30 + acc as nat) as u8]);
        assert(dec_digits(acc as nat) =~= buf@.subrange(off as int, j as int));
        assert(pow10(1nat) == 10) by {
            reveal_with_fuel(pow10, 2);
        }
    }
    while j < m && j - off < 10 && 0x30 <= buf[j] && buf[j] <= 0x39
        invariant
            off < j <= m,
            m == buf@.len(),
            1 <= j - off <= 10,
            1 <= acc,
            acc < pow10((j - off) as nat),
            dec_digits(acc as nat) == buf@.subrange(off as int, j as int),
        decreases m - j,
    {
        let x = buf[j];
        let d: u64 = (x - 0x30) as u64;
        proof {
            lemma_pow10_mono((j - off) as nat, 9nat);
            assert(pow10(9nat) == 1000000000) by {
                reveal_with_fuel(pow10, 10);
            }
            let a2 = acc * 10 + d;
            assert(a2 / 10 == acc && a2 % 10 == d) by (nonlinear_arith)
                requires
                    d < 10,
                    a2 == acc * 10 + d,
                    0 <= acc,
            ;
            assert(a2 >= 10);
            assert(dec_digits(a2 as nat) == dec_digits(acc as nat) + seq![(0x30 + a2 as nat % 10)
                as u8]);
            assert((0x30 + a2 as nat % 10) as u8 == x);
            assert(dec_digits(a2 as nat) =~= buf@.subrange(off as int, j + 1));
            assert(a2 < pow10((j + 1 - off) as nat)) by (nonlinear_arith)
                requires
                    acc < pow10((j - off) as nat),
                    d < 10,
                    a2 == acc * 10 + d,
                    pow10((j + 1 - off) as nat) == 10 * pow10((j - off) as nat),
            ;
        }
        acc = acc * 10 + d;
        j = j + 1;
    }
    proof {
        lemma_pow10_mono((j - off) as nat, 10nat);
        assert(pow10(10nat) == 10000000000) by {
            reveal_with_fuel(pow10, 11);
        }
    }
    if j < m && j - off == 10 && 0x30 <= buf[j] && buf[j] <= 0x39 {
        proof {
            lemma_dec_digits_are_digits(acc as nat);
            assert forall|w: u32| !spec_u32_at(buf@, off as int, w) by {
                if spec_u32_at(buf@, off as int, w) {
                    lemma_dec_digits_len_u32(w);
                    lemma_dec_digits_len_pos(w as nat);
                    let lw = dec_digits(w as nat).len();
                    assert(off + lw < buf@.len());
                    if lw < 10 {
                        assert(buf@[off + lw] == dec_digits(acc as nat)[lw as int]);
                        assert(is_digit(dec_digits(acc as nat)[lw as int]));
                    } else {
                        assert(is_digit(buf@[off + lw]));
                    }
                }
            }
        }
        return None;
    }
    proof {
        assert(j == m || !is_digit(buf@[j as int]));
    }
    if acc > 0xffffffff {
        proof {
            assert forall|w: u32| !spec_u32_at(buf@, off as int, w) by {
                if spec_u32_at(buf@, off as int, w) {
                    lemma_digit_run_unique(buf@, off as int, w as nat, acc as nat);
                }
            }
        }
        return None;
    }
    let v: u32 = acc as u32;
    proof {
        assert forall|w: u32| spec_u32_at(buf@, off as int, w) implies w == v && off + dec_digits(
            w as nat,
        ).len() == j by {
            lemma_digit_run_unique(buf@, off as int, w as nat, acc as nat);
        }
    }
    Some((v, j))
}

/// Whether `pat` stands at `off` in `buf`.
pub fn match_at(buf: &Vec<u8>, off: usize, pat: &Vec<u8>) -> (r: bool)
    ensures
        r == (off + pat@.len() <= buf@.len() && buf@.subrange(
            off as int,
            off + pat@.len() as int,
        ) == pat@),
{
    let m: usize = buf.len();
    if off > m || pat.len() > m - off {
        return false;
    }
    let mut i: usize = 0;
    while i < pat.len()
        invariant
            0 <= i <= pat@.len(),
            m == buf@.len(),
            off + pat@.len() <= m,
            forall|k: int| 0 <= k < i ==> buf@[off + k] == pat@[k],
        decreases pat@.len() - i,
    {
        if buf[off + i] != pat[i] {
            proof {
                assert(buf@.subrange(off as int, off + pat@.len() as int)[i as int]
                    != pat@[i as int]);
            }
            return false;
        }
        i = i + 1;
    }
    proof {
        assert(buf@.subrange(off as int, off + pat@.len() as int) =~= pat@);
    }
    true
}

/// Whether two byte vectors hold the same bytes.
pub fn vec_eq(a: &Vec<u8>, b: &Vec<u8>) -> (r: bool)
    ensures
        r == (a@ == b@),
{
    if a.len() != b.len() {
        proof {
            assert(a@.len() != b@.len());
        }
        return false;
    }
    let mut i: usize = 0;
    while i < a.len()
        invariant
            0 <= i <= a@.len(),
            a@.len() == b@.len(),
            forall|k: int| 0 <= k < i ==> a@[k] == b@[k],
        decreases a@.len() - i,
    {
        if a[i] != b[i] {
            return false;
        }
        i = i + 1;
    }
    proof {
        assert(a@ =~= b@);
    }
    true
}

} // verus!
