//! Lowercase hexadecimal encoding of bytes, and decoding that accepts
//! either case.
use vstd::prelude::*;
use vstd::string::*;
use vstd::utf8::*;
use crate::text::push_char;

verus! {

broadcast use vstd::string::group_string_axioms;

/// The hex digit character of a value below 16, lowercase.
pub open spec fn hex_digit(n: int) -> char {
    if n < 10 {
        (n + 48) as char
    } else {
        (n - 10 + 97) as char
    }
}

/// The lowercase hex text of `b`: two digits per byte, high nibble first.
pub open spec fn hex_text(b: Seq<u8>) -> Seq<char>
    decreases b.len(),
{
    if b.len() == 0 {
        seq![]
    } else {
        hex_text(b.drop_last()) + seq![
            hex_digit(b.last() as int / 16),
            hex_digit(b.last() as int % 16),
        ]
    }
}

/// The value of a hex digit byte (either case), if it is one.
pub open spec fn hex_value(c: u8) -> Option<int> {
    if 48 <= c <= 57 {
        Some(c - 48)
    } else if 97 <= c <= 102 {
        Some(c - 97 + 10)
    } else if 65 <= c <= 70 {
        Some(c - 65 + 10)
    } else {
        None
    }
}

/// The bytes that hex text `t` (as bytes) denotes: each pair of digits is
/// one byte; `None` when the length is odd or a byte is not a hex digit.
pub open spec fn hex_pairs(t: Seq<u8>) -> Option<Seq<u8>>
    decreases t.len(),
{
    if t.len() == 0 {
        Some(seq![])
    } else if t.len() == 1 {
        None
    } else {
        match (
            hex_pairs(t.subrange(0, t.len() - 2)),
            hex_value(t[t.len() - 2]),
            hex_value(t[t.len() - 1]),
        ) {
            (Some(p), Some(h), Some(l)) => Some(p.push((h * 16 + l) as u8)),
            _ => None,
        }
    }
}

fn digit(n: u8) -> (r: char)
    requires
        n < 16,
    ensures
        r == hex_digit(n as int),
{
    if n < 10 {
        ((48 + n) as u8) as char
    } else {
        ((97 + n - 10) as u8) as char
    }
}

/// Appends the lowercase hex text of `bytes` to `s`.
pub fn push_hex(s: &mut String, bytes: &[u8])
    ensures
        final(s)@ == old(s)@ + hex_text(bytes@),
{
    let mut i: usize = 0;
    while i < bytes.len()
        invariant
            i <= bytes@.len(),
            s@ == old(s)@ + hex_text(bytes@.take(i as int)),
        decreases bytes@.len() - i,
    {
        let b = bytes[i];
        let hi = b >> 4;
        let lo = b & 0xf;
        assert(hi == b / 16 && lo == b % 16) by (bit_vector)
            requires
                hi == b >> 4,
                lo == b & 0xf,
        ;
        push_char(s, digit(hi));
        push_char(s, digit(lo));
        assert(bytes@.take(i + 1).drop_last() =~= bytes@.take(i as int));
        assert(s@ =~= old(s)@ + hex_text(bytes@.take(i + 1)));
        i = i + 1;
    }
    assert(bytes@.take(bytes@.len() as int) =~= bytes@);
}

/// Lowercase hex encoding of `bytes`.
pub fn encode(bytes: &[u8]) -> (r: String)
    ensures
        r@ == hex_text(bytes@),
{
    let mut r = String::new();
    push_hex(&mut r, bytes);
    assert(r@ =~= hex_text(bytes@));
    r
}

fn from_hex_char(c: u8) -> (r: Result<u8, ()>)
    ensures
        match r {
            Ok(v) => hex_value(c) == Some(v as int),
            Err(_) => hex_value(c) is None,
        },
{
    if 48 <= c && c <= 57 {
        Ok(c - 48)
    } else if 97 <= c && c <= 102 {
        Ok(c - 97 + 10)
    } else if 65 <= c && c <= 70 {
        Ok(c - 65 + 10)
    } else {
        Err(())
    }
}

/// Once an even-length prefix fails to decode, the whole text fails.
proof fn lemma_prefix_fails(t: Seq<u8>, i: int)
    requires
        0 <= i <= t.len(),
        i % 2 == 0,
        hex_pairs(t.subrange(0, i)) is None,
    ensures
        hex_pairs(t) is None,
    decreases t.len() - i,
{
    if i == t.len() {
        assert(t.subrange(0, i) =~= t);
    } else if i + 1 == t.len() {
        lemma_odd_fails(t);
    } else {
        let u = t.subrange(0, i + 2);
        assert(u.subrange(0, u.len() - 2) =~= t.subrange(0, i));
        lemma_prefix_fails(t, i + 2);
    }
}

/// Text of odd length never decodes.
proof fn lemma_odd_fails(t: Seq<u8>)
    requires
        t.len() % 2 == 1,
    ensures
        hex_pairs(t) is None,
    decreases t.len(),
{
    if t.len() > 1 {
        lemma_odd_fails(t.subrange(0, t.len() - 2));
    }
}

/// Decodes hex text (even length, digits of either case) into bytes.
pub fn decode_bytes(t: &[u8]) -> (r: Result<Vec<u8>, ()>)
    ensures
        match r {
            Ok(v) => hex_pairs(t@) == Some(v@),
            Err(_) => hex_pairs(t@) is None,
        },
{
    if t.len() % 2 != 0 {
        proof {
            lemma_odd_fails(t@);
        }
        return Err(());
    }
    let mut out: Vec<u8> = Vec::new();
    let mut i: usize = 0;
    assert(t@.subrange(0, 0) =~= Seq::<u8>::empty());
    while i < t.len()
        invariant
            t@.len() % 2 == 0,
            i % 2 == 0,
            i <= t@.len(),
            hex_pairs(t@.subrange(0, i as int)) == Some(out@),
        decreases t@.len() - i,
    {
        let ghost u = t@.subrange(0, i + 2);
        assert(u.subrange(0, u.len() - 2) =~= t@.subrange(0, i as int));
        assert(u[u.len() - 2] == t@[i as int] && u[u.len() - 1] == t@[i + 1]);
        let hi = match from_hex_char(t[i]) {
            Ok(v) => v,
            Err(_) => {
                proof {
                    lemma_prefix_fails(t@, i + 2);
                }
                return Err(());
            },
        };
        let lo = match from_hex_char(t[i + 1]) {
            Ok(v) => v,
            Err(_) => {
                proof {
                    lemma_prefix_fails(t@, i + 2);
                }
                return Err(());
            },
        };
        assert(hi * 16 + lo < 256);
        out.push(hi * 16 + lo);
        i = i + 2;
    }
    assert(t@.subrange(0, t@.len() as int) =~= t@);
    Ok(out)
}

/// Decodes hex text into bytes; `Err` when the text has odd length or holds
/// a character that is not a hex digit.
pub fn decode(s: &str) -> (r: Result<Vec<u8>, ()>)
    ensures
        match r {
            Ok(v) => hex_pairs(s.spec_bytes()) == Some(v@),
            Err(_) => hex_pairs(s.spec_bytes()) is None,
        },
{
    decode_bytes(s.as_bytes())
}

/// The bytes of hex text, one per character.
pub open spec fn hex_bytes(b: Seq<u8>) -> Seq<u8> {
    hex_text(b).map_values(|c: char| c as u8)
}

proof fn lemma_hex_text_ascii(b: Seq<u8>)
    ensures
        is_ascii_chars(hex_text(b)),
        hex_text(b).len() == 2 * b.len(),
    decreases b.len(),
{
    if b.len() > 0 {
        lemma_hex_text_ascii(b.drop_last());
    }
}

proof fn lemma_digit_value(n: int)
    requires
        0 <= n < 16,
    ensures
        hex_value(hex_digit(n) as u8) == Some(n),
{
}

proof fn lemma_pairs_of_hex_bytes(b: Seq<u8>)
    ensures
        hex_pairs(hex_bytes(b)) == Some(b),
    decreases b.len(),
{
    lemma_hex_text_ascii(b);
    if b.len() > 0 {
        let t = hex_bytes(b);
        let p = b.drop_last();
        lemma_hex_text_ascii(p);
        assert(t.subrange(0, t.len() - 2) =~= hex_bytes(p));
        lemma_pairs_of_hex_bytes(p);
        let x = b.last();
        lemma_digit_value(x as int / 16);
        lemma_digit_value(x as int % 16);
        assert(t[t.len() - 2] == hex_digit(x as int / 16) as u8);
        assert(t[t.len() - 1] == hex_digit(x as int % 16) as u8);
        assert(((x as int / 16) * 16 + x as int % 16) as u8 == x);
        assert(p.push(x) =~= b);
    }
}

/// Every character of hex text is a digit or a lowercase letter `a`–`f`.
pub proof fn lemma_hex_digits(b: Seq<u8>, j: int)
    requires
        0 <= j < hex_text(b).len(),
    ensures
        ('0' <= hex_text(b)[j] <= '9') || ('a' <= hex_text(b)[j] <= 'f'),
    decreases b.len(),
{
    if b.len() > 0 {
        let p = b.drop_last();
        lemma_hex_text_ascii(p);
        if j < hex_text(p).len() {
            lemma_hex_digits(p, j);
        }
    }
}

/// Text that decodes has even length and only hex digits.
pub proof fn lemma_pairs_all_hex(t: Seq<u8>)
    requires
        hex_pairs(t) is Some,
    ensures
        t.len() % 2 == 0,
        forall|i: int| 0 <= i < t.len() ==> hex_value(#[trigger] t[i]) is Some,
    decreases t.len(),
{
    if t.len() >= 2 {
        let u = t.subrange(0, t.len() - 2);
        lemma_pairs_all_hex(u);
        assert forall|i: int| 0 <= i < t.len() implies hex_value(#[trigger] t[i]) is Some by {
            if i < t.len() - 2 {
                assert(t[i] == u[i]);
            }
        }
    }
}

/// Decoding the hex text of any bytes gives those bytes back.
pub proof fn lemma_hex_round_trip(b: Seq<u8>)
    ensures
        hex_pairs(encode_utf8(hex_text(b))) == Some(b),
        is_ascii_chars(hex_text(b)),
{
    lemma_hex_text_ascii(b);
    is_ascii_chars_encode_utf8(hex_text(b));
    assert(encode_utf8(hex_text(b)) =~= hex_bytes(b));
    lemma_pairs_of_hex_bytes(b);
}

/// Text of even length made only of hex digits decodes.
pub proof fn lemma_all_hex_decodes(t: Seq<u8>)
    requires
        t.len() % 2 == 0,
        forall|i: int| 0 <= i < t.len() ==> hex_value(#[trigger] t[i]) is Some,
    ensures
        hex_pairs(t) is Some,
    decreases t.len(),
{
    if t.len() >= 2 {
        let u = t.subrange(0, t.len() - 2);
        assert forall|i: int| 0 <= i < u.len() implies hex_value(#[trigger] u[i]) is Some by {
            assert(u[i] == t[i]);
        }
        lemma_all_hex_decodes(u);
        assert(hex_value(t[t.len() - 2]) is Some);
        assert(hex_value(t[t.len() - 1]) is Some);
    }
}

proof fn lemma_pairs_elements(t: Seq<u8>)
    requires
        hex_pairs(t) is Some,
    ensures
        hex_pairs(t)->0.len() == t.len() / 2,
        forall|k: int|
            0 <= k < t.len() / 2 ==> #[trigger] hex_pairs(t)->0[k] == hex_value(t[2 * k])->0 * 16
                + hex_value(t[2 * k + 1])->0,
    decreases t.len(),
{
    if t.len() >= 2 {
        let u = t.subrange(0, t.len() - 2);
        lemma_pairs_elements(u);
        lemma_pairs_all_hex(t);
        let h = hex_value(t[t.len() - 2])->0;
        let l = hex_value(t[t.len() - 1])->0;
        assert(0 <= h < 16 && 0 <= l < 16);
        let p = hex_pairs(u)->0;
        assert(hex_pairs(t)->0 == p.push((h * 16 + l) as u8));
        assert((h * 16 + l) as u8 == h * 16 + l);
        assert(u.len() / 2 == t.len() / 2 - 1);
        assert forall|k: int| 0 <= k < t.len() / 2 implies #[trigger] hex_pairs(t)->0[k]
            == hex_value(t[2 * k])->0 * 16 + hex_value(t[2 * k + 1])->0 by {
            if k < u.len() / 2 {
                assert(hex_pairs(t)->0[k] == p[k]);
                assert(u[2 * k] == t[2 * k]);
                assert(u[2 * k + 1] == t[2 * k + 1]);
            } else {
                assert(k == t.len() / 2 - 1);
                assert(2 * k == t.len() - 2);
                assert(hex_pairs(t)->0[k] == (h * 16 + l) as u8);
            }
        }
    }
}

/// Decoding hex text fails exactly when its length is odd or a byte is not
/// a hex digit (either case); otherwise it gives one byte per pair of
/// digits, the first digit of a pair being the high nibble.
pub proof fn lemma_decode_law(t: Seq<u8>)
    ensures
        hex_pairs(t) is Some <==> (t.len() % 2 == 0 && forall|i: int|
            0 <= i < t.len() ==> hex_value(#[trigger] t[i]) is Some),
        hex_pairs(t) matches Some(v) ==> v.len() == t.len() / 2 && forall|k: int|
            0 <= k < v.len() ==> #[trigger] v[k] == hex_value(t[2 * k])->0 * 16 + hex_value(
                t[2 * k + 1],
            )->0,
{
    if hex_pairs(t) is Some {
        lemma_pairs_all_hex(t);
        lemma_pairs_elements(t);
    } else if t.len() % 2 == 0 && forall|i: int| 0 <= i < t.len() ==> hex_value(#[trigger] t[i]) is Some {
        lemma_all_hex_decodes(t);
    }
}

} // verus!
