//! Hex-text encoding and decoding of byte sequences, used for keys, hashes
//! and signatures on the wire. Encoding produces lowercase ASCII digits;
//! decoding accepts both cases and fails on any non-hex input or odd length.

use vstd::prelude::*;
use vstd::string::*;
use vstd::arithmetic::div_mod::lemma_fundamental_div_mod;

verus! {

/// The ASCII code of the hex digit for a nibble (`n < 16`); lowercase.
pub open spec fn nib_char(n: u8) -> u8 {
    if n < 10 {
        (n + 0x30) as u8  // '0'..'9'
    } else {
        (n + 0x57) as u8  // 'a'..'f'
    }
}

/// The value of an ASCII hex digit, or `None` if the byte is not one.
pub open spec fn nib_val(c: u8) -> Option<u8> {
    if 0x30 <= c <= 0x39 {
        Some((c - 0x30) as u8)  // '0'..'9'
    } else if 0x61 <= c <= 0x66 {
        Some((c - 0x57) as u8)  // 'a'..'f'
    } else if 0x41 <= c <= 0x46 {
        Some((c - 0x37) as u8)  // 'A'..'F'
    } else {
        None
    }
}

/// The hex text of a byte sequence: two ASCII digits per byte, in order.
pub open spec fn spec_hex_encode(s: Seq<u8>) -> Seq<u8>
    decreases s.len(),
{
    if s.len() == 0 {
        Seq::empty()
    } else {
        spec_hex_encode(s.drop_last()) + seq![
            nib_char((s.last() / 16) as u8),
            nib_char((s.last() % 16) as u8),
        ]
    }
}

/// The bytes denoted by a hex text, or `None` if the text is not valid hex.
pub open spec fn spec_hex_decode(s: Seq<u8>) -> Option<Seq<u8>>
    decreases s.len(),
{
    if s.len() % 2 != 0 {
        None
    } else if s.len() == 0 {
        Some(Seq::empty())
    } else {
        match spec_hex_decode(s.drop_last().drop_last()) {
            Option::None => None,
            Option::Some(p) => match (nib_val(s[s.len() - 2]), nib_val(s.last())) {
                (Option::Some(h), Option::Some(l)) => Some(p.push((16 * h + l) as u8)),
                _ => None,
            },
        }
    }
}

/// Encodes bytes as lowercase hex text (returned as ASCII bytes).
pub fn hex_encode(data: &Vec<u8>) -> (r: Vec<u8>)
    ensures
        r@ == spec_hex_encode(data@),
{
    let mut out: Vec<u8> = Vec::new();
    let mut i: usize = 0;
    while i < data.len()
        invariant
            i <= data.len(),
            out@ == spec_hex_encode(data@.take(i as int)),
        decreases data.len() - i,
    {
        let b = data[i];
        let hi = b / 16;
        let lo = b % 16;
        out.push(if hi < 10 { hi + 0x30 } else { hi + 0x57 });
        out.push(if lo < 10 { lo + 0x30 } else { lo + 0x57 });
        proof {
            let t = data@.take(i + 1);
            assert(t.drop_last() =~= data@.take(i as int));
            assert(t.last() == data@[i as int]);
        }
        i = i + 1;
    }
    proof {
        assert(data@.take(data@.len() as int) =~= data@);
    }
    out
}

/// Decodes hex text into bytes; `None` exactly on invalid hex input
/// (a non-hex character, a non-ASCII character, or an odd length).
pub fn hex_decode(s: &str) -> (r: Option<Vec<u8>>)
    ensures
        match r {
            Option::Some(v) => spec_hex_decode(s.spec_bytes()) == Some(v@),
            Option::None => spec_hex_decode(s.spec_bytes()) is None,
        },
{
    let bytes = s.as_bytes_vec();
    if bytes.len() % 2 != 0 {
        return None;
    }
    let mut out: Vec<u8> = Vec::new();
    let mut i: usize = 0;
    while i < bytes.len()
        invariant
            i <= bytes.len(),
            i % 2 == 0,
            bytes.len() % 2 == 0,
            bytes@ == s.spec_bytes(),
            spec_hex_decode(bytes@.take(i as int)) == Some(out@),
        decreases bytes.len() - i,
    {
        let hc = bytes[i];
        let lc = bytes[i + 1];
        let h = if 0x30 <= hc && hc <= 0x39 {
            hc - 0x30
        } else if 0x61 <= hc && hc <= 0x66 {
            hc - 0x57
        } else if 0x41 <= hc && hc <= 0x46 {
            hc - 0x37
        } else {
            proof {
                lemma_decode_bad_digit(bytes@, i as int);
            }
            return None;
        };
        let l = if 0x30 <= lc && lc <= 0x39 {
            lc - 0x30
        } else if 0x61 <= lc && lc <= 0x66 {
            lc - 0x57
        } else if 0x41 <= lc && lc <= 0x46 {
            lc - 0x37
        } else {
            proof {
                lemma_decode_bad_digit(bytes@, i as int);
            }
            return None;
        };
        out.push(16 * h + l);
        proof {
            let t = bytes@.take(i + 2);
            assert(t.drop_last().drop_last() =~= bytes@.take(i as int));
            assert(t[t.len() - 2] == bytes@[i as int]);
            assert(t.last() == bytes@[i + 1]);
        }
        i = i + 2;
    }
    proof {
        assert(bytes@.take(bytes@.len() as int) =~= bytes@);
    }
    Some(out)
}

/// A prefix of even length whose next digit pair is invalid dooms the whole
/// text: decoding yields `None`.
proof fn lemma_decode_bad_digit(s: Seq<u8>, i: int)
    requires
        0 <= i,
        i + 2 <= s.len(),
        i % 2 == 0,
        s.len() % 2 == 0,
        nib_val(s[i]) is None || nib_val(s[i + 1]) is None,
    ensures
        spec_hex_decode(s) is None,
    decreases s.len() - i,
{
    if i + 2 == s.len() {
        assert(s[s.len() - 2] == s[i]);
        assert(s.last() == s[i + 1]);
    } else {
        let p = s.drop_last().drop_last();
        assert(p[i] == s[i]);
        assert(p[i + 1] == s[i + 1]);
        lemma_decode_bad_digit(p, i);
    }
}

/// Each byte encodes to exactly two hex digits.
pub proof fn lemma_hex_encode_len(s: Seq<u8>)
    ensures
        spec_hex_encode(s).len() == 2 * s.len(),
    decreases s.len(),
{
    if s.len() > 0 {
        lemma_hex_encode_len(s.drop_last());
    }
}

/// Hex encoding and decoding round-trip exactly: decoding the encoding of
/// any byte sequence yields that sequence back.
pub proof fn lemma_hex_round_trip(s: Seq<u8>)
    ensures
        spec_hex_decode(spec_hex_encode(s)) == Some(s),
    decreases s.len(),
{
    lemma_hex_encode_len(s);
    if s.len() == 0 {
        assert(spec_hex_encode(s) =~= Seq::<u8>::empty());
    } else {
        lemma_hex_round_trip(s.drop_last());
        lemma_hex_encode_len(s.drop_last());
        let e = spec_hex_encode(s);
        let b = s.last();
        assert(e.drop_last().drop_last() =~= spec_hex_encode(s.drop_last()));
        assert(e[e.len() - 2] == nib_char((b / 16) as u8));
        assert(e.last() == nib_char((b % 16) as u8));
        lemma_fundamental_div_mod(b as int, 16);
        assert(s.drop_last().push(s.last()) =~= s);
    }
}

} // verus!
