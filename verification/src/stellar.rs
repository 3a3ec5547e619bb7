//! Stellar account-address utilities: CRC-16/XMODEM checksums, unpadded
//! base32, and the G... address format (a version byte, a 32-byte ed25519
//! public key, and a little-endian CRC-16 checksum, base32-encoded to 56
//! characters).

use vstd::prelude::*;
use vstd::string::StringSliceAdditionalSpecFns;

verus! {

/// The version byte of an account address (the payload's first byte).
pub const ACCOUNT_VERSION_BYTE: u8 = 48;

/// One shift-and-conditional-xor round of CRC-16/XMODEM.
pub open spec fn crc16_round(c: u16) -> u16 {
    if c & 0x8000 != 0 {
        (c << 1) ^ 0x1021
    } else {
        c << 1
    }
}

/// `n` rounds of CRC-16/XMODEM.
pub open spec fn crc16_rounds(c: u16, n: nat) -> u16
    decreases n,
{
    if n == 0 {
        c
    } else {
        crc16_round(crc16_rounds(c, (n - 1) as nat))
    }
}

/// Folding one byte into a CRC-16/XMODEM state: xor into the high byte,
/// then eight rounds.
pub open spec fn crc16_byte(c: u16, b: u8) -> u16 {
    crc16_rounds(c ^ ((b as u16) << 8), 8)
}

/// CRC-16/XMODEM of a byte sequence, from initial state zero.
pub open spec fn spec_crc16(data: Seq<u8>) -> u16
    decreases data.len(),
{
    if data.len() == 0 {
        0
    } else {
        crc16_byte(spec_crc16(data.drop_last()), data.last())
    }
}

/// CRC-16/XMODEM checksum (polynomial 0x1021, initial value 0).
pub fn crc16_xmodem(data: &[u8]) -> (r: u16)
    ensures
        r == spec_crc16(data@),
{
    let n = data.len();
    let mut crc: u16 = 0;
    let mut i: usize = 0;
    while i < n
        invariant
            i <= n,
            n == data@.len(),
            crc == spec_crc16(data@.take(i as int)),
        decreases n - i,
    {
        let mut c: u16 = crc ^ ((data[i] as u16) << 8);
        let ghost c0 = c;
        let mut round: usize = 0;
        while round < 8
            invariant
                round <= 8,
                c == crc16_rounds(c0, round as nat),
            decreases 8 - round,
        {
            if c & 0x8000 != 0 {
                c = (c << 1) ^ 0x1021;
            } else {
                c = c << 1;
            }
            round = round + 1;
        }
        proof {
            assert(data@.take(i + 1).drop_last() =~= data@.take(i as int));
            assert(data@.take(i + 1).last() == data@[i as int]);
        }
        crc = c;
        i = i + 1;
    }
    proof {
        assert(data@.take(n as int) =~= data@);
    }
    crc
}

/// The base32 alphabet byte of a 5-bit value: A-Z for 0-25, 2-7 for
/// 26-31.
pub open spec fn b32_char(v: int) -> u8 {
    if v < 26 {
        (65 + v) as u8
    } else {
        (24 + v) as u8
    }
}

/// Whether a byte belongs to the base32 alphabet.
pub open spec fn is_b32_byte(c: u8) -> bool {
    (65 <= c <= 90) || (50 <= c <= 55)
}

/// The 5-bit value of a base32 alphabet byte.
pub open spec fn b32_val(c: u8) -> u8 {
    if 65 <= c <= 90 {
        (c - 65) as u8
    } else {
        ((c - 50) + 26) as u8
    }
}

fn b32_char_of(v: u8) -> (r: u8)
    requires
        v < 32,
    ensures
        r == b32_char(v as int),
        50 <= r <= 90,
{
    if v < 26 {
        65 + v
    } else {
        24 + v
    }
}

fn b32_val_of(c: u8) -> (r: Option<u8>)
    ensures
        is_b32_byte(c) ==> r == Some(b32_val(c)),
        !is_b32_byte(c) ==> r is None,
        r matches Some(v) ==> v < 32,
{
    if 65 <= c && c <= 90 {
        Some(c - 65)
    } else if 50 <= c && c <= 55 {
        Some((c - 50) + 26)
    } else {
        None
    }
}

/// The eight alphabet bytes encoding one 5-byte group, most significant
/// bits first.
pub open spec fn b32_encode5(b: Seq<u8>) -> Seq<u8> {
    let b0 = b[0];
    let b1 = b[1];
    let b2 = b[2];
    let b3 = b[3];
    let b4 = b[4];
    seq![
        b32_char((b0 >> 3) as int),
        b32_char((((b0 & 0x07) << 2) | (b1 >> 6)) as int),
        b32_char(((b1 >> 1) & 0x1F) as int),
        b32_char((((b1 & 0x01) << 4) | (b2 >> 4)) as int),
        b32_char((((b2 & 0x0F) << 1) | (b3 >> 7)) as int),
        b32_char(((b3 >> 2) & 0x1F) as int),
        b32_char((((b3 & 0x03) << 3) | (b4 >> 5)) as int),
        b32_char((b4 & 0x1F) as int),
    ]
}

/// Base32 encoding of a byte sequence whose length is a multiple of 5.
pub open spec fn b32_encode(data: Seq<u8>) -> Seq<u8>
    decreases data.len(),
{
    if data.len() < 5 {
        Seq::empty()
    } else {
        b32_encode5(data.take(5)) + b32_encode(data.skip(5))
    }
}

/// Base32-encode a byte sequence of length divisible by 5 into alphabet
/// bytes.
fn b32_encode_bytes(data: &Vec<u8>) -> (r: Vec<u8>)
    requires
        data@.len() % 5 == 0,
    ensures
        r@ == b32_encode(data@),
        r@.len() == 8 * (data@.len() / 5),
        forall|t: int| 0 <= t < r@.len() ==> 50 <= #[trigger] r@[t] <= 90,
{
    let n = data.len();
    let mut r: Vec<u8> = Vec::new();
    let mut i: usize = 0;
    proof {
        assert(data@.skip(0) =~= data@);
    }
    while i < n
        invariant
            i <= n,
            i % 5 == 0,
            n == data@.len(),
            n % 5 == 0,
            b32_encode(data@) == r@ + b32_encode(data@.skip(i as int)),
            r@.len() == 8 * (i / 5),
            forall|t: int| 0 <= t < r@.len() ==> 50 <= #[trigger] r@[t] <= 90,
        decreases n - i,
    {
        proof {
            assert(n - i >= 5) by {
                assert(i % 5 == 0 && n % 5 == 0 && i < n);
            }
        }
        let b0 = data[i];
        let b1 = data[i + 1];
        let b2 = data[i + 2];
        let b3 = data[i + 3];
        let b4 = data[i + 4];
        assert(b0 >> 3 < 32 && ((b0 & 0x07) << 2) | (b1 >> 6) < 32 && (b1 >> 1) & 0x1F < 32 && ((b1
            & 0x01) << 4) | (b2 >> 4) < 32 && ((b2 & 0x0F) << 1) | (b3 >> 7) < 32 && (b3 >> 2)
            & 0x1F < 32 && ((b3 & 0x03) << 3) | (b4 >> 5) < 32 && b4 & 0x1F < 32) by (bit_vector);
        let ghost r_before = r@;
        r.push(b32_char_of(b0 >> 3));
        r.push(b32_char_of(((b0 & 0x07) << 2) | (b1 >> 6)));
        r.push(b32_char_of((b1 >> 1) & 0x1F));
        r.push(b32_char_of(((b1 & 0x01) << 4) | (b2 >> 4)));
        r.push(b32_char_of(((b2 & 0x0F) << 1) | (b3 >> 7)));
        r.push(b32_char_of((b3 >> 2) & 0x1F));
        r.push(b32_char_of(((b3 & 0x03) << 3) | (b4 >> 5)));
        r.push(b32_char_of(b4 & 0x1F));
        proof {
            let rest = data@.skip(i as int);
            assert(rest.take(5) =~= data@.subrange(i as int, i + 5));
            assert(rest.skip(5) =~= data@.skip(i + 5));
            assert(r@ =~= r_before + b32_encode5(rest.take(5)));
            assert(b32_encode(rest) == b32_encode5(rest.take(5)) + b32_encode(rest.skip(5)));
            assert(b32_encode(data@) == r@ + b32_encode(data@.skip(i + 5)));
        }
        i = i + 5;
    }
    proof {
        assert(data@.skip(n as int).len() == 0);
        assert(b32_encode(data@) =~= r@);
    }
    r
}

/// Converts verified ASCII bytes into a `String`.
///
/// Relies on `String::from_utf8`: ASCII bytes are valid UTF-8 and decode
/// to the characters with the same code points.
#[verifier::external_body]
fn ascii_to_string(bytes: &Vec<u8>) -> (r: String)
    requires
        forall|i: int| 0 <= i < bytes@.len() ==> bytes@[i] < 128,
    ensures
        r@.len() == bytes@.len(),
        forall|i: int| 0 <= i < bytes@.len() ==> r@[i] == bytes@[i] as char,
{
    String::from_utf8(bytes.clone()).unwrap()
}

/// The 35-byte address payload of a public key: version byte, key, and
/// little-endian CRC-16/XMODEM checksum of the first 33 bytes.
pub open spec fn spec_address_payload(pk: Seq<u8>) -> Seq<u8> {
    let body = seq![ACCOUNT_VERSION_BYTE] + pk;
    body + seq![(spec_crc16(body) & 0xFF) as u8, (spec_crc16(body) >> 8) as u8]
}

/// The 56-character account address of a 32-byte public key.
pub open spec fn spec_encode_stellar_address(pk: Seq<u8>) -> Seq<char> {
    b32_encode(spec_address_payload(pk)).map_values(|b: u8| b as char)
}

/// Encode a 32-byte ed25519 public key as a 56-character account
/// address.
pub fn encode_stellar_address(public_key: &[u8; 32]) -> (r: String)
    ensures
        r@ == spec_encode_stellar_address(public_key@),
        r@.len() == 56,
{
    let mut data: Vec<u8> = Vec::new();
    data.push(ACCOUNT_VERSION_BYTE);
    let mut i: usize = 0;
    while i < 32
        invariant
            i <= 32,
            data@.len() == i + 1,
            data@[0] == ACCOUNT_VERSION_BYTE,
            forall|t: int| 0 <= t < i ==> data@[t + 1] == public_key@[t],
        decreases 32 - i,
    {
        data.push(public_key[i]);
        i = i + 1;
    }
    proof {
        assert(data@ =~= seq![ACCOUNT_VERSION_BYTE] + public_key@);
    }
    let checksum = crc16_xmodem(data.as_slice());
    data.push((checksum & 0xFF) as u8);
    data.push((checksum >> 8) as u8);
    proof {
        assert(data@ =~= spec_address_payload(public_key@));
        assert(data@.len() == 35);
    }
    let encoded = b32_encode_bytes(&data);
    let r = ascii_to_string(&encoded);
    proof {
        assert(r@ =~= spec_encode_stellar_address(public_key@));
    }
    r
}

/// The five bytes decoded from one full group of eight 5-bit values.
pub open spec fn b32_decode8(v: Seq<u8>) -> Seq<u8> {
    seq![
        (v[0] << 3) | (v[1] >> 2),
        ((v[1] & 0x03) << 6) | (v[2] << 1) | (v[3] >> 4),
        ((v[3] & 0x0F) << 4) | (v[4] >> 1),
        ((v[4] & 0x01) << 7) | (v[5] << 2) | (v[6] >> 3),
        ((v[6] & 0x07) << 5) | v[7],
    ]
}

/// The bytes decoded from a trailing group of fewer than eight 5-bit
/// values: a byte is produced whenever eight more bits are available.
pub open spec fn b32_decode_tail(v: Seq<u8>) -> Seq<u8> {
    if v.len() < 2 {
        Seq::empty()
    } else {
        let o1 = seq![(v[0] << 3) | (v[1] >> 2)];
        if v.len() < 4 {
            o1
        } else {
            let o2 = o1 + seq![((v[1] & 0x03) << 6) | (v[2] << 1) | (v[3] >> 4)];
            if v.len() < 5 {
                o2
            } else {
                let o3 = o2 + seq![((v[3] & 0x0F) << 4) | (v[4] >> 1)];
                if v.len() < 7 {
                    o3
                } else {
                    o3 + seq![((v[4] & 0x01) << 7) | (v[5] << 2) | (v[6] >> 3)]
                }
            }
        }
    }
}

/// The bytes decoded from a sequence of 5-bit values.
pub open spec fn b32_decode_vals(v: Seq<u8>) -> Seq<u8>
    decreases v.len(),
{
    if v.len() >= 8 {
        b32_decode8(v.take(8)) + b32_decode_vals(v.skip(8))
    } else {
        b32_decode_tail(v)
    }
}

/// Input bytes with trailing padding bytes (`=`) removed.
pub open spec fn strip_padding(s: Seq<u8>) -> Seq<u8>
    decreases s.len(),
{
    if s.len() > 0 && s.last() == 61 {
        strip_padding(s.drop_last())
    } else {
        s
    }
}

/// Whether every byte belongs to the base32 alphabet.
pub open spec fn all_b32(s: Seq<u8>) -> bool {
    forall|i: int| 0 <= i < s.len() ==> is_b32_byte(#[trigger] s[i])
}

/// Base32 decoding of a byte string: strip trailing padding, reject any
/// byte outside the alphabet, and regroup the 5-bit values into bytes.
pub open spec fn spec_b32_decode(s: Seq<u8>) -> Option<Seq<u8>> {
    let t = strip_padding(s);
    if all_b32(t) {
        Some(b32_decode_vals(t.map_values(|c: u8| b32_val(c))))
    } else {
        None
    }
}

proof fn lemma_strip_padding_take(s: Seq<u8>, end: int)
    requires
        0 <= end <= s.len(),
        forall|t: int| end <= t < s.len() ==> s[t] == 61,
        end > 0 ==> s[end - 1] != 61,
    ensures
        strip_padding(s) == s.take(end),
    decreases s.len(),
{
    if s.len() == end {
        assert(s.take(end) =~= s);
    } else {
        assert(s.last() == 61);
        assert(s.drop_last() =~= s.take(s.len() - 1));
        lemma_strip_padding_take(s.take(s.len() - 1), end);
        assert(s.take(s.len() - 1).take(end) =~= s.take(end));
    }
}

/// Decode the 5-bit values of one full group, pushing five bytes.
fn decode_group8(vals: &Vec<u8>, i: usize, out: &mut Vec<u8>)
    requires
        i + 8 <= vals@.len(),
        forall|t: int| 0 <= t < vals@.len() ==> #[trigger] vals@[t] < 32,
    ensures
        final(out)@ == old(out)@ + b32_decode8(vals@.subrange(i as int, i + 8)),
{
    let n = vals.len();
    let v0 = vals[i];
    let v1 = vals[i + 1];
    let v2 = vals[i + 2];
    let v3 = vals[i + 3];
    let v4 = vals[i + 4];
    let v5 = vals[i + 5];
    let v6 = vals[i + 6];
    let v7 = vals[i + 7];
    out.push((v0 << 3) | (v1 >> 2));
    out.push(((v1 & 0x03) << 6) | (v2 << 1) | (v3 >> 4));
    out.push(((v3 & 0x0F) << 4) | (v4 >> 1));
    out.push(((v4 & 0x01) << 7) | (v5 << 2) | (v6 >> 3));
    out.push(((v6 & 0x07) << 5) | v7);
    proof {
        let w = vals@.subrange(i as int, i + 8);
        assert(w[0] == v0 && w[1] == v1 && w[2] == v2 && w[3] == v3 && w[4] == v4 && w[5] == v5
            && w[6] == v6 && w[7] == v7);
        assert(out@ =~= old(out)@ + b32_decode8(w));
    }
}

/// Regroup 5-bit values into bytes.
fn decode_vals(vals: &Vec<u8>) -> (r: Vec<u8>)
    requires
        forall|t: int| 0 <= t < vals@.len() ==> #[trigger] vals@[t] < 32,
    ensures
        r@ == b32_decode_vals(vals@),
{
    let n = vals.len();
    let mut out: Vec<u8> = Vec::new();
    let mut i: usize = 0;
    proof {
        assert(vals@.skip(0) =~= vals@);
    }
    while n - i >= 8
        invariant
            i <= n,
            n == vals@.len(),
            forall|t: int| 0 <= t < vals@.len() ==> #[trigger] vals@[t] < 32,
            b32_decode_vals(vals@) == out@ + b32_decode_vals(vals@.skip(i as int)),
        decreases n - i,
    {
        let ghost rest = vals@.skip(i as int);
        decode_group8(vals, i, &mut out);
        proof {
            assert(rest.take(8) =~= vals@.subrange(i as int, i + 8));
            assert(rest.skip(8) =~= vals@.skip(i + 8));
            assert(b32_decode_vals(rest) == b32_decode8(rest.take(8)) + b32_decode_vals(
                rest.skip(8),
            ));
            assert(b32_decode_vals(vals@) == out@ + b32_decode_vals(vals@.skip(i + 8)));
        }
        i = i + 8;
    }
    let ghost tail = vals@.skip(i as int);
    proof {
        assert(tail.len() == n - i < 8);
        assert(b32_decode_vals(tail) == b32_decode_tail(tail));
    }
    let rem = n - i;
    if rem >= 2 {
        out.push((vals[i] << 3) | (vals[i + 1] >> 2));
    }
    if rem >= 4 {
        out.push(((vals[i + 1] & 0x03) << 6) | (vals[i + 2] << 1) | (vals[i + 3] >> 4));
    }
    if rem >= 5 {
        out.push(((vals[i + 3] & 0x0F) << 4) | (vals[i + 4] >> 1));
    }
    if rem >= 7 {
        out.push(((vals[i + 4] & 0x01) << 7) | (vals[i + 5] << 2) | (vals[i + 6] >> 3));
    }
    proof {
        assert(forall|t: int| 0 <= t < tail.len() ==> tail[t] == vals@[i + t]);
        assert(out@ =~= b32_decode_vals(vals@));
    }
    out
}

/// RFC 4648 base32 decode without padding (alphabet A-Z, 2-7); trailing
/// `=` is ignored, and any other byte outside the alphabet rejects the
/// input.
pub fn base32_decode(input: &str) -> (r: Option<Vec<u8>>)
    ensures
        match spec_b32_decode(input.spec_bytes()) {
            Some(out) => r matches Some(v) && v@ == out,
            None => r is None,
        },
{
    let bytes = input.as_bytes();
    let n = bytes.len();
    let mut end = n;
    while end > 0 && bytes[end - 1] == 61
        invariant
            end <= n,
            n == bytes@.len(),
            forall|t: int| end <= t < n ==> bytes@[t] == 61,
        decreases end,
    {
        end = end - 1;
    }
    proof {
        lemma_strip_padding_take(bytes@, end as int);
    }
    let ghost stripped = bytes@.take(end as int);
    let mut vals: Vec<u8> = Vec::new();
    let mut i: usize = 0;
    while i < end
        invariant
            i <= end,
            end <= bytes@.len(),
            bytes@ == input.spec_bytes(),
            stripped == bytes@.take(end as int),
            strip_padding(input.spec_bytes()) == stripped,
            vals@.len() == i,
            forall|t: int| 0 <= t < i ==> is_b32_byte(#[trigger] stripped[t]),
            forall|t: int| 0 <= t < i ==> #[trigger] vals@[t] == b32_val(stripped[t]),
            forall|t: int| 0 <= t < i ==> #[trigger] vals@[t] < 32,
        decreases end - i,
    {
        match b32_val_of(bytes[i]) {
            Some(v) => {
                vals.push(v);
            },
            None => {
                proof {
                    assert(!is_b32_byte(stripped[i as int]));
                    assert(!all_b32(stripped));
                }
                return None;
            },
        }
        i = i + 1;
    }
    proof {
        assert(all_b32(stripped));
        assert(vals@ =~= stripped.map_values(|c: u8| b32_val(c)));
    }
    Some(decode_vals(&vals))
}

/// A base32 encoding has eight characters for every five input bytes.
pub proof fn lemma_b32_encode_len(data: Seq<u8>)
    requires
        data.len() % 5 == 0,
    ensures
        b32_encode(data).len() == 8 * (data.len() / 5),
    decreases data.len(),
{
    if data.len() >= 5 {
        lemma_b32_encode_len(data.skip(5));
    }
}

/// Every byte of a base32 encoding belongs to the alphabet.
pub proof fn lemma_b32_encode_alphabet(data: Seq<u8>)
    requires
        data.len() % 5 == 0,
    ensures
        all_b32(b32_encode(data)),
    decreases data.len(),
{
    if data.len() >= 5 {
        let b = data.take(5);
        let b0 = b[0];
        let b1 = b[1];
        let b2 = b[2];
        let b3 = b[3];
        let b4 = b[4];
        assert(b0 >> 3 < 32 && ((b0 & 0x07) << 2) | (b1 >> 6) < 32 && (b1 >> 1) & 0x1F < 32 && ((b1
            & 0x01) << 4) | (b2 >> 4) < 32 && ((b2 & 0x0F) << 1) | (b3 >> 7) < 32 && (b3 >> 2)
            & 0x1F < 32 && ((b3 & 0x03) << 3) | (b4 >> 5) < 32 && b4 & 0x1F < 32) by (bit_vector);
        lemma_b32_encode_alphabet(data.skip(5));
        let s = b32_encode(data);
        assert forall|i: int| 0 <= i < s.len() implies is_b32_byte(#[trigger] s[i]) by {
            if i < 8 {
                assert(s[i] == b32_encode5(b)[i]);
            } else {
                assert(s[i] == b32_encode(data.skip(5))[i - 8]);
            }
        }
    }
}

/// Decoding the eight 5-bit values of an encoded 5-byte group yields the
/// group back.
pub proof fn lemma_b32_round_trip_vals(data: Seq<u8>)
    requires
        data.len() % 5 == 0,
    ensures
        b32_decode_vals(b32_encode(data).map_values(|c: u8| b32_val(c))) == data,
    decreases data.len(),
{
    let s = b32_encode(data);
    let vals = s.map_values(|c: u8| b32_val(c));
    if data.len() == 0 {
        assert(b32_decode_vals(vals) =~= data);
    } else {
        let b = data.take(5);
        let b0 = b[0];
        let b1 = b[1];
        let b2 = b[2];
        let b3 = b[3];
        let b4 = b[4];
        let head = b32_encode5(b);
        let rest = b32_encode(data.skip(5));
        assert(s == head + rest);
        let hv = head.map_values(|c: u8| b32_val(c));
        let rv = rest.map_values(|c: u8| b32_val(c));
        assert(vals =~= hv + rv);
        assert(b0 >> 3 < 32 && ((b0 & 0x07) << 2) | (b1 >> 6) < 32 && (b1 >> 1) & 0x1F < 32 && ((b1
            & 0x01) << 4) | (b2 >> 4) < 32 && ((b2 & 0x0F) << 1) | (b3 >> 7) < 32 && (b3 >> 2)
            & 0x1F < 32 && ((b3 & 0x03) << 3) | (b4 >> 5) < 32 && b4 & 0x1F < 32) by (bit_vector);
        assert(hv =~= seq![
            b0 >> 3,
            ((b0 & 0x07) << 2) | (b1 >> 6),
            (b1 >> 1) & 0x1F,
            ((b1 & 0x01) << 4) | (b2 >> 4),
            ((b2 & 0x0F) << 1) | (b3 >> 7),
            (b3 >> 2) & 0x1F,
            ((b3 & 0x03) << 3) | (b4 >> 5),
            b4 & 0x1F,
        ]);
        assert(vals.take(8) =~= hv);
        assert(vals.skip(8) =~= rv);
        assert({
            &&& ((b0 >> 3) << 3) | ((((b0 & 0x07) << 2) | (b1 >> 6)) >> 2) == b0
            &&& (((((b0 & 0x07) << 2) | (b1 >> 6)) & 0x03) << 6) | (((b1 >> 1) & 0x1F) << 1) | ((((
            b1 & 0x01) << 4) | (b2 >> 4)) >> 4) == b1
            &&& (((((b1 & 0x01) << 4) | (b2 >> 4)) & 0x0F) << 4) | ((((b2 & 0x0F) << 1) | (b3
                >> 7)) >> 1) == b2
            &&& (((((b2 & 0x0F) << 1) | (b3 >> 7)) & 0x01) << 7) | (((b3 >> 2) & 0x1F) << 2) | ((((
            b3 & 0x03) << 3) | (b4 >> 5)) >> 3) == b3
            &&& (((((b3 & 0x03) << 3) | (b4 >> 5)) & 0x07) << 5) | (b4 & 0x1F) == b4
        }) by (bit_vector);
        assert(b32_decode8(hv) =~= b);
        lemma_b32_round_trip_vals(data.skip(5));
        assert(b32_decode_vals(vals) == b32_decode8(vals.take(8)) + b32_decode_vals(vals.skip(8)));
        assert(b32_decode_vals(vals) =~= b + data.skip(5));
        assert(b + data.skip(5) =~= data);
    }
}

/// Why an account address fails to decode.
#[derive(Clone, Copy, PartialEq, Eq, Structural, Debug)]
pub enum AddressDecodeError {
    /// Not 56 characters starting with `G`.
    BadFormat,
    /// A character outside the base32 alphabet.
    BadEncoding,
    /// The base32 payload is not 35 bytes.
    BadLength,
    /// The payload's version byte is not the account version.
    BadVersion,
    /// The payload's checksum does not match its body.
    BadChecksum,
}

/// The little-endian 16-bit value of the payload's two checksum bytes.
pub open spec fn payload_checksum(d: Seq<u8>) -> u16 {
    (d[33] as u16) | ((d[34] as u16) << 8)
}

/// Decoding of an account address to its 32-byte public key, with the
/// exact reason when it fails.
pub open spec fn spec_decode_stellar_address(s: Seq<u8>) -> Result<Seq<u8>, AddressDecodeError> {
    if s.len() != 56 || s[0] != 71 {
        Err(AddressDecodeError::BadFormat)
    } else {
        match spec_b32_decode(s) {
            None => Err(AddressDecodeError::BadEncoding),
            Some(d) => if d.len() != 35 {
                Err(AddressDecodeError::BadLength)
            } else if d[0] != ACCOUNT_VERSION_BYTE {
                Err(AddressDecodeError::BadVersion)
            } else if spec_crc16(d.take(33)) != payload_checksum(d) {
                Err(AddressDecodeError::BadChecksum)
            } else {
                Ok(d.subrange(1, 33))
            },
        }
    }
}

/// Decode a G... account address to its 32-byte ed25519 public key,
/// validating format, alphabet, version byte, and checksum.
pub fn decode_stellar_address(address: &str) -> (r: Result<Vec<u8>, AddressDecodeError>)
    ensures
        match spec_decode_stellar_address(address.spec_bytes()) {
            Ok(pk) => r matches Ok(v) && v@ == pk && v@.len() == 32,
            Err(e) => r == Err::<Vec<u8>, AddressDecodeError>(e),
        },
{
    let bytes = address.as_bytes();
    if bytes.len() != 56 || bytes[0] != 71 {
        return Err(AddressDecodeError::BadFormat);
    }
    let decoded = match base32_decode(address) {
        Some(d) => d,
        None => { return Err(AddressDecodeError::BadEncoding); },
    };
    if decoded.len() != 35 {
        return Err(AddressDecodeError::BadLength);
    }
    if decoded[0] != ACCOUNT_VERSION_BYTE {
        return Err(AddressDecodeError::BadVersion);
    }
    let body = vstd::slice::slice_subrange(decoded.as_slice(), 0, 33);
    let expected = crc16_xmodem(body);
    let actual = (decoded[33] as u16) | ((decoded[34] as u16) << 8);
    if expected != actual {
        return Err(AddressDecodeError::BadChecksum);
    }
    let pk = vstd::slice::slice_to_vec(vstd::slice::slice_subrange(decoded.as_slice(), 1, 33));
    proof {
        assert(decoded@.take(33) =~= decoded@.subrange(0, 33));
    }
    Ok(pk)
}


/// Law: decoding an encoded account address recovers the original
/// public key.  For every 32-byte key, `encode_stellar_address` produces
/// a string whose decoding succeeds and returns exactly that key.
pub proof fn lemma_address_round_trip(pk: Seq<u8>)
    requires
        pk.len() == 32,
    ensures
        spec_decode_stellar_address(
            vstd::utf8::encode_utf8(spec_encode_stellar_address(pk)),
        ) == Ok::<Seq<u8>, AddressDecodeError>(pk),
{
    let payload = spec_address_payload(pk);
    assert(payload.len() == 35);
    let s = b32_encode(payload);
    lemma_b32_encode_len(payload);
    assert(s.len() == 56);
    lemma_b32_encode_alphabet(payload);

    let chars = spec_encode_stellar_address(pk);
    assert(chars.len() == 56);
    assert(vstd::utf8::is_ascii_chars(chars)) by {
        assert forall|i: int| 0 <= i < chars.len() implies '\0' <= #[trigger] chars[i]
            <= '\u{7f}' by {
            assert(is_b32_byte(s[i]));
            assert(chars[i] == s[i] as char);
        }
    }
    vstd::utf8::is_ascii_chars_encode_utf8(chars);
    let bytes = vstd::utf8::encode_utf8(chars);
    assert(bytes =~= s) by {
        assert forall|i: int| 0 <= i < s.len() implies bytes[i] == s[i] by {
            assert(is_b32_byte(s[i]));
            assert(chars[i] == s[i] as char);
            assert(chars[i] as u8 == bytes[i]);
        }
    }

    assert(s == b32_encode5(payload.take(5)) + b32_encode(payload.skip(5)));
    assert(payload.take(5)[0] == payload[0]);
    assert(payload[0] == ACCOUNT_VERSION_BYTE);
    assert(48u8 >> 3 == 6) by (bit_vector);
    assert(s[0] == b32_char(6));
    assert(bytes[0] == 71);

    assert(is_b32_byte(s[55]));
    assert(bytes.last() != 61);
    assert(strip_padding(bytes) == bytes);
    assert(all_b32(bytes));

    lemma_b32_round_trip_vals(payload);
    assert(bytes.map_values(|c: u8| b32_val(c)) =~= s.map_values(|c: u8| b32_val(c)));
    let d = b32_decode_vals(bytes.map_values(|c: u8| b32_val(c)));
    assert(d == payload);
    assert(spec_b32_decode(bytes) == Some(d));

    let body = seq![ACCOUNT_VERSION_BYTE] + pk;
    assert(payload.take(33) =~= body);
    let c = spec_crc16(body);
    assert(payload[33] == (c & 0xFF) as u8);
    assert(payload[34] == (c >> 8) as u8);
    assert((((c & 0xFF) as u8) as u16) | ((((c >> 8) as u8) as u16) << 8) == c) by (bit_vector);
    assert(payload_checksum(d) == c);
    assert(spec_crc16(d.take(33)) == payload_checksum(d));
    assert(d.subrange(1, 33) =~= pk);
}

} // verus!
