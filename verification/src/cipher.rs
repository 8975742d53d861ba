//! A tiny obfuscation cipher: nibble swap plus an alternating key XOR,
//! behind a fixed header carrying the masked key.

use vstd::prelude::*;

verus! {

/// The magic header that marks an obfuscated payload.
pub open spec fn spec_header() -> Seq<u8> {
    seq![54u8, 12u8, 74u8, 124u8, 74u8, 91u8, 0u8, 80u8]
}

/// The mask the stored key is folded with.
pub const KEY_MASK: u16 = 0b0101_1101_1000_1011;

/// A byte with its nibbles swapped.
pub open spec fn spec_nswap(b: u8) -> u8 {
    (b * 0x10 % 0x100 + b / 0x10) as u8
}

/// One encrypted byte: nibble swap, then XOR with the key byte for
/// this position (the low key byte on even positions, high on odd).
pub open spec fn spec_enc_byte(b: u8, key: u16, i: int) -> u8 {
    let k: u8 = if i % 2 == 0 {
        (key % 0x100) as u8
    } else {
        (key / 0x100 % 0x100) as u8
    };
    spec_nswap(b) ^ k
}

/// One decrypted byte: XOR first, then swap the nibbles back.
pub open spec fn spec_dec_byte(b: u8, key: u16, i: int) -> u8 {
    let k: u8 = if i % 2 == 0 {
        (key % 0x100) as u8
    } else {
        (key / 0x100 % 0x100) as u8
    };
    spec_nswap(b ^ k)
}

/// The nibble-swap cipher.
pub struct Uncreative;

impl Uncreative {
    fn header() -> (r: Vec<u8>)
        ensures
            r@ == spec_header(),
    {
        let mut v: Vec<u8> = Vec::new();
        v.push(54);
        v.push(12);
        v.push(74);
        v.push(124);
        v.push(74);
        v.push(91);
        v.push(0);
        v.push(80);
        proof {
            assert(v@ =~= spec_header());
        }
        v
    }

    fn nswap(b: u8) -> (r: u8)
        ensures
            r == spec_nswap(b),
    {
        b % 0x10 * 0x10 + b / 0x10
    }

    fn key_byte(key: u16, odd: bool) -> (r: u8)
        ensures
            r == if odd {
                (key / 0x100 % 0x100) as u8
            } else {
                (key % 0x100) as u8
            },
    {
        if odd {
            (key / 0x100 % 0x100) as u8
        } else {
            (key % 0x100) as u8
        }
    }

    /// Encrypts `len` bytes of `data` under `key`: the header, the
    /// masked key little-endian, then each byte nibble-swapped and
    /// XORed with the alternating key byte. Empty input is refused.
    pub fn encrypt_data(data: &[u8], len: usize, key: u16) -> (r: Option<Vec<u8>>)
        requires
            len <= data@.len(),
        ensures
            len < 1 <==> r is None,
            r matches Some(v) ==> {
                &&& v@.len() == len + 10
                &&& v@.subrange(0, 8) == spec_header()
                &&& v@[8] == ((key ^ KEY_MASK) % 0x100) as u8
                &&& v@[9] == ((key ^ KEY_MASK) / 0x100 % 0x100) as u8
                &&& forall|i: int|
                    0 <= i < len ==> v@[10 + i] == #[trigger] spec_enc_byte(data@[i], key, i)
            },
    {
        if len < 1 {
            return None;
        }
        let mut out = Self::header();
        let masked = key ^ KEY_MASK;
        out.push((masked % 0x100) as u8);
        out.push((masked / 0x100 % 0x100) as u8);
        let mut i: usize = 0;
        while i < len
            invariant
                i <= len,
                len <= data@.len(),
                out@.len() == 10 + i,
                out@.subrange(0, 8) == spec_header(),
                out@[8] == ((key ^ KEY_MASK) % 0x100) as u8,
                out@[9] == ((key ^ KEY_MASK) / 0x100 % 0x100) as u8,
                forall|j: int|
                    0 <= j < i ==> out@[10 + j] == #[trigger] spec_enc_byte(data@[j], key, j),
            decreases len - i,
        {
            let ghost pre_out = out@;
            let k = Self::key_byte(key, i % 2 == 1);
            let e = Self::nswap(data[i]) ^ k;
            out.push(e);
            proof {
                assert(out@.subrange(0, 8) =~= pre_out.subrange(0, 8));
            }
            i = i + 1;
        }
        Some(out)
    }

    /// Decrypts a payload produced by `encrypt_data`: the header must
    /// match and the buffer must be longer than the ten framing bytes;
    /// the key is recovered from its masked form.
    pub fn decrypt_data(data: &[u8], len: usize) -> (r: Option<Vec<u8>>)
        requires
            len <= data@.len(),
        ensures
            r matches Some(v) ==> {
                &&& len > 10
                &&& data@.subrange(0, 8) == spec_header()
                &&& v@.len() == len - 10
                &&& ({
                    let key = (le16(data@[8], data@[9]) ^ KEY_MASK) as u16;
                    forall|i: int|
                        10 <= i < len ==> v@[i - 10] == #[trigger] spec_dec_byte(data@[i], key, i)
                })
            },
            r is None <==> !(len > 10 && data@.subrange(0, 8) == spec_header()),
    {
        if len <= 10 {
            return None;
        }
        let mut h: usize = 0;
        let header = Self::header();
        while h < 8
            invariant
                h <= 8,
                len > 10,
                len <= data@.len(),
                header@ == spec_header(),
                forall|j: int| 0 <= j < h ==> data@[j] == spec_header()[j],
            decreases 8 - h,
        {
            if data[h] != header[h] {
                proof {
                    assert(data@.subrange(0, 8)[h as int] == data@[h as int]);
                }
                return None;
            }
            h = h + 1;
        }
        proof {
            assert(data@.subrange(0, 8) =~= spec_header());
        }
        let key: u16 = (data[8] as u16 + data[9] as u16 * 0x100) ^ KEY_MASK;
        let mut out: Vec<u8> = Vec::new();
        let mut i: usize = 10;
        while i < len
            invariant
                10 <= i <= len,
                len <= data@.len(),
                out@.len() == i - 10,
                key == (le16(data@[8], data@[9]) ^ KEY_MASK) as u16,
                forall|j: int|
                    10 <= j < i ==> out@[j - 10] == #[trigger] spec_dec_byte(data@[j], key, j),
            decreases len - i,
        {
            let k = Self::key_byte(key, i % 2 == 1);
            out.push(Self::nswap(data[i] ^ k));
            i = i + 1;
        }
        Some(out)
    }
}

/// A little-endian 16-bit value from two bytes.
pub open spec fn le16(b0: u8, b1: u8) -> u16 {
    crate::bytes::le16(b0, b1)
}

} // verus!
