//! Byte-level encodings used when building transactions: hexadecimal text,
//! the 32-byte big-endian argument word of a contract call, and the 4-byte
//! function selector.

use vstd::prelude::*;

verus! {

/// The lowercase hexadecimal digit for a nibble.
pub open spec fn hex_char_lower(v: u8) -> char {
    if v == 0 {
        '0'
    } else if v == 1 {
        '1'
    } else if v == 2 {
        '2'
    } else if v == 3 {
        '3'
    } else if v == 4 {
        '4'
    } else if v == 5 {
        '5'
    } else if v == 6 {
        '6'
    } else if v == 7 {
        '7'
    } else if v == 8 {
        '8'
    } else if v == 9 {
        '9'
    } else if v == 10 {
        'a'
    } else if v == 11 {
        'b'
    } else if v == 12 {
        'c'
    } else if v == 13 {
        'd'
    } else if v == 14 {
        'e'
    } else {
        'f'
    }
}

/// Lowercase hexadecimal text of a byte string, high nibble first.
pub open spec fn hex_of(b: Seq<u8>) -> Seq<char> {
    Seq::new(
        b.len() * 2,
        |i: int|
            if i % 2 == 0 {
                hex_char_lower(b[i / 2] / 16)
            } else {
                hex_char_lower(b[i / 2] % 16)
            },
    )
}

/// Relies on `hex::encode`: two lowercase digits per input byte, high nibble
/// first.
#[verifier::external_body]
pub(crate) fn hex_encode(data: &[u8]) -> (r: String)
    ensures
        r@ == hex_of(data@),
{
    hex::encode(data)
}

/// Whether `c` is a hexadecimal digit of either case.
pub open spec fn is_hex_digit(c: char) -> bool {
    (48 <= c as u32 <= 57) || (97 <= c as u32 <= 102) || (65 <= c as u32 <= 70)
}

/// The nibble encoded by a hexadecimal digit of either case.
pub open spec fn hex_val(c: char) -> u8 {
    if 48 <= c as u32 <= 57 {
        (c as u32 - 48) as u8
    } else if 97 <= c as u32 <= 102 {
        (c as u32 - 87) as u8
    } else if 65 <= c as u32 <= 70 {
        (c as u32 - 55) as u8
    } else {
        0
    }
}

pub open spec fn all_hex(s: Seq<char>) -> bool {
    forall|i: int| 0 <= i < s.len() ==> is_hex_digit(s[i])
}

/// The nibble of a single hexadecimal digit, or `None`.
pub fn decode_hex_digit(c: char) -> (r: Option<u8>)
    ensures
        r is Some <==> is_hex_digit(c),
        r is Some ==> r->0 == hex_val(c) && r->0 < 16,
{
    let u = c as u32;
    if 48 <= u && u <= 57 {
        Some((u - 48) as u8)
    } else if 97 <= u && u <= 102 {
        Some((u - 87) as u8)
    } else if 65 <= u && u <= 70 {
        Some((u - 55) as u8)
    } else {
        None
    }
}

/// The byte string encoded by an even-length run of hexadecimal digits.
pub open spec fn hex_bytes_of(s: Seq<char>) -> Seq<u8> {
    Seq::new(s.len() / 2, |i: int| (hex_val(s[2 * i]) * 16 + hex_val(s[2 * i + 1])) as u8)
}

/// Decodes a string of hexadecimal digits (no prefix, either case) into
/// bytes; `None` when the length is odd or a character is not a digit.
pub fn decode_hex_str(s: &str) -> (r: Option<Vec<u8>>)
    ensures
        r is Some <==> (s@.len() % 2 == 0 && all_hex(s@)),
        r is Some ==> r->0@ == hex_bytes_of(s@),
{
    let n = s.unicode_len();
    if n % 2 != 0 {
        return None;
    }
    let half = n / 2;
    let mut bytes: Vec<u8> = Vec::new();
    let mut i: usize = 0;
    while i < half
        invariant
            n == s@.len(),
            n % 2 == 0,
            half == n / 2,
            i <= half,
            bytes@.len() == i,
            forall|j: int| 0 <= j < 2 * i ==> is_hex_digit(s@[j]),
            forall|j: int| 0 <= j < i ==> bytes@[j] == hex_bytes_of(s@)[j],
        decreases half - i,
    {
        let hi = match decode_hex_digit(s.get_char(2 * i)) {
            Some(v) => v,
            None => {
                return None;
            },
        };
        let lo = match decode_hex_digit(s.get_char(2 * i + 1)) {
            Some(v) => v,
            None => {
                return None;
            },
        };
        bytes.push(hi * 16 + lo);
        i = i + 1;
    }
    proof {
        assert(bytes@ =~= hex_bytes_of(s@));
    }
    Some(bytes)
}

/// The value of a run of hexadecimal digits, most significant first.
pub open spec fn hex_digits_val(s: Seq<char>) -> int
    decreases s.len(),
{
    if s.len() == 0 {
        0
    } else {
        hex_digits_val(s.drop_last()) * 16 + hex_val(s.last())
    }
}

pub proof fn lemma_hex_digits_val_nonneg(s: Seq<char>)
    ensures
        hex_digits_val(s) >= 0,
    decreases s.len(),
{
    if s.len() > 0 {
        lemma_hex_digits_val_nonneg(s.drop_last());
    }
}

/// A digit run is worth at least any of its prefixes.
pub proof fn lemma_hex_digits_val_prefix(s: Seq<char>, k: int)
    requires
        0 <= k <= s.len(),
    ensures
        hex_digits_val(s) >= hex_digits_val(s.subrange(0, k)),
    decreases s.len(),
{
    if k == s.len() {
        assert(s.subrange(0, k) =~= s);
    } else {
        let d = s.drop_last();
        lemma_hex_digits_val_prefix(d, k);
        lemma_hex_digits_val_nonneg(d);
        assert(d.subrange(0, k) =~= s.subrange(0, k));
    }
}

/// A `0x`-prefixed hexadecimal quantity with at least one digit.
pub open spec fn valid_hex_quantity(s: Seq<char>) -> bool {
    s.len() > 2 && s[0] == '0' && s[1] == 'x' && all_hex(s.subrange(2, s.len() as int))
}

/// The value of a `0x`-prefixed quantity.
pub open spec fn hex_quantity_val(s: Seq<char>) -> int {
    hex_digits_val(s.subrange(2, s.len() as int))
}

/// Parses a `0x`-prefixed hexadecimal quantity into a `u64`; `None` when the
/// text is not such a quantity or its value does not fit.
pub fn parse_hex_u64(s: &str) -> (r: Option<u64>)
    ensures
        r is Some <==> (valid_hex_quantity(s@) && hex_quantity_val(s@) <= u64::MAX),
        r is Some ==> r->0 == hex_quantity_val(s@),
{
    let n = s.unicode_len();
    if n <= 2 {
        return None;
    }
    if s.get_char(0) != '0' || s.get_char(1) != 'x' {
        return None;
    }
    let ghost digits = s@.subrange(2, n as int);
    let mut v: u128 = 0;
    let mut i: usize = 2;
    while i < n
        invariant
            n == s@.len(),
            n > 2,
            2 <= i <= n,
            digits == s@.subrange(2, n as int),
            forall|j: int| 2 <= j < i ==> is_hex_digit(s@[j]),
            v <= u64::MAX,
            v == hex_digits_val(digits.subrange(0, i - 2)),
        decreases n - i,
    {
        let d = match decode_hex_digit(s.get_char(i)) {
            Some(d) => d,
            None => {
                proof {
                    assert(digits[i - 2] == s@[i as int]);
                }
                return None;
            },
        };
        proof {
            let pre = digits.subrange(0, i - 2 + 1);
            assert(pre.drop_last() =~= digits.subrange(0, i - 2));
            assert(pre.last() == s@[i as int]);
        }
        let next = v * 16 + (d as u128);
        if next > u64::MAX as u128 {
            proof {
                lemma_hex_digits_val_prefix(digits, i - 2 + 1);
            }
            return None;
        }
        v = next;
        i = i + 1;
    }
    proof {
        assert(digits.subrange(0, n - 2) =~= digits);
    }
    Some(v as u64)
}

/// The 32-byte big-endian word of an unsigned value, as one argument of a
/// contract call.
pub open spec fn be_word(v: u64) -> Seq<u8> {
    Seq::new(
        32,
        |i: int|
            if i < 24 {
                0u8
            } else {
                ((v >> (((31 - i) * 8) as u64)) & 0xff) as u8
            },
    )
}

/// Encodes a contract call with one unsigned argument: the 4-byte selector
/// followed by the argument as a 32-byte big-endian word.
pub fn encode_call_u64(selector: &[u8], arg: u64) -> (r: Vec<u8>)
    requires
        selector@.len() == 4,
    ensures
        r@ == selector@ + be_word(arg),
{
    let mut out: Vec<u8> = Vec::new();
    out.extend_from_slice(selector);
    let mut i: usize = 0;
    while i < 32
        invariant
            i <= 32,
            out@.len() == 4 + i,
            out@.subrange(0, 4) == selector@,
            forall|j: int| 0 <= j < i ==> out@[4 + j] == be_word(arg)[j],
        decreases 32 - i,
    {
        if i < 24 {
            out.push(0u8);
        } else {
            let sh: u64 = ((31 - i) * 8) as u64;
            out.push(((arg >> sh) & 0xff) as u8);
        }
        i = i + 1;
    }
    proof {
        assert(out@ =~= selector@ + be_word(arg));
    }
    out
}

/// What `ethers_core::utils::id` returns for a function signature: the first
/// four bytes of the Keccak-256 hash of its text.
pub uninterp spec fn selector_of(signature: Seq<char>) -> Seq<u8>;

/// Relies on `ethers_core::utils::id`: the 4-byte contract-ABI selector of a
/// function signature, a function of the signature text alone.
#[verifier::external_body]
pub(crate) fn function_selector_bytes(signature: &str) -> (r: Vec<u8>)
    ensures
        r@ == selector_of(signature@),
        r@.len() == 4,
{
    ethers_core::utils::id(signature).to_vec()
}

/// The `0x`-prefixed hexadecimal text of a raw transaction, as sent to the
/// chain endpoint.
pub fn raw_transaction_param(rlp: &[u8]) -> (r: String)
    ensures
        r@ == "0x"@ + hex_of(rlp@),
{
    let mut out = "0x".to_owned();
    let encoded = hex_encode(rlp);
    out.append(encoded.as_str());
    out
}

} // verus!
