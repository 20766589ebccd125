use vstd::prelude::*;
use vstd::string::*;
use crate::Chain;

verus! {

broadcast use vstd::utf8::char_u32_cast, vstd::utf8::char_is_scalar, vstd::string::is_ascii_spec_bytes;

pub open spec fn spec_is_hex_digit(c: char) -> bool {
    ('0' <= c && c <= '9') || ('a' <= c && c <= 'f') || ('A' <= c && c <= 'F')
}

/// A syntactically valid Ethereum address: `0x` followed by exactly 40
/// hexadecimal digits.
pub open spec fn spec_valid_eth_address(s: Seq<char>) -> bool {
    &&& s.len() == 42
    &&& s[0] == '0'
    &&& s[1] == 'x'
    &&& forall|i: int| 2 <= i < 42 ==> spec_is_hex_digit(#[trigger] s[i])
}

/// Membership in the 58-character Bitcoin base-58 alphabet
/// (`0`, `I`, `O` and `l` are excluded).
pub open spec fn spec_is_base58_char(c: char) -> bool {
    ||| ('1' <= c && c <= '9')
    ||| ('A' <= c && c <= 'H')
    ||| ('J' <= c && c <= 'N')
    ||| ('P' <= c && c <= 'Z')
    ||| ('a' <= c && c <= 'k')
    ||| ('m' <= c && c <= 'z')
}

/// A syntactically valid Solana address: 32 to 44 base-58 characters.
pub open spec fn spec_valid_solana_address(s: Seq<char>) -> bool {
    &&& 32 <= s.len() <= 44
    &&& forall|i: int| 0 <= i < s.len() ==> spec_is_base58_char(#[trigger] s[i])
}

/// Relies on `bs58::decode` with its default (Bitcoin) alphabet:
/// decoding into a vector succeeds exactly when every character of the
/// input is one of the 58 alphabet characters (a byte outside ASCII or
/// outside the alphabet's decode table is the only error the vector
/// path can produce).
#[verifier::external_body]
fn base58_check(s: &str) -> (ok: bool)
    ensures
        ok == forall|i: int| 0 <= i < s@.len() ==> spec_is_base58_char(#[trigger] s@[i]),
{
    bs58::decode(s).into_vec().is_ok()
}

fn is_hex_digit(c: char) -> (r: bool)
    ensures
        r == spec_is_hex_digit(c),
{
    ('0' <= c && c <= '9') || ('a' <= c && c <= 'f') || ('A' <= c && c <= 'F')
}

/// Checks the Ethereum address format: `0x` plus 40 hex digits.
pub fn is_valid_ethereum_address(address: &str) -> (valid: bool)
    ensures
        valid == spec_valid_eth_address(address@),
{
    let n = address.unicode_len();
    if n != 42 {
        return false;
    }
    if address.get_char(0) != '0' || address.get_char(1) != 'x' {
        return false;
    }
    let mut i: usize = 2;
    while i < 42
        invariant
            2 <= i <= 42,
            address@.len() == 42,
            forall|j: int| 2 <= j < i ==> spec_is_hex_digit(#[trigger] address@[j]),
        decreases 42 - i,
    {
        if !is_hex_digit(address.get_char(i)) {
            return false;
        }
        i += 1;
    }
    true
}

/// Checks the Solana address format: 32 to 44 base-58 characters.
pub fn is_valid_solana_address(address: &str) -> (valid: bool)
    ensures
        valid == spec_valid_solana_address(address@),
{
    if !base58_check(address) {
        return false;
    }
    let n = address.unicode_len();
    32 <= n && n <= 44
}

pub open spec fn spec_lower_char(c: char) -> char {
    if 'A' <= c && c <= 'Z' {
        (((c as u8) + 32) as u8) as char
    } else {
        c
    }
}

pub open spec fn spec_lower(s: Seq<char>) -> Seq<char> {
    Seq::new(s.len(), |i: int| spec_lower_char(s[i]))
}

/// The canonical display form of an address: Ethereum addresses are
/// lower-cased (hex digits are case-insensitive), Solana addresses are
/// returned unchanged (base 58 is case-sensitive).
pub open spec fn spec_format_address(s: Seq<char>, chain: Chain) -> Seq<char> {
    match chain {
        Chain::Ethereum => spec_lower(s),
        Chain::Solana => s,
    }
}

/// Relies on `String::from_utf8`: decoding bytes below 128 is UTF-8
/// decoding of ASCII, which maps each byte to the character with the
/// same code point and cannot fail.
#[verifier::external_body]
fn ascii_to_string(bytes: Vec<u8>) -> (r: String)
    requires
        forall|i: int| 0 <= i < bytes@.len() ==> bytes@[i] < 128,
    ensures
        r@ == bytes@.map(|_i: int, b: u8| b as char),
{
    match String::from_utf8(bytes) {
        Ok(s) => s,
        Err(_) => String::new(),
    }
}

/// Lower-cases Ethereum addresses and leaves Solana addresses as they
/// are.  Addresses of both chains are ASCII; the requirement makes the
/// byte-wise lowering exact.
pub fn format_address(address: &str, chain: Chain) -> (r: String)
    requires
        address.is_ascii(),
    ensures
        r@ == spec_format_address(address@, chain),
{
    match chain {
        Chain::Solana => address.to_owned(),
        Chain::Ethereum => {
            proof {
                assert(address.spec_bytes() =~= Seq::new(
                    address@.len(),
                    |i: int| address@[i] as u8,
                ));
            }
            let bytes = address.as_bytes_vec();
            let n = bytes.len();
            let mut out: Vec<u8> = Vec::new();
            let mut i: usize = 0;
            while i < n
                invariant
                    address.is_ascii(),
                    i <= n,
                    n == bytes@.len(),
                    bytes@ == Seq::new(address@.len(), |k: int| address@[k] as u8),
                    out@.len() == i,
                    forall|j: int| 0 <= j < i ==> #[trigger] out@[j] == spec_lower_char(
                        address@[j],
                    ) as u8,
                    forall|j: int| 0 <= j < i ==> #[trigger] out@[j] < 128,
                decreases n - i,
            {
                let b = bytes[i];
                let lb: u8 = if 65 <= b && b <= 90 {
                    b + 32
                } else {
                    b
                };
                proof {
                    let c = address@[i as int];
                    assert(n == address@.len());
                    assert(vstd::utf8::is_ascii_chars(address@));
                    assert('\0' <= c <= '\u{7f}');
                    assert((c as u32) < 128);
                    assert(b == c as u8);
                    assert(b < 128);
                    if 65 <= b && b <= 90 {
                        assert('A' <= c && c <= 'Z');
                        assert(spec_lower_char(c) == ((b + 32) as u8) as char);
                        assert(spec_lower_char(c) as u8 == lb);
                    } else {
                        assert(!('A' <= c && c <= 'Z'));
                        assert(spec_lower_char(c) == c);
                        assert(spec_lower_char(c) as u8 == lb);
                    }
                    assert(lb < 128);
                }
                out.push(lb);
                i += 1;
            }
            let r = ascii_to_string(out);
            proof {
                assert forall|j: int| 0 <= j < address@.len() implies r@[j] == spec_lower_char(
                    address@[j],
                ) by {
                    assert(r@[j] == (spec_lower_char(address@[j]) as u8) as char);
                }
                assert(r@ =~= spec_lower(address@));
            }
            r
        },
    }
}

/// The numeric value of one hexadecimal digit.
pub open spec fn spec_hex_digit_val(c: char) -> int {
    if '0' <= c && c <= '9' {
        (c as u32) - ('0' as u32)
    } else if 'a' <= c && c <= 'f' {
        (c as u32) - ('a' as u32) + 10
    } else if 'A' <= c && c <= 'F' {
        (c as u32) - ('A' as u32) + 10
    } else {
        0
    }
}

/// The numeric value of a big-endian string of hexadecimal digits.
pub open spec fn spec_hex_value(s: Seq<char>) -> int
    decreases s.len(),
{
    if s.len() == 0 {
        0
    } else {
        spec_hex_value(s.drop_last()) * 16 + spec_hex_digit_val(s.last())
    }
}

/// A parseable hexadecimal quantity: non-empty, digits only, and small
/// enough for 128 bits.
pub open spec fn spec_hex_parseable(s: Seq<char>) -> bool {
    &&& s.len() > 0
    &&& forall|i: int| 0 <= i < s.len() ==> spec_is_hex_digit(#[trigger] s[i])
    &&& spec_hex_value(s) <= u128::MAX
}

proof fn lemma_hex_value_nonneg(s: Seq<char>)
    ensures
        spec_hex_value(s) >= 0,
    decreases s.len(),
{
    if s.len() > 0 {
        lemma_hex_value_nonneg(s.drop_last());
        let v = spec_hex_value(s.drop_last());
        assert(v * 16 >= 0) by (nonlinear_arith)
            requires
                v >= 0,
        ;
    }
}

/// Appending digits never shrinks the value, so a prefix that already
/// exceeds the 128-bit range dooms the whole string.
proof fn lemma_hex_value_prefix(s: Seq<char>, i: int)
    requires
        0 <= i <= s.len(),
    ensures
        spec_hex_value(s.take(i)) <= spec_hex_value(s),
    decreases s.len() - i,
{
    if i < s.len() {
        lemma_hex_value_prefix(s, i + 1);
        let v = spec_hex_value(s.take(i));
        assert(s.take(i + 1).drop_last() =~= s.take(i));
        assert(spec_hex_value(s.take(i + 1)) == v * 16 + spec_hex_digit_val(s.take(i + 1).last()));
        lemma_hex_value_nonneg(s.take(i));
        assert(v * 16 + spec_hex_digit_val(s.take(i + 1).last()) >= v) by (nonlinear_arith)
            requires
                v >= 0 && spec_hex_digit_val(s.take(i + 1).last()) >= 0,
        ;
    } else {
        assert(s.take(i) =~= s);
    }
}

fn hex_digit_val(c: char) -> (r: Option<u8>)
    ensures
        r is Some <==> spec_is_hex_digit(c),
        r matches Some(v) ==> v == spec_hex_digit_val(c) && v < 16,
{
    broadcast use vstd::utf8::char_is_scalar;

    if '0' <= c && c <= '9' {
        Some(((c as u32) - ('0' as u32)) as u8)
    } else if 'a' <= c && c <= 'f' {
        Some(((c as u32) - ('a' as u32) + 10) as u8)
    } else if 'A' <= c && c <= 'F' {
        Some(((c as u32) - ('A' as u32) + 10) as u8)
    } else {
        None
    }
}

/// Reads a big-endian hexadecimal quantity (as chain RPC endpoints
/// report balances), without a `0x` prefix; `None` exactly on an empty
/// string, a non-digit, or a value beyond 128 bits.
pub fn parse_hex_u128(s: &str) -> (r: Option<u128>)
    ensures
        r is Some <==> spec_hex_parseable(s@),
        r matches Some(v) ==> v == spec_hex_value(s@),
{
    let n = s.unicode_len();
    if n == 0 {
        return None;
    }
    let mut acc: u128 = 0;
    let mut i: usize = 0;
    while i < n
        invariant
            n == s@.len(),
            i <= n,
            forall|j: int| 0 <= j < i ==> spec_is_hex_digit(#[trigger] s@[j]),
            acc == spec_hex_value(s@.take(i as int)),
        decreases n - i,
    {
        let d = match hex_digit_val(s.get_char(i)) {
            Some(d) => d,
            None => {
                return None;
            },
        };
        proof {
            assert(s@.take(i + 1).drop_last() =~= s@.take(i as int));
            assert(s@.take(i + 1).last() == s@[i as int]);
        }
        if acc >= 0x1000_0000_0000_0000_0000_0000_0000_0000 {
            proof {
                assert(spec_hex_value(s@.take(i + 1)) == acc * 16 + spec_hex_digit_val(
                    s@[i as int],
                ));
                assert(acc * 16 > u128::MAX) by (nonlinear_arith)
                    requires
                        acc >= 0x1000_0000_0000_0000_0000_0000_0000_0000u128,
                ;
                lemma_hex_value_nonneg(s@.take(i as int));
                lemma_hex_value_prefix(s@, i + 1);
            }
            return None;
        }
        proof {
            assert(acc * 16 + 15 <= u128::MAX) by (nonlinear_arith)
                requires
                    acc < 0x1000_0000_0000_0000_0000_0000_0000_0000u128,
            ;
        }
        acc = acc * 16 + (d as u128);
        i += 1;
    }
    proof {
        assert(s@.take(n as int) =~= s@);
    }
    Some(acc)
}

/// The shortened display form of an address: the first `start` and the
/// last `end` characters joined by an ellipsis; an address no longer
/// than `start + end` is returned whole.
pub open spec fn spec_truncate_address(s: Seq<char>, start: int, end: int) -> Seq<char> {
    if s.len() <= start + end {
        s
    } else {
        s.subrange(0, start) + "..."@ + s.subrange(s.len() - end, s.len() as int)
    }
}

pub fn truncate_address(address: &str, start: usize, end: usize) -> (r: String)
    ensures
        r@ == spec_truncate_address(address@, start as int, end as int),
{
    let n = address.unicode_len();
    if n <= start || n - start <= end {
        return address.to_owned();
    }
    let head = address.substring_char(0, start);
    let tail = address.substring_char(n - end, n);
    let mut r = head.to_owned();
    r.append("...");
    r.append(tail);
    r
}

} // verus!
