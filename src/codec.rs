use vstd::prelude::*;
use sp_core::crypto::Ss58Codec;

verus! {

/// Smallest units per whole token: amounts on chain carry twelve decimals.
pub const UNITS_PER_TOKEN: u128 = 1_000_000_000_000;

/// Network prefix with which account ids are rendered as addresses.
pub const ADDRESS_PREFIX: u16 = 42;

pub open spec fn is_digit(c: char) -> bool {
    '0' <= c && c <= '9'
}

pub open spec fn all_digits(s: Seq<char>) -> bool {
    forall|i: int| 0 <= i < s.len() ==> is_digit(#[trigger] s[i])
}

/// The number that a string of decimal digits denotes.
pub open spec fn decimal_value(s: Seq<char>) -> nat
    decreases s.len(),
{
    if s.len() == 0 {
        0
    } else {
        decimal_value(s.drop_last()) * 10 + (s.last() as nat - '0' as nat) as nat
    }
}

/// `s` is an amount: one or more decimal digits whose value fits in a `u128`.
pub open spec fn is_amount(s: Seq<char>) -> bool {
    s.len() > 0 && all_digits(s) && decimal_value(s) <= u128::MAX
}

proof fn lemma_decimal_value_grows(s: Seq<char>, i: int, j: int)
    requires
        0 <= i <= j <= s.len(),
        all_digits(s),
    ensures
        decimal_value(s.subrange(0, i)) <= decimal_value(s.subrange(0, j)),
    decreases j - i,
{
    if i < j {
        lemma_decimal_value_grows(s, i, j - 1);
        assert(s.subrange(0, j).drop_last() =~= s.subrange(0, j - 1));
        assert(is_digit(s[j - 1]));
    }
}

/// Parses a fixed-point amount written as a plain string of decimal digits.
pub fn parse_amount(s: &str) -> (r: Option<u128>)
    ensures
        r is Some <==> is_amount(s@),
        r matches Some(v) ==> v == decimal_value(s@),
{
    let n = s.unicode_len();
    if n == 0 {
        return None;
    }
    let mut acc: u128 = 0;
    let mut i: usize = 0;
    while i < n
        invariant
            n == s@.len(),
            0 <= i <= n,
            acc == decimal_value(s@.subrange(0, i as int)),
            all_digits(s@.subrange(0, i as int)),
        decreases n - i,
    {
        let c = s.get_char(i);
        if !('0' <= c && c <= '9') {
            proof {
                assert(!all_digits(s@));
            }
            return None;
        }
        let d = (c as u32 - '0' as u32) as u128;
        proof {
            assert(s@.subrange(0, i + 1).drop_last() =~= s@.subrange(0, i as int));
        }
        if acc > (u128::MAX - d) / 10 {
            proof {
                assert(decimal_value(s@.subrange(0, i + 1)) > u128::MAX) by (nonlinear_arith)
                    requires
                        acc > (u128::MAX - d) / 10,
                        decimal_value(s@.subrange(0, i + 1)) == acc * 10 + d,
                ;
                if all_digits(s@) {
                    lemma_decimal_value_grows(s@, i + 1, n as int);
                    assert(s@.subrange(0, n as int) =~= s@);
                }
            }
            return None;
        }
        proof {
            assert(acc * 10 + d <= u128::MAX) by (nonlinear_arith)
                requires
                    acc <= (u128::MAX - d) / 10,
                    d <= 9,
            ;
        }
        acc = acc * 10 + d;
        i = i + 1;
        proof {
            assert forall|k: int| 0 <= k < i implies is_digit(#[trigger] s@.subrange(0, i as int)[k]) by {
                if k < i - 1 {
                    assert(s@.subrange(0, i as int)[k] == s@.subrange(0, i - 1)[k]);
                }
            }
        }
    }
    proof {
        assert(s@.subrange(0, n as int) =~= s@);
    }
    Some(acc)
}

pub open spec fn is_hex_digit(c: char) -> bool {
    ('0' <= c && c <= '9') || ('a' <= c && c <= 'f') || ('A' <= c && c <= 'F')
}

pub open spec fn hex_digit_value(c: char) -> nat {
    if '0' <= c && c <= '9' {
        (c as nat - '0' as nat) as nat
    } else if 'a' <= c && c <= 'f' {
        (c as nat - 'a' as nat + 10) as nat
    } else {
        (c as nat - 'A' as nat + 10) as nat
    }
}

/// `s` is an even number of hex digits, either case.
pub open spec fn is_hex_text(s: Seq<char>) -> bool {
    s.len() % 2 == 0 && forall|i: int| 0 <= i < s.len() ==> is_hex_digit(#[trigger] s[i])
}

/// The bytes that hex text denotes, two digits per byte, high digit first.
pub open spec fn hex_bytes(s: Seq<char>) -> Seq<u8> {
    Seq::new(
        s.len() / 2,
        |i: int| (hex_digit_value(s[2 * i]) * 16 + hex_digit_value(s[2 * i + 1])) as u8,
    )
}

#[verifier::external_type_specification]
#[verifier::external_body]
pub struct ExFromHexError(hex::FromHexError);

/// Relies on hex::decode: an even number of hex digits (either case) is
/// decoded two digits per byte; any other text is an error.
#[verifier::external_body]
fn hex_decode(s: &str) -> (r: Result<Vec<u8>, hex::FromHexError>)
    ensures
        r is Ok <==> is_hex_text(s@),
        r matches Ok(b) ==> b@ == hex_bytes(s@),
{
    hex::decode(s)
}

/// The checksummed text address of a 32-byte account id under a network
/// prefix.
pub uninterp spec fn ss58_address(account: Seq<u8>, prefix: u16) -> Seq<char>;

/// Relies on sp_core's `Ss58Codec::to_ss58check_with_version` for an
/// `AccountId32`: the address depends on the account id and prefix alone.
#[verifier::external_body]
fn ss58_encode(account: &Vec<u8>, prefix: u16) -> (r: String)
    requires
        account@.len() == 32,
    ensures
        r@ == ss58_address(account@, prefix),
{
    let mut bytes = [0u8; 32];
    bytes.copy_from_slice(account.as_slice());
    sp_core::crypto::AccountId32::from(bytes)
        .to_ss58check_with_version(sp_core::crypto::Ss58AddressFormat::custom(prefix))
}

/// `s` is a two-character prefix followed by the hex text of a 32-byte
/// account id.
pub open spec fn is_prefixed_account(s: Seq<char>) -> bool {
    s.len() == 66 && is_hex_text(s.subrange(2, s.len() as int))
}

/// The address that prefixed hex account text decodes to.
pub open spec fn address_of(s: Seq<char>) -> Seq<char> {
    ss58_address(hex_bytes(s.subrange(2, s.len() as int)), ADDRESS_PREFIX)
}

/// Decodes a hex account id behind a two-character prefix (`0x...`) to
/// its checksummed address; `None` when the text is no such id.
pub fn decode_address(s: &str) -> (r: Option<String>)
    ensures
        r is Some <==> is_prefixed_account(s@),
        r matches Some(a) ==> a@ == address_of(s@),
{
    let n = s.unicode_len();
    if n < 2 {
        return None;
    }
    let body = s.substring_char(2, n);
    match hex_decode(body) {
        Ok(bytes) => {
            if bytes.len() != 32 {
                return None;
            }
            Some(ss58_encode(&bytes, ADDRESS_PREFIX))
        },
        Err(_) => None,
    }
}

} // verus!
