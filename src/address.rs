//! Contract addresses: twenty bytes, written as forty hex digits.

use vstd::prelude::*;

verus! {

/// A 20-byte contract address.
#[derive(Clone, Copy, Debug, PartialEq, Eq)]
pub struct Address {
    pub bytes: [u8; 20],
}

/// The value of a hex digit of either case.
pub open spec fn hex_value(c: char) -> Option<u8> {
    if '0' <= c && c <= '9' {
        Some((c as u32 - '0' as u32) as u8)
    } else if 'a' <= c && c <= 'f' {
        Some((c as u32 - 'a' as u32 + 10) as u8)
    } else if 'A' <= c && c <= 'F' {
        Some((c as u32 - 'A' as u32 + 10) as u8)
    } else {
        None
    }
}

/// `s` without a leading `0x` or `0X`.
pub open spec fn strip_hex_prefix(s: Seq<char>) -> Seq<char> {
    if s.len() >= 2 && s[0] == '0' && (s[1] == 'x' || s[1] == 'X') {
        s.subrange(2, s.len() as int)
    } else {
        s
    }
}

/// `s` is an address: after an optional `0x` prefix, exactly forty hex digits.
pub open spec fn is_address_text(s: Seq<char>) -> bool {
    let h = strip_hex_prefix(s);
    h.len() == 40 && forall|i: int| 0 <= i < 40 ==> (#[trigger] hex_value(h[i])) is Some
}

/// The bytes that the address text `s` stands for, two digits per byte,
/// high digit first.
pub open spec fn address_bytes(s: Seq<char>) -> Seq<u8> {
    let h = strip_hex_prefix(s);
    Seq::new(
        20,
        |i: int| (hex_value(h[2 * i])->0 * 16 + hex_value(h[2 * i + 1])->0) as u8,
    )
}

/// Relies on alloy's `Address::from_str`, which decodes with const-hex's
/// `decode_to_array`: an optional `0x` or `0X` prefix, then exactly forty hex
/// digits of either case, two per byte, high digit first; anything else is
/// an error.
#[verifier::external_body]
fn decode_address(s: &str) -> (r: Option<[u8; 20]>)
    ensures
        match r {
            Some(b) => is_address_text(s@) && b@ == address_bytes(s@),
            None => !is_address_text(s@),
        },
{
    s.parse::<alloy::primitives::Address>().ok().map(|a| a.into_array())
}

impl Address {
    /// The address written in `s`, or `None` when `s` is not an address.
    pub fn parse(s: &str) -> (r: Option<Address>)
        ensures
            match r {
                Some(a) => is_address_text(s@) && a.bytes@ == address_bytes(s@),
                None => !is_address_text(s@),
            },
    {
        match decode_address(s) {
            Some(bytes) => Some(Address { bytes }),
            None => None,
        }
    }
}

} // verus!
