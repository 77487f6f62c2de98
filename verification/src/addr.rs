use vstd::prelude::*;

verus! {

use crate::text::{dec_rep, hex_rep, append_dec_u8, append_hex_u16};

/// A network address the server binds to, as plain values: four octets
/// for version 4, eight 16-bit groups for version 6.
pub enum IpAddress {
    V4([u8; 4]),
    V6([u16; 8]),
}

/// Dotted-decimal text of a version-4 address.
pub open spec fn ipv4_text(octets: Seq<u8>) -> Seq<char> {
    dec_rep(octets[0] as int) + seq!['.'] + dec_rep(octets[1] as int) + seq!['.']
        + dec_rep(octets[2] as int) + seq!['.'] + dec_rep(octets[3] as int)
}

/// Colon-separated text of a version-6 address: each group in lowercase
/// hexadecimal without leading zeros, all eight groups written out.
pub open spec fn ipv6_text(groups: Seq<u16>) -> Seq<char> {
    hex_rep(groups[0] as int) + seq![':'] + hex_rep(groups[1] as int) + seq![':']
        + hex_rep(groups[2] as int) + seq![':'] + hex_rep(groups[3] as int) + seq![':']
        + hex_rep(groups[4] as int) + seq![':'] + hex_rep(groups[5] as int) + seq![':']
        + hex_rep(groups[6] as int) + seq![':'] + hex_rep(groups[7] as int)
}

/// The textual form of an address, as it appears in the certificate's
/// common name and subject alternative name.
pub open spec fn ip_text(ip: IpAddress) -> Seq<char> {
    match ip {
        IpAddress::V4(octets) => ipv4_text(octets@),
        IpAddress::V6(groups) => ipv6_text(groups@),
    }
}

/// Renders an address as text.
pub fn address_text(ip: &IpAddress) -> (r: String)
    ensures
        r@ == ip_text(*ip),
{
    proof {
        reveal_strlit(".");
        reveal_strlit(":");
    }
    let mut s = String::new();
    match ip {
        IpAddress::V4(octets) => {
            append_dec_u8(&mut s, octets[0]);
            s.append(".");
            append_dec_u8(&mut s, octets[1]);
            s.append(".");
            append_dec_u8(&mut s, octets[2]);
            s.append(".");
            append_dec_u8(&mut s, octets[3]);
            proof {
                assert(s@ =~= ipv4_text(octets@));
            }
        }
        IpAddress::V6(groups) => {
            append_hex_u16(&mut s, groups[0]);
            s.append(":");
            append_hex_u16(&mut s, groups[1]);
            s.append(":");
            append_hex_u16(&mut s, groups[2]);
            s.append(":");
            append_hex_u16(&mut s, groups[3]);
            s.append(":");
            append_hex_u16(&mut s, groups[4]);
            s.append(":");
            append_hex_u16(&mut s, groups[5]);
            s.append(":");
            append_hex_u16(&mut s, groups[6]);
            s.append(":");
            append_hex_u16(&mut s, groups[7]);
            proof {
                assert(s@ =~= ipv6_text(groups@));
            }
        }
    }
    s
}

} // verus!
