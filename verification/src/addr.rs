//! Addresses as raw byte sequences: family detection and conversion to
//! printable text.
//!
//! An address travels through the network engine as the raw bytes carried
//! by the OS network subsystem: four bytes for IPv4, sixteen for IPv6. A
//! byte sequence of any other length has no family and cannot be printed;
//! conversion reports a typed failure instead of panicking.

use vstd::prelude::*;

use crate::text::dec_text;
use crate::text::hex_text;
use crate::text::u16_to_hex_string;
use crate::text::u32_to_string;

verus! {

/// The address family a raw byte sequence belongs to.
#[derive(Debug, Clone, Copy, PartialEq, Eq, Structural)]
pub enum IpType {
    V6,
    V4,
}

/// A failed conversion of a raw byte sequence into printable text: the
/// sequence has neither the IPv4 nor the IPv6 length.
#[derive(Debug, Clone, Copy, PartialEq, Eq, Structural)]
pub enum ConvertError {
    WrongLength,
}

/// The family of a raw address byte sequence: four bytes are IPv4, sixteen
/// are IPv6, anything else has no family.
pub fn get_ip_type(ip: &Vec<u8>) -> (t: Option<IpType>)
    ensures
        ip@.len() == 4 ==> t == Some(IpType::V4),
        ip@.len() == 16 ==> t == Some(IpType::V6),
        ip@.len() != 4 && ip@.len() != 16 ==> t is None,
{
    if ip.len() == 4 {
        Some(IpType::V4)
    } else if ip.len() == 16 {
        Some(IpType::V6)
    } else {
        None
    }
}

/// The dotted-decimal text of a four-byte IPv4 address.
pub open spec fn ipv4_text(b: Seq<u8>) -> Seq<char>
    recommends
        b.len() == 4,
{
    dec_text(b[0] as nat) + seq!['.'] + dec_text(b[1] as nat) + seq!['.'] + dec_text(b[2] as nat)
        + seq!['.'] + dec_text(b[3] as nat)
}

/// Converts a raw byte sequence into dotted-decimal IPv4 text. Fails, and
/// mutates nothing, unless the sequence is exactly four bytes long.
pub fn convert_ipv4_to_string(ip: &Vec<u8>) -> (r: Result<String, ConvertError>)
    ensures
        ip@.len() == 4 ==> (r matches Ok(s) && s@ == ipv4_text(ip@)),
        ip@.len() != 4 ==> r == Err::<String, ConvertError>(ConvertError::WrongLength),
{
    if ip.len() != 4 {
        return Err(ConvertError::WrongLength);
    }
    proof {
        reveal_strlit(".");
    }
    let mut s = u32_to_string(ip[0] as u32);
    s.append(".");
    let s1 = u32_to_string(ip[1] as u32);
    s.append(s1.as_str());
    s.append(".");
    let s2 = u32_to_string(ip[2] as u32);
    s.append(s2.as_str());
    s.append(".");
    let s3 = u32_to_string(ip[3] as u32);
    s.append(s3.as_str());
    proof {
        assert(s@ =~= ipv4_text(ip@));
    }
    Ok(s)
}

/// The eight sixteen-bit groups of an IPv6 address, each packed from two
/// bytes in big-endian order.
pub open spec fn groups_of(b: Seq<u8>) -> Seq<u16>
    recommends
        b.len() == 16,
{
    Seq::new(8, |i: int| ((b[2 * i] as int) * 256 + (b[2 * i + 1] as int)) as u16)
}

/// The number of consecutive zero groups starting at position `i`.
pub open spec fn zero_run_len(gs: Seq<u16>, i: int) -> int
    decreases gs.len() - i,
{
    if 0 <= i && i < gs.len() && gs[i] == 0 {
        1 + zero_run_len(gs, i + 1)
    } else {
        0
    }
}

/// The start of the first longest run of zero groups at or after `i`.
pub open spec fn best_zero_run(gs: Seq<u16>, i: int) -> int
    decreases gs.len() - i,
{
    if 0 <= i && i < gs.len() {
        let rest = best_zero_run(gs, i + 1);
        if zero_run_len(gs, i) >= zero_run_len(gs, rest) {
            i
        } else {
            rest
        }
    } else {
        i
    }
}

/// The groups `from .. to`, each as minimal lower-case hexadecimal text,
/// joined with single colons.
pub open spec fn joined_groups(gs: Seq<u16>, from: int, to: int) -> Seq<char>
    recommends
        0 <= from <= to <= gs.len(),
    decreases to - from,
{
    if from < to {
        if from + 1 == to {
            hex_text(gs[from] as nat)
        } else {
            hex_text(gs[from] as nat) + seq![':'] + joined_groups(gs, from + 1, to)
        }
    } else {
        Seq::<char>::empty()
    }
}

/// The colon-hexadecimal text of a sixteen-byte IPv6 address: the eight
/// big-endian groups in minimal lower-case hexadecimal, with the first
/// longest run of two or more zero groups compressed to a double colon.
pub open spec fn ipv6_text(b: Seq<u8>) -> Seq<char>
    recommends
        b.len() == 16,
{
    let gs = groups_of(b);
    let start = best_zero_run(gs, 0);
    let runlen = zero_run_len(gs, start);
    if runlen > 1 {
        joined_groups(gs, 0, start) + seq![':', ':'] + joined_groups(gs, start + runlen, 8)
    } else {
        joined_groups(gs, 0, 8)
    }
}

fn zero_run_len_exec(gs: &Vec<u16>, i: usize) -> (r: usize)
    requires
        i <= gs@.len(),
    ensures
        r == zero_run_len(gs@, i as int),
        i + r <= gs@.len(),
    decreases gs@.len() - i,
{
    if i < gs.len() && gs[i] == 0 {
        let rest = zero_run_len_exec(gs, i + 1);
        1 + rest
    } else {
        0
    }
}

fn best_zero_run_exec(gs: &Vec<u16>, i: usize) -> (r: usize)
    requires
        i <= gs@.len(),
    ensures
        r == best_zero_run(gs@, i as int),
        i <= r <= gs@.len(),
    decreases gs@.len() - i,
{
    if i < gs.len() {
        let rest = best_zero_run_exec(gs, i + 1);
        let here = zero_run_len_exec(gs, i);
        let there = zero_run_len_exec(gs, rest);
        if here >= there {
            i
        } else {
            rest
        }
    } else {
        i
    }
}

fn joined_groups_exec(gs: &Vec<u16>, from: usize, to: usize) -> (s: String)
    requires
        from <= to <= gs@.len(),
    ensures
        s@ == joined_groups(gs@, from as int, to as int),
    decreases to - from,
{
    if from < to {
        let mut s = u16_to_hex_string(gs[from]);
        if from + 1 == to {
            s
        } else {
            proof {
                reveal_strlit(":");
            }
            s.append(":");
            let rest = joined_groups_exec(gs, from + 1, to);
            s.append(rest.as_str());
            proof {
                assert(s@ =~= joined_groups(gs@, from as int, to as int));
            }
            s
        }
    } else {
        String::new()
    }
}

/// Converts a raw byte sequence into colon-hexadecimal IPv6 text,
/// reconstructing the sixteen bytes pairwise big-endian. Fails, and mutates
/// nothing, unless the sequence is exactly sixteen bytes long.
pub fn convert_ipv6_to_string(ip: &Vec<u8>) -> (r: Result<String, ConvertError>)
    ensures
        ip@.len() == 16 ==> (r matches Ok(s) && s@ == ipv6_text(ip@)),
        ip@.len() != 16 ==> r == Err::<String, ConvertError>(ConvertError::WrongLength),
{
    if ip.len() != 16 {
        return Err(ConvertError::WrongLength);
    }
    let mut gs: Vec<u16> = Vec::new();
    let mut k: usize = 0;
    while k < 8
        invariant
            0 <= k <= 8,
            ip@.len() == 16,
            gs@.len() == k,
            forall|j: int| 0 <= j < k ==> gs@[j] == groups_of(ip@)[j],
        decreases 8 - k,
    {
        let hi = ip[2 * k] as u16;
        let lo = ip[2 * k + 1] as u16;
        gs.push(hi * 256 + lo);
        k = k + 1;
    }
    proof {
        assert(gs@ =~= groups_of(ip@));
    }

    let start = best_zero_run_exec(&gs, 0);
    let runlen = zero_run_len_exec(&gs, start);
    if runlen > 1 {
        proof {
            reveal_strlit("::");
        }
        let mut s = joined_groups_exec(&gs, 0, start);
        s.append("::");
        let tail = joined_groups_exec(&gs, start + runlen, 8);
        s.append(tail.as_str());
        proof {
            assert("::"@ =~= seq![':', ':']);
            assert(s@ =~= ipv6_text(ip@));
        }
        Ok(s)
    } else {
        Ok(joined_groups_exec(&gs, 0, 8))
    }
}

} // verus!
