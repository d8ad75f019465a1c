//! Frame decoding: from a raw captured frame down to the IPv4 source
//! address and the UDP payload. Malformed or non-IPv4 frames are a
//! normal, silent outcome, reported as `None` rather than an error.
//!
//! Capture devices inconsistently prepend a link-layer header, so the
//! decoder guesses the framing: a type field of IPv4 at offset 12 means
//! the network header starts at 14; a leading IPv4 version nibble means
//! it starts at 0; anything else is assumed to carry a link-layer header
//! (such frames are then rejected by the version re-check). The source
//! address is always read from the network header the decoder located,
//! never from payload content.

use vstd::prelude::*;
use vstd::slice::slice_to_vec;
use crate::addr::Ipv4Address;

verus! {

/// The 16-bit link-layer type field at bytes 12 and 13.
pub open spec fn ethertype(d: Seq<u8>) -> u16 {
    ((d[12] as u16) << 8) | (d[13] as u16)
}

/// Where the network header is taken to start, by the framing heuristic.
pub open spec fn link_offset(d: Seq<u8>) -> int
    recommends
        d.len() >= 14,
{
    if ethertype(d) == 0x0800 {
        14
    } else if d[0] & 0xF0 == 0x40 {
        0
    } else {
        14
    }
}

/// What decoding a raw frame yields: the header octets of the source
/// address and the bytes after the network and transport headers, or
/// nothing for frames that are too short or not IPv4 over UDP.
pub open spec fn decode_spec(d: Seq<u8>) -> Option<(Ipv4Address, Seq<u8>)> {
    if d.len() < 20 {
        None
    } else {
        let off = link_offset(d);
        if d.len() < off + 20 {
            None
        } else if d[off] & 0xF0 != 0x40 {
            None
        } else {
            let header_len = (d[off] & 0x0F) * 4;
            let payload_start = off + header_len + 8;
            if d.len() >= payload_start {
                Some(
                    (
                        Ipv4Address {
                            octets: [d[off + 12], d[off + 13], d[off + 14], d[off + 15]],
                        },
                        d.subrange(payload_start, d.len() as int),
                    ),
                )
            } else {
                None
            }
        }
    }
}

/// Decodes one captured frame into its IPv4 source address and a copy
/// of the UDP payload bytes.
pub fn decode_frame(data: &[u8]) -> (r: Option<(Ipv4Address, Vec<u8>)>)
    ensures
        r is Some <==> decode_spec(data@) is Some,
        r is Some ==> {
            let (ip, payload) = decode_spec(data@)->Some_0;
            r->Some_0.0 == ip && r->Some_0.1@ == payload
        },
{
    if data.len() < 20 {
        return None;
    }
    let et: u16 = ((data[12] as u16) << 8) | (data[13] as u16);
    let off: usize = if et == 0x0800 {
        14
    } else if data[0] & 0xF0 == 0x40 {
        0
    } else {
        14
    };
    if data.len() < off + 20 {
        return None;
    }
    if data[off] & 0xF0 != 0x40 {
        return None;
    }
    let nibble = data[off] & 0x0F;
    proof {
        let b: u8 = data@[off as int];
        assert(b & 0x0F <= 0x0F) by (bit_vector);
    }
    let header_len: usize = (nibble as usize) * 4;
    let payload_start: usize = off + header_len + 8;
    if data.len() >= payload_start {
        let source = Ipv4Address {
            octets: [data[off + 12], data[off + 13], data[off + 14], data[off + 15]],
        };
        let payload = slice_to_vec(&data[payload_start..data.len()]);
        Some((source, payload))
    } else {
        None
    }
}

} // verus!
