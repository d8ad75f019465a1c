//! The network-layer source address: four octets taken from the IPv4
//! header of a captured frame, never from payload content.

use vstd::prelude::*;
use vstd::string::StringExecFns;
use crate::text::{dec_chars, dec_str};

verus! {

/// An IPv4 address, by its four header octets.
#[derive(Clone, Copy, PartialEq, Eq, Debug)]
pub struct Ipv4Address {
    pub octets: [u8; 4],
}

impl Ipv4Address {
    /// The address in dotted decimal, as the firewall tool prints it.
    pub open spec fn dotted_spec(&self) -> Seq<char> {
        dec_chars(self.octets[0] as int) + seq!['.'] + dec_chars(self.octets[1] as int)
            + seq!['.'] + dec_chars(self.octets[2] as int) + seq!['.'] + dec_chars(
            self.octets[3] as int,
        )
    }

    /// A single integer standing for the address, used to key
    /// bookkeeping maps.
    pub open spec fn key_spec(&self) -> int {
        self.octets[0] * 0x1000000 + self.octets[1] * 0x10000 + self.octets[2] * 0x100
            + self.octets[3]
    }

    pub fn new(octets: [u8; 4]) -> (r: Self)
        ensures
            r.octets == octets,
    {
        Ipv4Address { octets }
    }

    /// Renders the address in dotted decimal.
    pub fn dotted(&self) -> (s: String)
        ensures
            s@ == self.dotted_spec(),
    {
        let mut s = dec_str(self.octets[0] as u16);
        proof {
            reveal_strlit(".");
        }
        s.append(".");
        let t1 = dec_str(self.octets[1] as u16);
        s.append(t1.as_str());
        s.append(".");
        let t2 = dec_str(self.octets[2] as u16);
        s.append(t2.as_str());
        s.append(".");
        let t3 = dec_str(self.octets[3] as u16);
        s.append(t3.as_str());
        proof {
            assert(s@ =~= self.dotted_spec());
        }
        s
    }

    /// The integer key of the address.
    pub fn key(&self) -> (k: u32)
        ensures
            k == self.key_spec(),
    {
        (self.octets[0] as u32) * 0x1000000 + (self.octets[1] as u32) * 0x10000
            + (self.octets[2] as u32) * 0x100 + (self.octets[3] as u32)
    }
}

} // verus!
