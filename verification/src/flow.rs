//! The flat flow record: the byte offsets of its fields, and the records
//! that it embeds whole.

use vstd::prelude::*;
use crate::endian::{
    join_bytes16, join_halves32, join_halves64, le16, le32_halves, le64_halves,
};

verus! {

/// Byte offset of the tunnel record.
pub const FLOW_TUNNEL_OFS: usize = 0;

/// Byte offset of the packet priority.
pub const FLOW_SKB_PRIORITY_OFS: usize = 416;

/// Byte offset of the packet mark.
pub const FLOW_PKT_MARK_OFS: usize = 420;

/// Byte offset of the datapath hash.
pub const FLOW_DP_HASH_OFS: usize = 424;

/// Byte offset of the input port.
pub const FLOW_IN_PORT_OFS: usize = 428;

/// Byte offset of the recirculation id.
pub const FLOW_RECIRC_ID_OFS: usize = 432;

/// Byte offset of the connection-tracking state.
pub const FLOW_CT_STATE_OFS: usize = 436;

/// Byte offset of the protocol of the tracked connection.
pub const FLOW_CT_NW_PROTO_OFS: usize = 437;

/// Byte offset of the connection-tracking zone.
pub const FLOW_CT_ZONE_OFS: usize = 438;

/// Byte offset of the connection mark.
pub const FLOW_CT_MARK_OFS: usize = 440;

/// Byte offset of the packet-type tag.
pub const FLOW_PACKET_TYPE_OFS: usize = 444;

/// Byte offset of the connection label.
pub const FLOW_CT_LABEL_OFS: usize = 448;

/// Byte offset of the Ethernet destination address.
pub const FLOW_DL_DST_OFS: usize = 472;

/// Byte offset of the Ethernet source address.
pub const FLOW_DL_SRC_OFS: usize = 478;

/// Byte offset of the EtherType.
pub const FLOW_DL_TYPE_OFS: usize = 484;

/// Byte offset of the VLAN tags.
pub const FLOW_VLANS_OFS: usize = 488;

/// Byte offset of the MPLS label stack.
pub const FLOW_MPLS_LSE_OFS: usize = 496;

/// Byte offset, in the tunnel record, of the tunnel metadata.
pub const FLOW_TNL_METADATA_OFS: usize = 72;

/// Number of words of the tunnel record before its metadata.
pub const FLOW_TNL_HEADER_WORDS: usize = 9;

/// Byte offset, in the tunnel metadata, of the word that says what is
/// present.
pub const TUN_METADATA_PRESENT_OFS: usize = 0;

/// Byte offset, in the tunnel metadata, of the options.
pub const TUN_METADATA_OPTS_OFS: usize = 16;

/// Number of words of the options of the tunnel metadata.
pub const TUN_METADATA_OPT_WORDS: usize = 32;

/// Number of words of the tunnel metadata.
pub const TUN_METADATA_WORDS: usize = 34;

/// Tunnel flag: the metadata holds options as they came off the wire.
pub const FLOW_TNL_F_UDPIF: u16 = 16;

/// An IPv6 address as four 32-bit groups, each holding its bytes in wire
/// order.
#[allow(non_camel_case_types)]
#[derive(Clone, Copy, Debug)]
pub struct in6_addr {
    pub s6_addr32: [u32; 4],
}

impl in6_addr {
    /// Whether any group of the address is non-zero.
    pub open spec fn spec_is_set(&self) -> bool {
        self.s6_addr32[0] != 0 || self.s6_addr32[1] != 0 || self.s6_addr32[2] != 0
            || self.s6_addr32[3] != 0
    }

    /// Whether any group of the address is non-zero.
    #[verifier::when_used_as_spec(spec_is_set)]
    pub fn is_set(&self) -> (r: bool)
        ensures
            r == self.spec_is_set(),
    {
        self.s6_addr32[0] != 0 || self.s6_addr32[1] != 0 || self.s6_addr32[2] != 0
            || self.s6_addr32[3] != 0
    }
}

impl Default for in6_addr {
    fn default() -> (r: in6_addr)
        ensures
            r.s6_addr32@ == seq![0u32, 0u32, 0u32, 0u32],
    {
        in6_addr { s6_addr32: [0, 0, 0, 0] }
    }
}

/// A 128-bit value as two 64-bit halves.
#[allow(non_camel_case_types)]
#[derive(Clone, Copy, Debug)]
pub struct ovs_u128 {
    pub lo: u64,
    pub hi: u64,
}

impl ovs_u128 {
    /// Whether both halves are zero.
    pub open spec fn spec_is_zero(&self) -> bool {
        self.lo == 0 && self.hi == 0
    }

    /// Whether both halves are zero.
    #[verifier::when_used_as_spec(spec_is_zero)]
    pub fn is_zero(&self) -> (r: bool)
        ensures
            r == self.spec_is_zero(),
    {
        self.lo == 0 && self.hi == 0
    }

    /// The two words of the value, low half first.
    pub open spec fn words(&self) -> Seq<u64> {
        seq![self.lo, self.hi]
    }

    /// The two words of the value, low half first.
    pub fn as_u64_slice(&self) -> (r: [u64; 2])
        ensures
            r@ == self.words(),
    {
        let r: [u64; 2] = [self.lo, self.hi];
        proof {
            assert(r@ =~= self.words());
        }
        r
    }
}

/// An input port, numbered either by the datapath or by the controller.
/// Both numberings share one 32-bit field of the flow record.
#[allow(non_camel_case_types)]
#[derive(Clone, Copy, Debug)]
pub enum flow_in_port {
    OdpPort(u32),
    OfpPort(u32),
}

impl flow_in_port {
    /// The 32 bits of the field, whichever numbering wrote them.
    pub open spec fn spec_odp_port(&self) -> u32 {
        match *self {
            flow_in_port::OdpPort(p) => p,
            flow_in_port::OfpPort(p) => p,
        }
    }

    /// The 32 bits of the field, whichever numbering wrote them.
    #[verifier::when_used_as_spec(spec_odp_port)]
    pub fn odp_port(&self) -> (r: u32)
        ensures
            r == self.spec_odp_port(),
    {
        match *self {
            flow_in_port::OdpPort(p) => p,
            flow_in_port::OfpPort(p) => p,
        }
    }
}

/// What the tunnel metadata holds: a bitmap of the options that were sorted
/// into known types, or the length in bytes of options as they came off the
/// wire. Both share the first word of the metadata.
#[allow(non_camel_case_types)]
#[derive(Clone, Copy, Debug)]
pub enum tun_md_present {
    Bitmap(u64),
    Length(u8),
}

impl tun_md_present {
    /// The shared word read as a bitmap: a length is its low byte.
    pub open spec fn spec_map(&self) -> u64 {
        match *self {
            tun_md_present::Bitmap(m) => m,
            tun_md_present::Length(l) => l as u64,
        }
    }

    /// The shared word read as a length: the low byte of a bitmap.
    pub open spec fn spec_len(&self) -> u8 {
        match *self {
            tun_md_present::Bitmap(m) => (m % 0x100) as u8,
            tun_md_present::Length(l) => l,
        }
    }

    /// The shared word read as a bitmap.
    #[verifier::when_used_as_spec(spec_map)]
    pub fn map(&self) -> (r: u64)
        ensures
            r == self.spec_map(),
    {
        match *self {
            tun_md_present::Bitmap(m) => m,
            tun_md_present::Length(l) => l as u64,
        }
    }

    /// The shared word read as a length.
    #[verifier::when_used_as_spec(spec_len)]
    pub fn len(&self) -> (r: u8)
        ensures
            r == self.spec_len(),
    {
        match *self {
            tun_md_present::Bitmap(m) => (m % 0x100) as u8,
            tun_md_present::Length(l) => l,
        }
    }
}

/// The metadata of a tunnel: what is present, a handle of the table that
/// gives the options their types, and the options as 64-bit words.
#[allow(non_camel_case_types)]
#[derive(Clone, Copy, Debug)]
pub struct Tun_metadata {
    pub present: tun_md_present,
    pub tab: u64,
    pub opts: [u64; 32],
}

impl Tun_metadata {
    /// The words of the metadata: the word of `present`, the table handle,
    /// then the options.
    pub open spec fn words(&self) -> Seq<u64> {
        seq![self.present.spec_map(), self.tab] + self.opts@
    }

    /// The words of the metadata, as the flow record holds them.
    pub fn as_u64_slice(&self) -> (r: Vec<u64>)
        ensures
            r@ == self.words(),
            r@.len() == TUN_METADATA_WORDS,
    {
        let mut r: Vec<u64> = Vec::new();
        r.push(self.present.map());
        r.push(self.tab);
        let mut i: usize = 0;
        while i < 32
            invariant
                i <= 32,
                r@ == seq![self.present.spec_map(), self.tab] + self.opts@.take(i as int),
            decreases 32 - i,
        {
            r.push(self.opts[i]);
            i += 1;
            proof {
                assert(r@ =~= seq![self.present.spec_map(), self.tab] + self.opts@.take(i as int));
            }
        }
        proof {
            assert(self.opts@.take(32) =~= self.opts@);
        }
        r
    }
}

impl Default for Tun_metadata {
    fn default() -> (r: Tun_metadata)
        ensures
            r.present == tun_md_present::Bitmap(0),
            r.tab == 0,
            forall|i: int| 0 <= i < 32 ==> r.opts[i] == 0,
    {
        Tun_metadata { present: tun_md_present::Bitmap(0), tab: 0, opts: [0;32] }
    }
}

/// The tunnel that a packet came through.
#[allow(non_camel_case_types)]
#[derive(Clone, Copy, Debug)]
pub struct flow_tnl {
    pub ip_dst: u32,
    pub ipv6_dst: in6_addr,
    pub ip_src: u32,
    pub ipv6_src: in6_addr,
    pub tun_id: u64,
    pub flags: u16,
    pub ip_tos: u8,
    pub ip_ttl: u8,
    pub tp_src: u16,
    pub tp_dst: u16,
    pub gbp_id: u16,
    pub gbp_flags: u8,
    pub erspan_ver: u8,
    pub erspan_idx: u32,
    pub erspan_dir: u8,
    pub erspan_hwid: u8,
    pub pad1: [u8; 6],
    pub metadata: Tun_metadata,
}

impl flow_tnl {
    /// Whether the tunnel has a destination address, IPv4 or IPv6.
    pub open spec fn spec_dst_is_set(&self) -> bool {
        self.ip_dst != 0 || self.ipv6_dst.spec_is_set()
    }

    /// Whether the tunnel has a destination address, IPv4 or IPv6.
    #[verifier::when_used_as_spec(spec_dst_is_set)]
    pub fn dst_is_set(&self) -> (r: bool)
        ensures
            r == self.spec_dst_is_set(),
    {
        self.ip_dst != 0 || self.ipv6_dst.is_set()
    }

    /// The words of the tunnel record before its metadata: the fields in
    /// their order, each word holding its bytes least significant first.
    pub open spec fn header_words(&self) -> Seq<u64> {
        seq![
            le64_halves(self.ip_dst, self.ipv6_dst.s6_addr32[0]),
            le64_halves(self.ipv6_dst.s6_addr32[1], self.ipv6_dst.s6_addr32[2]),
            le64_halves(self.ipv6_dst.s6_addr32[3], self.ip_src),
            le64_halves(self.ipv6_src.s6_addr32[0], self.ipv6_src.s6_addr32[1]),
            le64_halves(self.ipv6_src.s6_addr32[2], self.ipv6_src.s6_addr32[3]),
            self.tun_id,
            le64_halves(
                le32_halves(self.flags, le16(self.ip_tos, self.ip_ttl)),
                le32_halves(self.tp_src, self.tp_dst),
            ),
            le64_halves(
                le32_halves(self.gbp_id, le16(self.gbp_flags, self.erspan_ver)),
                self.erspan_idx,
            ),
            le64_halves(
                le32_halves(
                    le16(self.erspan_dir, self.erspan_hwid),
                    le16(self.pad1[0], self.pad1[1]),
                ),
                le32_halves(
                    le16(self.pad1[2], self.pad1[3]),
                    le16(self.pad1[4], self.pad1[5]),
                ),
            ),
        ]
    }

    /// The words of the tunnel record before its metadata.
    pub fn as_u64_slice(&self) -> (r: [u64; 9])
        ensures
            r@ == self.header_words(),
    {
        let r: [u64; 9] = [
            join_halves64(self.ip_dst, self.ipv6_dst.s6_addr32[0]),
            join_halves64(self.ipv6_dst.s6_addr32[1], self.ipv6_dst.s6_addr32[2]),
            join_halves64(self.ipv6_dst.s6_addr32[3], self.ip_src),
            join_halves64(self.ipv6_src.s6_addr32[0], self.ipv6_src.s6_addr32[1]),
            join_halves64(self.ipv6_src.s6_addr32[2], self.ipv6_src.s6_addr32[3]),
            self.tun_id,
            join_halves64(
                join_halves32(self.flags, join_bytes16(self.ip_tos, self.ip_ttl)),
                join_halves32(self.tp_src, self.tp_dst),
            ),
            join_halves64(
                join_halves32(self.gbp_id, join_bytes16(self.gbp_flags, self.erspan_ver)),
                self.erspan_idx,
            ),
            join_halves64(
                join_halves32(
                    join_bytes16(self.erspan_dir, self.erspan_hwid),
                    join_bytes16(self.pad1[0], self.pad1[1]),
                ),
                join_halves32(
                    join_bytes16(self.pad1[2], self.pad1[3]),
                    join_bytes16(self.pad1[4], self.pad1[5]),
                ),
            ),
        ];
        proof {
            assert(r@ =~= self.header_words());
        }
        r
    }
}

impl Default for flow_tnl {
    fn default() -> (r: flow_tnl)
        ensures
            !r.spec_dst_is_set(),
            r.flags == 0,
            r.metadata.present == tun_md_present::Bitmap(0),
    {
        flow_tnl {
            ip_dst: 0,
            ipv6_dst: in6_addr { s6_addr32: [0, 0, 0, 0] },
            ip_src: 0,
            ipv6_src: in6_addr { s6_addr32: [0, 0, 0, 0] },
            tun_id: 0,
            flags: 0,
            ip_tos: 0,
            ip_ttl: 0,
            tp_src: 0,
            tp_dst: 0,
            gbp_id: 0,
            gbp_flags: 0,
            erspan_ver: 0,
            erspan_idx: 0,
            erspan_dir: 0,
            erspan_hwid: 0,
            pad1: [0, 0, 0, 0, 0, 0],
            metadata: Tun_metadata { present: tun_md_present::Bitmap(0), tab: 0, opts: [0;32] },
        }
    }
}

} // verus!
