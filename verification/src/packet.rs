//! The wire formats of the layer-2 headers, the packet-type tag, and the
//! metadata that travels with a packet.

use vstd::prelude::*;
use crate::endian::{
    be16, join_halves32, le16, le32_halves, read_u16_be, read_u16_le, swap16, swap_bytes16,
};
use crate::flow::{flow_in_port, flow_tnl, in6_addr, ovs_u128};

verus! {

/// Packet-type namespace of the types that have no EtherType.
pub const OFPHTN_ONF: u16 = 0;

/// Packet-type namespace of the EtherTypes.
pub const OFPHTN_ETHERTYPE: u16 = 1;

pub const ETH_ADDR_SIZE: usize = 6;

pub const ETH_TYPE_SIZE: usize = 2;

pub const ETH_HEADER_SIZE: usize = 14;

pub const MAX_VLAN_HEADERS: usize = 2;

pub const VLAN_HEADER_SIZE: usize = 4;

pub const MAX_MPLS_LABELS: usize = 3;

pub const LLC_HEADER_SIZE: usize = 3;

pub const SNAP_HEADER_SIZE: usize = 5;

pub const LLC_SNAP_HEADER_SIZE: usize = 8;

pub const LLC_DSAP_SNAP: u8 = 0xaa;

pub const LLC_SSAP_SNAP: u8 = 0xaa;

pub const LLC_CNTL_SNAP: u8 = 3;

pub const MPLS_HEADER_SIZE: usize = 4;

pub const MPLS_BOS_SHIFT: u16 = 8;

/// A raw Ethernet frame.
pub const PT_ETH: u32 = 0x0000_0000;

/// Pseudo packet type: parse on by the next-protocol field.
pub const PT_USE_NEXT_PROTO: u32 = 0x0000_fffe;

pub const PT_IPV4: u32 = 0x0001_0800;

pub const PT_IPV6: u32 = 0x0001_86dd;

pub const PT_MPLS: u32 = 0x0001_8847;

pub const PT_MPLS_MC: u32 = 0x0001_8848;

pub const PT_NSH: u32 = 0x0001_894f;

/// Unknown packet type.
pub const PT_UNKNOWN: u32 = 0xffff_ffff;

/// The packet-type tag of namespace `ns` and subtype `ns_type`.
pub open spec fn spec_packet_type(ns: u16, ns_type: u16) -> u32 {
    (ns as int * 0x1_0000 + ns_type as int) as u32
}

/// The packet-type tag of namespace `ns` and subtype `ns_type`: the
/// namespace in the high half, the subtype in the low half.
#[verifier::when_used_as_spec(spec_packet_type)]
pub fn packet_type(ns: u16, ns_type: u16) -> (r: u32)
    ensures
        r == spec_packet_type(ns, ns_type),
{
    (ns as u32) * 0x1_0000 + ns_type as u32
}

/// The namespace of a packet-type tag.
pub open spec fn spec_packet_type_ns(pt: u32) -> u16 {
    (pt / 0x1_0000) as u16
}

/// The namespace of a packet-type tag.
#[verifier::when_used_as_spec(spec_packet_type_ns)]
pub fn packet_type_ns(pt: u32) -> (r: u16)
    ensures
        r == spec_packet_type_ns(pt),
{
    (pt / 0x1_0000) as u16
}

/// The subtype of a packet-type tag.
pub open spec fn spec_packet_type_ns_type(pt: u32) -> u16 {
    (pt % 0x1_0000) as u16
}

/// The subtype of a packet-type tag.
#[verifier::when_used_as_spec(spec_packet_type_ns_type)]
pub fn packet_type_ns_type(pt: u32) -> (r: u16)
    ensures
        r == spec_packet_type_ns_type(pt),
{
    (pt % 0x1_0000) as u16
}

/// A tag is made of its namespace and its subtype, and gives both back.
pub proof fn lemma_packet_type_parts(ns: u16, ns_type: u16, pt: u32)
    ensures
        spec_packet_type_ns(spec_packet_type(ns, ns_type)) == ns,
        spec_packet_type_ns_type(spec_packet_type(ns, ns_type)) == ns_type,
        spec_packet_type(spec_packet_type_ns(pt), spec_packet_type_ns_type(pt)) == pt,
{
}

/// The named packet types are the tags of their namespace and subtype.
pub proof fn lemma_packet_type_constants()
    ensures
        PT_ETH == spec_packet_type(OFPHTN_ONF, 0x0000),
        PT_USE_NEXT_PROTO == spec_packet_type(OFPHTN_ONF, 0xfffe),
        PT_IPV4 == spec_packet_type(OFPHTN_ETHERTYPE, EtherType::Ip.spec_code()),
        PT_IPV6 == spec_packet_type(OFPHTN_ETHERTYPE, EtherType::Ipv6.spec_code()),
        PT_MPLS == spec_packet_type(OFPHTN_ETHERTYPE, EtherType::Mpls.spec_code()),
        PT_MPLS_MC == spec_packet_type(OFPHTN_ETHERTYPE, EtherType::MplsMcast.spec_code()),
        PT_NSH == spec_packet_type(OFPHTN_ETHERTYPE, EtherType::Nsh.spec_code()),
        PT_UNKNOWN == spec_packet_type(0xffff, 0xffff),
{
}

/// The payload types of an Ethernet frame that the walk knows, with two
/// marks: `NotEth` for a frame whose type field holds no type, and `Min` for
/// the least value of the field that is a type and not a length.
#[derive(PartialEq, Eq, Structural, PartialOrd, Debug, Clone, Copy)]
pub enum EtherType {
    NotEth,
    Min,
    Ip,
    Arp,
    Erspan2,
    Rarp,
    Vlan8021Q,
    Ipv6,
    Lacp,
    Mpls,
    MplsMcast,
    Vlan8021AD,
    Erspan1,
    Nsh,
}

impl EtherType {
    /// The 16-bit code of the type.
    pub open spec fn spec_code(&self) -> u16 {
        match *self {
            EtherType::NotEth => 0x05ff,
            EtherType::Min => 0x0600,
            EtherType::Ip => 0x0800,
            EtherType::Arp => 0x0806,
            EtherType::Erspan2 => 0x22eb,
            EtherType::Rarp => 0x8035,
            EtherType::Vlan8021Q => 0x8100,
            EtherType::Ipv6 => 0x86dd,
            EtherType::Lacp => 0x8809,
            EtherType::Mpls => 0x8847,
            EtherType::MplsMcast => 0x8848,
            EtherType::Vlan8021AD => 0x88a8,
            EtherType::Erspan1 => 0x88be,
            EtherType::Nsh => 0x894f,
        }
    }

    /// The 16-bit code of the type.
    #[verifier::when_used_as_spec(spec_code)]
    pub fn code(&self) -> (r: u16)
        ensures
            r == self.spec_code(),
    {
        match *self {
            EtherType::NotEth => 0x05ff,
            EtherType::Min => 0x0600,
            EtherType::Ip => 0x0800,
            EtherType::Arp => 0x0806,
            EtherType::Erspan2 => 0x22eb,
            EtherType::Rarp => 0x8035,
            EtherType::Vlan8021Q => 0x8100,
            EtherType::Ipv6 => 0x86dd,
            EtherType::Lacp => 0x8809,
            EtherType::Mpls => 0x8847,
            EtherType::MplsMcast => 0x8848,
            EtherType::Vlan8021AD => 0x88a8,
            EtherType::Erspan1 => 0x88be,
            EtherType::Nsh => 0x894f,
        }
    }

    /// Whether a code of the type field decodes to this type: every type
    /// but the mark `NotEth` is decoded from its own code.
    pub open spec fn decodes_from(&self, value: u16) -> bool {
        *self != EtherType::NotEth && self.spec_code() == value
    }

    /// The type that a code of the type field decodes to, or `None` for a
    /// code that belongs to no type.
    pub open spec fn spec_from_u16(value: u16) -> Option<EtherType> {
        if value == 0x0600 {
            Some(EtherType::Min)
        } else if value == 0x0800 {
            Some(EtherType::Ip)
        } else if value == 0x0806 {
            Some(EtherType::Arp)
        } else if value == 0x22eb {
            Some(EtherType::Erspan2)
        } else if value == 0x8035 {
            Some(EtherType::Rarp)
        } else if value == 0x8100 {
            Some(EtherType::Vlan8021Q)
        } else if value == 0x86dd {
            Some(EtherType::Ipv6)
        } else if value == 0x8809 {
            Some(EtherType::Lacp)
        } else if value == 0x8847 {
            Some(EtherType::Mpls)
        } else if value == 0x8848 {
            Some(EtherType::MplsMcast)
        } else if value == 0x88a8 {
            Some(EtherType::Vlan8021AD)
        } else if value == 0x88be {
            Some(EtherType::Erspan1)
        } else if value == 0x894f {
            Some(EtherType::Nsh)
        } else {
            None
        }
    }

    /// Decodes a code of the type field. A code that belongs to no type
    /// gives `None`.
    #[verifier::when_used_as_spec(spec_from_u16)]
    pub fn from_u16(value: u16) -> (r: Option<EtherType>)
        ensures
            r == EtherType::spec_from_u16(value),
    {
        match value {
            0x0600 => Some(EtherType::Min),
            0x0800 => Some(EtherType::Ip),
            0x0806 => Some(EtherType::Arp),
            0x22eb => Some(EtherType::Erspan2),
            0x8035 => Some(EtherType::Rarp),
            0x8100 => Some(EtherType::Vlan8021Q),
            0x86dd => Some(EtherType::Ipv6),
            0x8809 => Some(EtherType::Lacp),
            0x8847 => Some(EtherType::Mpls),
            0x8848 => Some(EtherType::MplsMcast),
            0x88a8 => Some(EtherType::Vlan8021AD),
            0x88be => Some(EtherType::Erspan1),
            0x894f => Some(EtherType::Nsh),
            _ => None,
        }
    }

    /// The code of the type as the 16-bit value whose bytes, least
    /// significant first, are the code in wire order.
    pub fn to_be16(&self) -> (r: u16)
        ensures
            r == swap16(self.spec_code()),
    {
        swap_bytes16(self.code())
    }
}

/// Two types with one code are one type.
pub proof fn lemma_ethertype_code_injective(a: EtherType, b: EtherType)
    requires
        a.spec_code() == b.spec_code(),
    ensures
        a == b,
{
}

/// Decoding is total and exact: a code decodes to a type if and only if it
/// is the code of that type and the type is not the mark `NotEth`; it
/// decodes to nothing if and only if it is the code of no such type. So
/// every type but the mark comes back from its own code, and from no other.
pub proof fn lemma_ethertype_decode(value: u16, t: EtherType)
    ensures
        EtherType::spec_from_u16(value) == Some(t) <==> t.decodes_from(value),
        EtherType::spec_from_u16(value) is None <==> forall|u: EtherType| !u.decodes_from(value),
        t != EtherType::NotEth ==> EtherType::spec_from_u16(t.spec_code()) == Some(t),
{
    if EtherType::spec_from_u16(value) is Some {
        assert(EtherType::spec_from_u16(value)->0.decodes_from(value));
    }
}

/// An Ethernet address.
#[derive(Clone, Copy, Debug)]
pub struct EtherAddr(pub [u8; 6]);

/// A VLAN tag as its two 16-bit fields, each holding its bytes in wire
/// order.
#[allow(non_camel_case_types)]
#[derive(Clone, Copy, Debug)]
pub struct VlanHeader_ {
    pub tpid_be: u16,
    pub tci_be: u16,
}

impl Default for VlanHeader_ {
    fn default() -> (r: VlanHeader_)
        ensures
            r.tpid_be == 0,
            r.tci_be == 0,
    {
        VlanHeader_ { tpid_be: 0, tci_be: 0 }
    }
}

/// A VLAN tag, held as one 32-bit word or as its two 16-bit fields.
#[derive(Clone, Copy, Debug)]
pub enum VlanHeader {
    QtagBe(u32),
    Qtag2(VlanHeader_),
}

impl VlanHeader {
    /// The tag as one word: the TPID in the low half, the TCI in the high
    /// half.
    pub open spec fn spec_qtag_be(&self) -> u32 {
        match *self {
            VlanHeader::QtagBe(q) => q,
            VlanHeader::Qtag2(h) => le32_halves(h.tpid_be, h.tci_be),
        }
    }

    /// The tag as its two fields: the low half of the word is the TPID, the
    /// high half the TCI.
    pub open spec fn spec_qtag2(&self) -> VlanHeader_ {
        match *self {
            VlanHeader::QtagBe(q) => VlanHeader_ {
                tpid_be: (q % 0x1_0000) as u16,
                tci_be: (q / 0x1_0000) as u16,
            },
            VlanHeader::Qtag2(h) => h,
        }
    }

    /// The tag as one word.
    #[verifier::when_used_as_spec(spec_qtag_be)]
    pub fn qtag_be(&self) -> (r: u32)
        ensures
            r == self.spec_qtag_be(),
    {
        match *self {
            VlanHeader::QtagBe(q) => q,
            VlanHeader::Qtag2(h) => join_halves32(h.tpid_be, h.tci_be),
        }
    }

    /// The tag as its two fields.
    #[verifier::when_used_as_spec(spec_qtag2)]
    pub fn qtag2(&self) -> (r: VlanHeader_)
        ensures
            r == self.spec_qtag2(),
    {
        match *self {
            VlanHeader::QtagBe(q) => VlanHeader_ {
                tpid_be: (q % 0x1_0000) as u16,
                tci_be: (q / 0x1_0000) as u16,
            },
            VlanHeader::Qtag2(h) => h,
        }
    }

    /// Reads the tag that starts at byte `at` of `data`.
    pub fn read(data: &[u8], at: usize) -> (r: VlanHeader)
        requires
            at + VLAN_HEADER_SIZE <= data@.len(),
        ensures
            r == VlanHeader::Qtag2(
                VlanHeader_ {
                    tpid_be: le16(data@[at as int], data@[at + 1]),
                    tci_be: le16(data@[at + 2], data@[at + 3]),
                },
            ),
    {
        let len: usize = data.len();
        assert(at + 4 <= len);
        let tpid_be: u16 = read_u16_le(vstd::slice::slice_subrange(data, at, at + 2));
        let tci_be: u16 = read_u16_le(vstd::slice::slice_subrange(data, at + 2, at + 4));
        VlanHeader::Qtag2(VlanHeader_ { tpid_be, tci_be })
    }
}

/// Either way of holding a VLAN tag gives the same word and the same fields.
pub proof fn lemma_vlan_header_views(h: VlanHeader)
    ensures
        VlanHeader::QtagBe(h.spec_qtag_be()).spec_qtag2() == h.spec_qtag2(),
        VlanHeader::Qtag2(h.spec_qtag2()).spec_qtag_be() == h.spec_qtag_be(),
{
}

/// An LLC header.
#[derive(Clone, Copy, Debug)]
pub struct LlcHeader {
    pub llc_dsap: u8,
    pub llc_ssap: u8,
    pub llc_cntl: u8,
}

impl LlcHeader {
    /// Number of bytes of the header on the wire.
    pub fn wire_size() -> (r: usize)
        ensures
            r == LLC_HEADER_SIZE,
    {
        LLC_HEADER_SIZE
    }
}

impl Default for LlcHeader {
    fn default() -> (r: LlcHeader)
        ensures
            r.llc_dsap == 0,
            r.llc_ssap == 0,
            r.llc_cntl == 0,
    {
        LlcHeader { llc_dsap: 0, llc_ssap: 0, llc_cntl: 0 }
    }
}

/// A SNAP header: the organization code, and the type in host order.
#[derive(Clone, Copy, Debug)]
pub struct SnapHeader {
    pub snap_org: [u8; 3],
    pub snap_type: u16,
}

impl SnapHeader {
    /// Number of bytes of the header on the wire.
    pub fn wire_size() -> (r: usize)
        ensures
            r == SNAP_HEADER_SIZE,
    {
        SNAP_HEADER_SIZE
    }
}

impl Default for SnapHeader {
    fn default() -> (r: SnapHeader)
        ensures
            r.snap_org@ == seq![0u8, 0u8, 0u8],
            r.snap_type == 0,
    {
        SnapHeader { snap_org: [0, 0, 0], snap_type: 0 }
    }
}

/// An LLC header followed by a SNAP header.
#[derive(Clone, Copy, Debug)]
pub struct LlcSnapHeader {
    pub llc_header: LlcHeader,
    pub snap_header: SnapHeader,
}

impl LlcSnapHeader {
    /// Number of bytes of the two headers on the wire.
    pub fn wire_size() -> (r: usize)
        ensures
            r == LLC_SNAP_HEADER_SIZE,
            r == LLC_HEADER_SIZE + SNAP_HEADER_SIZE,
    {
        LlcHeader::wire_size() + SnapHeader::wire_size()
    }

    /// Reads the headers that start at byte `at` of `data`: three bytes of
    /// LLC, three of the organization code, and the type, most significant
    /// byte first.
    pub fn read(data: &[u8], at: usize) -> (r: LlcSnapHeader)
        requires
            at + LLC_SNAP_HEADER_SIZE <= data@.len(),
        ensures
            r.llc_header == (LlcHeader {
                llc_dsap: data@[at as int],
                llc_ssap: data@[at + 1],
                llc_cntl: data@[at + 2],
            }),
            r.snap_header.snap_org@ == seq![data@[at + 3], data@[at + 4], data@[at + 5]],
            r.snap_header.snap_type == be16(data@[at + 6], data@[at + 7]),
    {
        let len: usize = data.len();
        assert(at + 8 <= len);
        let r = LlcSnapHeader {
            llc_header: LlcHeader {
                llc_dsap: data[at],
                llc_ssap: data[at + 1],
                llc_cntl: data[at + 2],
            },
            snap_header: SnapHeader {
                snap_org: [data[at + 3], data[at + 4], data[at + 5]],
                snap_type: read_u16_be(vstd::slice::slice_subrange(data, at + 6, at + 8)),
            },
        };
        proof {
            assert(r.snap_header.snap_org@ =~= seq![data@[at + 3], data@[at + 4], data@[at + 5]]);
        }
        r
    }

    /// Whether the headers are those of SNAP with the organization code of
    /// an encapsulated EtherType.
    pub open spec fn spec_is_snap(&self) -> bool {
        &&& self.llc_header.llc_dsap == LLC_DSAP_SNAP
        &&& self.llc_header.llc_ssap == LLC_SSAP_SNAP
        &&& self.llc_header.llc_cntl == LLC_CNTL_SNAP
        &&& self.snap_header.snap_org[0] == 0
        &&& self.snap_header.snap_org[1] == 0
        &&& self.snap_header.snap_org[2] == 0
    }

    /// Whether the headers are those of SNAP with the organization code of
    /// an encapsulated EtherType.
    #[verifier::when_used_as_spec(spec_is_snap)]
    pub fn is_snap(&self) -> (r: bool)
        ensures
            r == self.spec_is_snap(),
    {
        self.llc_header.llc_dsap == LLC_DSAP_SNAP && self.llc_header.llc_ssap == LLC_SSAP_SNAP
            && self.llc_header.llc_cntl == LLC_CNTL_SNAP && self.snap_header.snap_org[0] == 0
            && self.snap_header.snap_org[1] == 0 && self.snap_header.snap_org[2] == 0
    }
}

/// An MPLS label stack entry as its two 16-bit halves, each holding its
/// bytes in wire order.
#[derive(Clone, Copy, Debug)]
pub struct MplsHeader {
    pub mpls_lse_hi_be: u16,
    pub mpls_lse_lo_be: u16,
}

impl MplsHeader {
    /// The entry as one word: the first half in the low half of the word.
    pub open spec fn spec_as_u32(&self) -> u32 {
        le32_halves(self.mpls_lse_hi_be, self.mpls_lse_lo_be)
    }

    /// Whether the entry is the bottom of its stack: bit `MPLS_BOS_SHIFT` of
    /// its second half, taken in wire order.
    pub open spec fn spec_is_bos(&self) -> bool {
        (swap16(self.mpls_lse_lo_be) / 0x100) % 2 == 1
    }

    /// The entry as one word.
    #[verifier::when_used_as_spec(spec_as_u32)]
    pub fn as_u32(&self) -> (r: u32)
        ensures
            r == self.spec_as_u32(),
    {
        join_halves32(self.mpls_lse_hi_be, self.mpls_lse_lo_be)
    }

    /// Whether the entry is the bottom of its stack.
    #[verifier::when_used_as_spec(spec_is_bos)]
    pub fn is_bos(&self) -> (r: bool)
        ensures
            r == self.spec_is_bos(),
    {
        (swap_bytes16(self.mpls_lse_lo_be) / 0x100) % 2 == 1
    }

    /// Reads the entry that starts at byte `at` of `data`.
    pub fn read(data: &[u8], at: usize) -> (r: MplsHeader)
        requires
            at + MPLS_HEADER_SIZE <= data@.len(),
        ensures
            r == (MplsHeader {
                mpls_lse_hi_be: le16(data@[at as int], data@[at + 1]),
                mpls_lse_lo_be: le16(data@[at + 2], data@[at + 3]),
            }),
    {
        let len: usize = data.len();
        assert(at + 4 <= len);
        let mpls_lse_hi_be: u16 = read_u16_le(vstd::slice::slice_subrange(data, at, at + 2));
        let mpls_lse_lo_be: u16 = read_u16_le(vstd::slice::slice_subrange(data, at + 2, at + 4));
        MplsHeader { mpls_lse_hi_be, mpls_lse_lo_be }
    }
}

impl Default for MplsHeader {
    fn default() -> (r: MplsHeader)
        ensures
            r.mpls_lse_hi_be == 0,
            r.mpls_lse_lo_be == 0,
    {
        MplsHeader { mpls_lse_hi_be: 0, mpls_lse_lo_be: 0 }
    }
}

/// The bottom-of-stack mark of an entry is the low bit of its third byte on
/// the wire.
pub proof fn lemma_mpls_bos_byte(b0: u8, b1: u8, b2: u8, b3: u8)
    ensures
        (MplsHeader { mpls_lse_hi_be: le16(b0, b1), mpls_lse_lo_be: le16(b2, b3) }).spec_is_bos()
            == (b2 % 2 == 1),
{
}

/// Handle of a connection-tracking entry that is owned elsewhere.
#[allow(non_camel_case_types)]
#[derive(Clone, Copy, Debug)]
pub struct conn {
    pub handle: u64,
}

/// The tuple of a tracked IPv4 connection, as first seen.
#[allow(non_camel_case_types)]
#[derive(Clone, Copy, Debug)]
pub struct ovs_key_ct_tuple_ipv4 {
    pub ipv4_src_be: u32,
    pub ipv4_dst_be: u32,
    pub src_port_be: u16,
    pub dst_port_be: u16,
    pub ipv4_proto: u8,
}

impl Default for ovs_key_ct_tuple_ipv4 {
    fn default() -> (r: ovs_key_ct_tuple_ipv4)
        ensures
            r.ipv4_src_be == 0,
            r.ipv4_dst_be == 0,
            r.src_port_be == 0,
            r.dst_port_be == 0,
            r.ipv4_proto == 0,
    {
        ovs_key_ct_tuple_ipv4 {
            ipv4_src_be: 0,
            ipv4_dst_be: 0,
            src_port_be: 0,
            dst_port_be: 0,
            ipv4_proto: 0,
        }
    }
}

/// The tuple of a tracked IPv6 connection, as first seen.
#[allow(non_camel_case_types)]
#[derive(Clone, Copy, Debug)]
pub struct ovs_key_ct_tuple_ipv6 {
    pub ipv6_src: in6_addr,
    pub ipv6_dst: in6_addr,
    pub src_port_be: u16,
    pub dst_port_be: u16,
    pub ipv6_proto: u8,
}

impl Default for ovs_key_ct_tuple_ipv6 {
    fn default() -> (r: ovs_key_ct_tuple_ipv6)
        ensures
            !r.ipv6_src.spec_is_set(),
            !r.ipv6_dst.spec_is_set(),
            r.src_port_be == 0,
            r.dst_port_be == 0,
            r.ipv6_proto == 0,
    {
        ovs_key_ct_tuple_ipv6 {
            ipv6_src: in6_addr { s6_addr32: [0, 0, 0, 0] },
            ipv6_dst: in6_addr { s6_addr32: [0, 0, 0, 0] },
            src_port_be: 0,
            dst_port_be: 0,
            ipv6_proto: 0,
        }
    }
}

/// The tuple of a tracked connection, IPv4 or IPv6.
#[allow(non_camel_case_types)]
#[derive(Clone, Copy, Debug)]
pub enum ct_orig_tuple {
    Ipv4(ovs_key_ct_tuple_ipv4),
    Ipv6(ovs_key_ct_tuple_ipv6),
}

impl Default for ct_orig_tuple {
    fn default() -> (r: ct_orig_tuple)
        ensures
            r matches ct_orig_tuple::Ipv4(t) && t.ipv4_src_be == 0 && t.ipv4_dst_be == 0
                && t.src_port_be == 0 && t.dst_port_be == 0 && t.ipv4_proto == 0,
    {
        ct_orig_tuple::Ipv4(
            ovs_key_ct_tuple_ipv4 {
                ipv4_src_be: 0,
                ipv4_dst_be: 0,
                src_port_be: 0,
                dst_port_be: 0,
                ipv4_proto: 0,
            },
        )
    }
}

/// What travels with a packet beside its bytes.
#[allow(non_camel_case_types)]
#[derive(Clone, Copy, Debug)]
pub struct pkt_metadata {
    pub recirc_id: u32,
    pub dp_hash: u32,
    pub skb_priority: u32,
    pub pkt_mark: u32,
    pub ct_state: u8,
    pub ct_orig_tuple_ipv6: bool,
    pub ct_zone: u16,
    pub ct_mark: u32,
    pub ct_label: ovs_u128,
    pub in_port: flow_in_port,
    pub conn: Option<conn>,
    pub reply: bool,
    pub icmp_related: bool,
    pub pad_to_cacheline_64_1: [u8; 4],
    pub ct_orig_tuple: ct_orig_tuple,
    pub pad_to_cacheline_64_2: [u8; 24],
    pub tunnel: flow_tnl,
}

/// Byte offset, in the record of the metadata, of the mark of packets that
/// belong to an ICMP error.
pub const PKT_METADATA_ICMP_RELATED_OFS: usize = 57;

/// Byte offset, in the record of the metadata, of the tuple of the
/// connection.
pub const PKT_METADATA_CT_ORIG_TUPLE_OFS: usize = 64;

/// Byte offset, in the record of the metadata, of the tunnel.
pub const PKT_METADATA_TUNNEL_OFS: usize = 128;

/// The least multiple of `align` that is not below `x`.
pub open spec fn align_up(x: nat, align: nat) -> nat {
    ((x + align - 1) / align as int * align) as nat
}

/// Byte offset of field `i` of a record whose fields, each given by its
/// size and its alignment, follow one another with no more padding than
/// alignment asks for.
pub open spec fn record_offset(fields: Seq<(nat, nat)>, i: nat) -> nat
    decreases i,
{
    if i == 0 {
        0
    } else {
        align_up(
            record_offset(fields, (i - 1) as nat) + fields[i - 1].0,
            fields[i as int].1,
        )
    }
}

/// Size and alignment of the fields of `pkt_metadata`, in their order: a
/// handle takes the eight bytes of an address, the tuple of a connection
/// those of its IPv6 form, the tunnel those of its header and metadata.
pub open spec fn pkt_metadata_fields() -> Seq<(nat, nat)> {
    seq![
        (4, 4),
        (4, 4),
        (4, 4),
        (4, 4),
        (1, 1),
        (1, 1),
        (2, 2),
        (4, 4),
        (16, 8),
        (4, 4),
        (8, 8),
        (1, 1),
        (1, 1),
        (4, 1),
        (40, 4),
        (24, 1),
        (344, 8),
    ]
}

/// The named offsets of the record of the metadata are those that the
/// sizes and alignments of its fields give.
pub proof fn lemma_pkt_metadata_layout()
    ensures
        record_offset(pkt_metadata_fields(), 12) == PKT_METADATA_ICMP_RELATED_OFS,
        record_offset(pkt_metadata_fields(), 14) == PKT_METADATA_CT_ORIG_TUPLE_OFS,
        record_offset(pkt_metadata_fields(), 16) == PKT_METADATA_TUNNEL_OFS,
{
    let f = pkt_metadata_fields();
    reveal_with_fuel(record_offset, 3);
    assert(record_offset(f, 2) == 8);
    assert(record_offset(f, 4) == 16);
    assert(record_offset(f, 6) == 18);
    assert(record_offset(f, 8) == 24);
    assert(record_offset(f, 10) == 48);
    assert(record_offset(f, 12) == 57);
    assert(record_offset(f, 14) == 64);
    assert(record_offset(f, 16) == 128);
}

} // verus!
