//! The walk over the layer-2 headers of a frame and the projection of the
//! metadata of a packet, both into the sparse encoder.

use vstd::prelude::*;
use vstd::slice::slice_subrange;
use crate::endian::{
    be16, le16, le32_at, le64_at, le64_halves, read_u16_be, swap16, swap32, swap_bytes16,
    swap_bytes32,
};
use crate::flow::{
    FLOW_CT_LABEL_OFS, FLOW_CT_MARK_OFS, FLOW_CT_NW_PROTO_OFS, FLOW_CT_STATE_OFS,
    FLOW_CT_ZONE_OFS, FLOW_DL_DST_OFS, FLOW_DL_TYPE_OFS, FLOW_DP_HASH_OFS, FLOW_IN_PORT_OFS,
    FLOW_MPLS_LSE_OFS, FLOW_PACKET_TYPE_OFS, FLOW_PKT_MARK_OFS, FLOW_RECIRC_ID_OFS,
    FLOW_SKB_PRIORITY_OFS, FLOW_TNL_F_UDPIF, FLOW_TNL_HEADER_WORDS, FLOW_TNL_METADATA_OFS,
    FLOW_TUNNEL_OFS, FLOW_VLANS_OFS, TUN_METADATA_OPTS_OFS, TUN_METADATA_PRESENT_OFS,
    TUN_METADATA_WORDS, flow_tnl,
};
use crate::laws::{
    lemma_l2_emits, lemma_l2_pushes_ordered, lemma_metadata_emits, lemma_metadata_pushes_ordered,
};
use crate::miniflow::{mf_ctx, pack32, pushes_ordered, slot_range, MfState};
use crate::packet::{
    pkt_metadata, EtherType, LlcSnapHeader, MplsHeader, VlanHeader, ETH_ADDR_SIZE, ETH_HEADER_SIZE, ETH_TYPE_SIZE, LLC_CNTL_SNAP, LLC_DSAP_SNAP,
    LLC_SNAP_HEADER_SIZE, LLC_SSAP_SNAP, MAX_MPLS_LABELS, MAX_VLAN_HEADERS, MPLS_HEADER_SIZE,
    PT_ETH, VLAN_HEADER_SIZE,
};

verus! {

/// The parser of packets into flow keys. It holds nothing: the walk and the
/// projection are free functions on an encoder.
pub struct Parser {}

/// Why a frame was not walked.
#[derive(PartialEq, Eq, Structural, Debug)]
pub enum ParseError {
    /// The frame is shorter than an Ethernet header.
    BadLength,
    /// Any other failure. Neither the walk nor the projection gives it.
    DefaultError,
}

/// Whether `eth_type` is the code of a VLAN tag, 802.1Q or 802.1ad.
pub open spec fn spec_is_vlan(eth_type: u16) -> bool {
    eth_type == EtherType::Vlan8021Q.spec_code() || eth_type == EtherType::Vlan8021AD.spec_code()
}

/// Whether `eth_type` is the code of MPLS, unicast or multicast.
pub open spec fn spec_is_mpls(eth_type: u16) -> bool {
    eth_type == EtherType::Mpls.spec_code() || eth_type == EtherType::MplsMcast.spec_code()
}

/// Whether `eth_type` is the code of a VLAN tag, 802.1Q or 802.1ad.
#[verifier::when_used_as_spec(spec_is_vlan)]
pub fn is_vlan(eth_type: u16) -> (r: bool)
    ensures
        r == spec_is_vlan(eth_type),
{
    eth_type == EtherType::Vlan8021Q.code() || eth_type == EtherType::Vlan8021AD.code()
}

/// Whether `eth_type` is the code of MPLS, unicast or multicast.
#[verifier::when_used_as_spec(spec_is_mpls)]
pub fn is_mpls(eth_type: u16) -> (r: bool)
    ensures
        r == spec_is_mpls(eth_type),
{
    eth_type == EtherType::Mpls.code() || eth_type == EtherType::MplsMcast.code()
}

/// Whether the bytes of `data` from `at` on start with a VLAN tag that is
/// followed by the two bytes of a type.
pub open spec fn vlan_tag_at(data: Seq<u8>, at: int) -> bool {
    at + VLAN_HEADER_SIZE + ETH_TYPE_SIZE <= data.len() && spec_is_vlan(
        be16(data[at], data[at + 1]),
    )
}

/// Number of VLAN tags that the walk takes from the start of `data`: the
/// tags that follow one another there, two at most.
pub open spec fn vlan_count(data: Seq<u8>) -> nat {
    if !vlan_tag_at(data, 0) {
        0
    } else if !vlan_tag_at(data, VLAN_HEADER_SIZE as int) {
        1
    } else {
        2
    }
}

/// The tags that the walk takes from the start of `data`, each as the word
/// that holds its four bytes least significant first.
pub open spec fn vlan_words(data: Seq<u8>) -> Seq<u32> {
    Seq::new(vlan_count(data), |i: int| le32_at(data, VLAN_HEADER_SIZE * i))
}

/// Whether bytes 2 to 9 of `data` are an LLC header and a SNAP header that
/// encapsulate an EtherType.
pub open spec fn snap_follows(data: Seq<u8>) -> bool {
    &&& data.len() >= ETH_TYPE_SIZE + LLC_SNAP_HEADER_SIZE
    &&& data[2] == LLC_DSAP_SNAP
    &&& data[3] == LLC_SSAP_SNAP
    &&& data[4] == LLC_CNTL_SNAP
    &&& data[5] == 0
    &&& data[6] == 0
    &&& data[7] == 0
}

/// Number of bytes that the type field at the start of `data` takes, with
/// the LLC and SNAP headers where it is a length that they follow.
pub open spec fn ethertype_len(data: Seq<u8>) -> nat {
    if be16(data[0], data[1]) < EtherType::Min.spec_code() && snap_follows(data) {
        (ETH_TYPE_SIZE + LLC_SNAP_HEADER_SIZE) as nat
    } else {
        ETH_TYPE_SIZE as nat
    }
}

/// The EtherType that the type field at the start of `data` resolves to: the
/// field where it holds a type; the type that SNAP encapsulates where the
/// field is a length and that type is one; else the code of `NotEth`.
pub open spec fn ethertype_value(data: Seq<u8>) -> u16 {
    let field = be16(data[0], data[1]);
    if field >= EtherType::Min.spec_code() {
        field
    } else if snap_follows(data) && be16(data[8], data[9]) >= EtherType::Min.spec_code() {
        be16(data[8], data[9])
    } else {
        EtherType::NotEth.spec_code()
    }
}

/// Whether entry `k` of the label stack at the start of `data` is marked as
/// the bottom of the stack: bit 8 of its second half in wire order.
pub open spec fn mpls_bos_at(data: Seq<u8>, k: int) -> bool {
    (be16(data[4 * k + 2], data[4 * k + 3]) / 0x100) % 2 == 1
}

/// Number of entries that a scan of the label stack in `data` has passed
/// when it stops, if it has passed `k` entries and none of them was marked
/// as the bottom.
pub open spec fn mpls_scan_from(data: Seq<u8>, k: nat) -> nat
    decreases data.len() - 4 * k,
{
    if 4 * k + 4 > data.len() {
        k
    } else if mpls_bos_at(data, k as int) {
        k + 1
    } else {
        mpls_scan_from(data, k + 1)
    }
}

/// Number of label stack entries that the walk passes: up to and with the
/// first one marked as the bottom, or all the whole entries of `data`.
pub open spec fn mpls_scanned(data: Seq<u8>) -> nat {
    mpls_scan_from(data, 0)
}

/// Number of label stack entries that the walk keeps.
pub open spec fn mpls_count(data: Seq<u8>) -> nat {
    if mpls_scanned(data) < MAX_MPLS_LABELS {
        mpls_scanned(data)
    } else {
        MAX_MPLS_LABELS as nat
    }
}

/// The entries that the walk keeps, each as the word that holds its four
/// bytes least significant first.
pub open spec fn mpls_words(data: Seq<u8>) -> Seq<u32> {
    Seq::new(mpls_count(data), |i: int| le32_at(data, MPLS_HEADER_SIZE * i))
}

/// Walks the label stack at the start of `data`. Returns the number of bytes
/// passed and the number of entries written to `mpls_labels`.
pub fn parse_mpls(data: &[u8], mpls_labels: &mut [u32; 3]) -> (r: (usize, usize))
    ensures
        r.0 == MPLS_HEADER_SIZE * mpls_scanned(data@),
        r.0 <= data@.len(),
        r.1 == mpls_count(data@),
        r.1 <= MAX_MPLS_LABELS,
        final(mpls_labels)@.take(r.1 as int) == mpls_words(data@),
        forall|i: int| r.1 <= i < MAX_MPLS_LABELS ==> final(mpls_labels)[i] == old(mpls_labels)[i],
{
    let len: usize = data.len();
    let mut count: usize = 0;
    let mut offset: usize = 0;
    let mut bottom: bool = false;

    while !bottom && len - offset >= MPLS_HEADER_SIZE
        invariant
            len == data@.len(),
            offset == MPLS_HEADER_SIZE * count,
            offset <= len,
            bottom ==> mpls_scanned(data@) == count,
            !bottom ==> mpls_scanned(data@) == mpls_scan_from(data@, count as nat),
            forall|i: int|
                0 <= i < count && i < MAX_MPLS_LABELS ==> mpls_labels[i] == le32_at(
                    data@,
                    MPLS_HEADER_SIZE * i,
                ),
            forall|i: int| count <= i < MAX_MPLS_LABELS ==> mpls_labels[i] == old(mpls_labels)[i],
        decreases len - offset + if bottom { 0int } else { 1int },
    {
        let mpls_header: MplsHeader = MplsHeader::read(data, offset);
        offset += MPLS_HEADER_SIZE;

        if count < MAX_MPLS_LABELS {
            mpls_labels[count] = mpls_header.as_u32();
        }
        proof {
            let b2: u8 = data@[4 * count + 2];
            let b3: u8 = data@[4 * count + 3];
            assert(swap16(le16(b2, b3)) == be16(b2, b3));
            assert(mpls_header.spec_is_bos() == mpls_bos_at(data@, count as int));
        }
        count += 1;

        if mpls_header.is_bos() {
            bottom = true;
        }
    }

    let kept: usize = if count < MAX_MPLS_LABELS {
        count
    } else {
        MAX_MPLS_LABELS
    };
    proof {
        assert(mpls_labels@.take(kept as int) =~= mpls_words(data@));
    }
    (offset, kept)
}

/// Resolves the type field at the start of `data`. Returns the number of
/// bytes that it takes and the EtherType.
pub fn parse_ethertype(data: &[u8]) -> (r: (usize, u16))
    requires
        data@.len() >= ETH_TYPE_SIZE,
    ensures
        r.0 == ethertype_len(data@),
        r.1 == ethertype_value(data@),
{
    let len: usize = data.len();
    let mut offset: usize = 0;

    let eth_type: u16 = read_u16_be(data);
    offset += ETH_TYPE_SIZE;

    if eth_type >= EtherType::Min.code() {
        return (offset, eth_type);
    }
    if len - offset < LLC_SNAP_HEADER_SIZE {
        return (offset, EtherType::NotEth.code());
    }
    let llc: LlcSnapHeader = LlcSnapHeader::read(data, offset);
    if !llc.is_snap() {
        return (offset, EtherType::NotEth.code());
    }
    offset += LLC_SNAP_HEADER_SIZE;
    if llc.snap_header.snap_type >= EtherType::Min.code() {
        return (offset, llc.snap_header.snap_type);
    }
    (offset, EtherType::NotEth.code())
}

/// Takes the VLAN tags at the start of `data`, which holds at least the two
/// bytes of a type. Returns the number of bytes passed and the number of
/// tags written to `vlan_hdrs`.
pub fn parse_vlan(data: &[u8], vlan_hdrs: &mut [u32; 2]) -> (r: (usize, usize))
    requires
        data@.len() >= ETH_TYPE_SIZE,
    ensures
        r.0 == VLAN_HEADER_SIZE * vlan_count(data@),
        r.1 == vlan_count(data@),
        r.1 <= MAX_VLAN_HEADERS,
        r.0 + ETH_TYPE_SIZE <= data@.len(),
        final(vlan_hdrs)@.take(r.1 as int) == vlan_words(data@),
        forall|i: int| r.1 <= i < MAX_VLAN_HEADERS ==> final(vlan_hdrs)[i] == old(vlan_hdrs)[i],
{
    let len: usize = data.len();
    let mut eth_type: u16 = read_u16_be(data);
    let mut offset: usize = 0;
    let mut n: usize = 0;

    while is_vlan(eth_type) && n < MAX_VLAN_HEADERS && len - offset >= ETH_TYPE_SIZE
        + VLAN_HEADER_SIZE
        invariant
            len == data@.len(),
            n <= MAX_VLAN_HEADERS,
            offset == VLAN_HEADER_SIZE * n,
            offset + ETH_TYPE_SIZE <= len,
            eth_type == be16(data@[offset as int], data@[offset + 1]),
            n >= 1 ==> vlan_tag_at(data@, 0),
            n >= 2 ==> vlan_tag_at(data@, VLAN_HEADER_SIZE as int),
            forall|i: int| 0 <= i < n ==> vlan_hdrs[i] == le32_at(data@, VLAN_HEADER_SIZE * i),
            forall|i: int| n <= i < MAX_VLAN_HEADERS ==> vlan_hdrs[i] == old(vlan_hdrs)[i],
        decreases MAX_VLAN_HEADERS - n,
    {
        let vlan_hdr: VlanHeader = VlanHeader::read(data, offset);
        offset += VLAN_HEADER_SIZE;

        vlan_hdrs[n] = vlan_hdr.qtag_be();
        eth_type = read_u16_be(slice_subrange(data, offset, offset + ETH_TYPE_SIZE));
        n += 1;
    }
    proof {
        assert(n < MAX_VLAN_HEADERS ==> !vlan_tag_at(data@, VLAN_HEADER_SIZE * n));
        assert(vlan_hdrs@.take(n as int) =~= vlan_words(data@));
    }
    (offset, n)
}

/// Whether a packet-type tag, held in wire order, is that of a raw
/// Ethernet frame.
pub open spec fn is_eth(packet_type_be: u32) -> bool {
    packet_type_be == swap32(PT_ETH)
}

/// Number of bytes that the Ethernet addresses and the VLAN tags of a raw
/// frame take.
pub open spec fn l2_type_ofs(data: Seq<u8>) -> nat {
    2 * ETH_ADDR_SIZE as nat + VLAN_HEADER_SIZE as nat * vlan_count(data.skip(2 * ETH_ADDR_SIZE))
}

/// Number of bytes of the layer-2 header of a packet: those of the
/// addresses, the VLAN tags and the type of a raw frame, none of a packet
/// that is tagged with another type.
pub open spec fn l2_header_len(data: Seq<u8>, packet_type_be: u32) -> nat {
    if is_eth(packet_type_be) {
        l2_type_ofs(data) + ethertype_len(data.skip(l2_type_ofs(data) as int))
    } else {
        0
    }
}

/// The EtherType of a packet: the one that the type field of a raw frame
/// resolves to, or the subtype of the tag of a packet that is tagged with
/// another type.
pub open spec fn l2_dl_type(data: Seq<u8>, packet_type_be: u32) -> u16 {
    if is_eth(packet_type_be) {
        ethertype_value(data.skip(l2_type_ofs(data) as int))
    } else {
        (swap32(packet_type_be) % 0x1_0000) as u16
    }
}

/// The bytes that follow the layer-2 header of a packet.
pub open spec fn l2_payload(data: Seq<u8>, packet_type_be: u32) -> Seq<u8> {
    data.skip(l2_header_len(data, packet_type_be) as int)
}

/// Number of bytes that the walk passes: the layer-2 header and, where the
/// EtherType is MPLS, the label stack.
pub open spec fn l2_consumed(data: Seq<u8>, packet_type_be: u32) -> nat {
    if spec_is_mpls(l2_dl_type(data, packet_type_be)) {
        l2_header_len(data, packet_type_be) + MPLS_HEADER_SIZE as nat * mpls_scanned(
            l2_payload(data, packet_type_be),
        )
    } else {
        l2_header_len(data, packet_type_be)
    }
}

/// Where the label stack starts, or `u16::MAX` where the EtherType is not
/// MPLS.
pub open spec fn l2_mpls_ofs(data: Seq<u8>, packet_type_be: u32) -> u16 {
    if spec_is_mpls(l2_dl_type(data, packet_type_be)) {
        l2_header_len(data, packet_type_be) as u16
    } else {
        u16::MAX
    }
}

/// What the walk pushes for a raw frame before the label stack: the two
/// addresses, the EtherType in wire order with padding up to the end of its
/// word, and the VLAN tags if there are any.
pub open spec fn l2_encode_eth(st: MfState, data: Seq<u8>, packet_type_be: u32) -> MfState {
    let vlans = data.skip(2 * ETH_ADDR_SIZE);
    let typed = st.push_macs(FLOW_DL_DST_OFS as nat, data).push_field(
        FLOW_DL_TYPE_OFS as nat,
        2,
        swap16(l2_dl_type(data, packet_type_be)) as int,
    ).pad_to_64((FLOW_DL_TYPE_OFS + ETH_TYPE_SIZE) as nat);
    if vlan_count(vlans) > 0 {
        typed.push_words_32(FLOW_VLANS_OFS as nat, vlan_words(vlans))
    } else {
        typed
    }
}

/// What the walk pushes for a packet that is tagged with another type,
/// before the label stack: padding in place of the source address, the
/// EtherType in wire order, and padding up to the end of its word.
pub open spec fn l2_encode_tagged(st: MfState, data: Seq<u8>, packet_type_be: u32) -> MfState {
    st.pad_from_64(FLOW_DL_TYPE_OFS as nat).push_field(
        FLOW_DL_TYPE_OFS as nat,
        2,
        swap16(l2_dl_type(data, packet_type_be)) as int,
    ).pad_to_64((FLOW_DL_TYPE_OFS + ETH_TYPE_SIZE) as nat)
}

/// What the walk makes of an encoder: the pushes for the layer-2 header,
/// then, where the EtherType is MPLS, one push of the label stack entries
/// that are kept.
pub open spec fn l2_encode(st: MfState, data: Seq<u8>, packet_type_be: u32) -> MfState {
    let framed = if is_eth(packet_type_be) {
        l2_encode_eth(st, data, packet_type_be)
    } else {
        l2_encode_tagged(st, data, packet_type_be)
    };
    if spec_is_mpls(l2_dl_type(data, packet_type_be)) {
        framed.push_words_32(
            FLOW_MPLS_LSE_OFS as nat,
            mpls_words(l2_payload(data, packet_type_be)),
        )
    } else {
        framed
    }
}

/// Walks the layer-2 headers of a packet and pushes what it finds to `mf`.
///
/// A raw Ethernet frame of fewer than `ETH_HEADER_SIZE` bytes is rejected
/// with `BadLength`, and `mf` is left as it was. Every other packet gives the
/// number of bytes passed and the offset of the MPLS label stack, which is
/// `u16::MAX` where there is none.
pub fn parse_l2(data: &[u8], mf: &mut mf_ctx, packet_type_be: u32) -> (r: Result<
    (usize, u16),
    ParseError,
>)
    requires
        old(mf)@.wf(),
    ensures
        final(mf)@.wf(),
        r is Err <==> is_eth(packet_type_be) && data@.len() < ETH_HEADER_SIZE,
        match r {
            Err(e) => e == ParseError::BadLength && final(mf)@ == old(mf)@,
            Ok((consumed, mpls_ofs)) => {
                &&& consumed == l2_consumed(data@, packet_type_be)
                &&& consumed <= data@.len()
                &&& mpls_ofs == l2_mpls_ofs(data@, packet_type_be)
                &&& final(mf)@ == l2_encode(old(mf)@, data@, packet_type_be)
                &&& final(mf)@ == old(mf)@.emit(
                    l2_slots(data@, packet_type_be),
                    l2_pushes(data@, packet_type_be),
                    l2_words(data@, packet_type_be),
                )
            },
        },
        pushes_ordered(l2_pushes(data@, packet_type_be)),
{
    proof {
        lemma_l2_emits(mf@, data@, packet_type_be);
        lemma_l2_pushes_ordered(data@, packet_type_be);
    }
    let len: usize = data.len();
    let mut offset: usize = 0;
    let dl_type: u16;
    let mut l2_5_ofs: u16 = u16::MAX;

    if packet_type_be == swap_bytes32(PT_ETH) {
        if len < ETH_HEADER_SIZE {
            return Err(ParseError::BadLength);
        }
        mf.miniflow_push_macs_(FLOW_DL_DST_OFS, data);
        offset += 2 * ETH_ADDR_SIZE;

        let mut vlan_hdrs: [u32; 2] = [0;2];
        let (used, n_vlans): (usize, usize) = parse_vlan(
            slice_subrange(data, offset, len),
            &mut vlan_hdrs,
        );
        proof {
            assert(data@.subrange(offset as int, len as int) =~= data@.skip(
                2 * ETH_ADDR_SIZE as int,
            ));
        }
        offset += used;

        let (used, eth_type): (usize, u16) = parse_ethertype(slice_subrange(data, offset, len));
        proof {
            assert(data@.subrange(offset as int, len as int) =~= data@.skip(
                l2_type_ofs(data@) as int,
            ));
        }
        offset += used;
        dl_type = eth_type;
        mf.miniflow_push_be16_(FLOW_DL_TYPE_OFS, swap_bytes16(dl_type));
        mf.miniflow_pad_to_64_(FLOW_DL_TYPE_OFS + ETH_TYPE_SIZE);

        if n_vlans > 0 {
            mf.miniflow_push_words_32_(FLOW_VLANS_OFS, vlan_hdrs.as_slice(), n_vlans);
        }
    } else {
        dl_type = (swap_bytes32(packet_type_be) % 0x1_0000) as u16;
        mf.miniflow_pad_from_64_(FLOW_DL_TYPE_OFS);
        mf.miniflow_push_be16_(FLOW_DL_TYPE_OFS, swap_bytes16(dl_type));
        mf.miniflow_pad_to_64_(FLOW_DL_TYPE_OFS + ETH_TYPE_SIZE);
    }

    if is_mpls(dl_type) {
        l2_5_ofs = offset as u16;
        let mut mpls_labels: [u32; 3] = [0;3];
        let (used, count): (usize, usize) = parse_mpls(
            slice_subrange(data, offset, len),
            &mut mpls_labels,
        );
        proof {
            assert(data@.subrange(offset as int, len as int) =~= l2_payload(
                data@,
                packet_type_be,
            ));
        }
        offset += used;
        mf.miniflow_push_words_32_(FLOW_MPLS_LSE_OFS, mpls_labels.as_slice(), count);
    }
    Ok((offset, l2_5_ofs))
}

/// What the projection pushes for a tunnel: nothing where the tunnel has no
/// destination; else the words of the tunnel record before its metadata,
/// and then, of the metadata, all its words where options were sorted into
/// known types and any is present, or the word of the length and the words
/// that the options cover where they are held as they came off the wire.
pub open spec fn tunnel_encode(st: MfState, tnl: flow_tnl) -> MfState {
    let md_ofs = (FLOW_TUNNEL_OFS + FLOW_TNL_METADATA_OFS) as nat;
    if !tnl.spec_dst_is_set() {
        st
    } else {
        let header = st.push_words(FLOW_TUNNEL_OFS as nat, tnl.header_words());
        if tnl.flags & FLOW_TNL_F_UDPIF == 0 {
            if tnl.metadata.present.spec_map() != 0 {
                header.push_words(md_ofs, tnl.metadata.words())
            } else {
                header
            }
        } else if tnl.metadata.present.spec_len() != 0 {
            header.push_words(
                md_ofs + TUN_METADATA_PRESENT_OFS as nat,
                seq![tnl.metadata.present.spec_map()],
            ).push_words(
                md_ofs + TUN_METADATA_OPTS_OFS as nat,
                tnl.metadata.opts@.take((tnl.metadata.present.spec_len() + 7) / 8),
            )
        } else {
            header
        }
    }
}

/// What the projection pushes where a connection is tracked: the
/// recirculation id, the state, a zero in place of the protocol of the
/// connection, the zone, the mark, the packet-type tag, and the label
/// unless it is zero.
pub open spec fn ct_encode(st: MfState, md: pkt_metadata, packet_type_be: u32) -> MfState {
    let fields = st.push_field(FLOW_RECIRC_ID_OFS as nat, 4, md.recirc_id as int).push_field(
        FLOW_CT_STATE_OFS as nat,
        1,
        md.ct_state as int,
    ).push_field(FLOW_CT_NW_PROTO_OFS as nat, 1, 0).push_field(
        FLOW_CT_ZONE_OFS as nat,
        2,
        md.ct_zone as int,
    ).push_field(FLOW_CT_MARK_OFS as nat, 4, md.ct_mark as int).push_field(
        FLOW_PACKET_TYPE_OFS as nat,
        4,
        packet_type_be as int,
    );
    if !md.ct_label.spec_is_zero() {
        fields.push_words(FLOW_CT_LABEL_OFS as nat, md.ct_label.words())
    } else {
        fields
    }
}

/// What the projection pushes where no connection is tracked: the
/// recirculation id, padded to the end of its word, unless it is zero; then
/// padding up to the packet-type tag, and the tag.
pub open spec fn no_ct_encode(st: MfState, md: pkt_metadata, packet_type_be: u32) -> MfState {
    let recirc = if md.recirc_id != 0 {
        st.push_field(FLOW_RECIRC_ID_OFS as nat, 4, md.recirc_id as int).pad_to_64(
            (FLOW_RECIRC_ID_OFS + 4) as nat,
        )
    } else {
        st
    };
    recirc.pad_from_64(FLOW_PACKET_TYPE_OFS as nat).push_field(
        FLOW_PACKET_TYPE_OFS as nat,
        4,
        packet_type_be as int,
    )
}

/// What the projection makes of an encoder: the pushes for the tunnel; the
/// priority and the mark, both or neither, unless both are zero; the
/// datapath hash and the input port; then the fields of connection tracking
/// and the packet-type tag.
pub open spec fn metadata_encode(st: MfState, md: pkt_metadata, packet_type_be: u32) -> MfState {
    let tunnel = tunnel_encode(st, md.tunnel);
    let marked = if md.skb_priority != 0 || md.pkt_mark != 0 {
        tunnel.push_field(FLOW_SKB_PRIORITY_OFS as nat, 4, md.skb_priority as int).push_field(
            FLOW_PKT_MARK_OFS as nat,
            4,
            md.pkt_mark as int,
        )
    } else {
        tunnel
    };
    let port = marked.push_field(FLOW_DP_HASH_OFS as nat, 4, md.dp_hash as int).push_field(
        FLOW_IN_PORT_OFS as nat,
        4,
        md.in_port.spec_odp_port() as int,
    );
    if md.ct_state != 0 {
        ct_encode(port, md, packet_type_be)
    } else {
        no_ct_encode(port, md, packet_type_be)
    }
}

/// Pushes the metadata of a packet and its packet-type tag to `mf`.
pub fn parse_metadata(md: &pkt_metadata, packet_type_be: u32, mf: &mut mf_ctx)
    requires
        old(mf)@.wf(),
    ensures
        final(mf)@.wf(),
        final(mf)@ == metadata_encode(old(mf)@, *md, packet_type_be),
        final(mf)@ == old(mf)@.emit(
            metadata_slots(*md),
            metadata_pushes(*md),
            metadata_words(*md, packet_type_be),
        ),
        pushes_ordered(metadata_pushes(*md)),
{
    proof {
        lemma_metadata_emits(mf@, *md, packet_type_be);
        lemma_metadata_pushes_ordered(*md);
    }
    if md.tunnel.dst_is_set() {
        let header: [u64; 9] = md.tunnel.as_u64_slice();
        mf.miniflow_push_words_(FLOW_TUNNEL_OFS, header.as_slice(), FLOW_TNL_HEADER_WORDS);
        proof {
            assert(header@.take(FLOW_TNL_HEADER_WORDS as int) =~= md.tunnel.header_words());
        }
        let md_ofs: usize = FLOW_TUNNEL_OFS + FLOW_TNL_METADATA_OFS;

        if md.tunnel.flags & FLOW_TNL_F_UDPIF == 0 {
            if md.tunnel.metadata.present.map() != 0 {
                let words: Vec<u64> = md.tunnel.metadata.as_u64_slice();
                mf.miniflow_push_words_(md_ofs, words.as_slice(), TUN_METADATA_WORDS);
                proof {
                    assert(words@.take(TUN_METADATA_WORDS as int) =~= md.tunnel.metadata.words());
                }
            }
        } else {
            let opts_len: u8 = md.tunnel.metadata.present.len();
            if opts_len != 0 {
                let present: [u64; 1] = [md.tunnel.metadata.present.map()];
                mf.miniflow_push_words_(md_ofs + TUN_METADATA_PRESENT_OFS, present.as_slice(), 1);
                proof {
                    assert(present@.take(1) =~= seq![md.tunnel.metadata.present.spec_map()]);
                }
                mf.miniflow_push_words_(
                    md_ofs + TUN_METADATA_OPTS_OFS,
                    md.tunnel.metadata.opts.as_slice(),
                    (opts_len as usize + 7) / 8,
                );
            }
        }
    }
    if md.skb_priority != 0 || md.pkt_mark != 0 {
        mf.miniflow_push_uint32_(FLOW_SKB_PRIORITY_OFS, md.skb_priority);
        mf.miniflow_push_uint32_(FLOW_PKT_MARK_OFS, md.pkt_mark);
    }
    mf.miniflow_push_uint32_(FLOW_DP_HASH_OFS, md.dp_hash);
    mf.miniflow_push_uint32_(FLOW_IN_PORT_OFS, md.in_port.odp_port());

    if md.ct_state != 0 {
        mf.miniflow_push_uint32_(FLOW_RECIRC_ID_OFS, md.recirc_id);
        mf.miniflow_push_uint8_(FLOW_CT_STATE_OFS, md.ct_state);
        mf.miniflow_push_uint8_(FLOW_CT_NW_PROTO_OFS, 0);
        mf.miniflow_push_uint16_(FLOW_CT_ZONE_OFS, md.ct_zone);
        mf.miniflow_push_uint32_(FLOW_CT_MARK_OFS, md.ct_mark);
        mf.miniflow_push_be32_(FLOW_PACKET_TYPE_OFS, packet_type_be);

        if !md.ct_label.is_zero() {
            let label: [u64; 2] = md.ct_label.as_u64_slice();
            mf.miniflow_push_words_(FLOW_CT_LABEL_OFS, label.as_slice(), 2);
            proof {
                assert(label@.take(2) =~= md.ct_label.words());
            }
        }
    } else {
        if md.recirc_id != 0 {
            mf.miniflow_push_uint32_(FLOW_RECIRC_ID_OFS, md.recirc_id);
            mf.miniflow_pad_to_64_(FLOW_RECIRC_ID_OFS + 4);
        }
        mf.miniflow_pad_from_64_(FLOW_PACKET_TYPE_OFS);
        mf.miniflow_push_be32_(FLOW_PACKET_TYPE_OFS, packet_type_be);
    }
}

/// The pushes that the walk makes for the layer-2 header, in their order,
/// each with its byte offset in the flow record and its length in bytes.
pub open spec fn l2_header_pushes(data: Seq<u8>, packet_type_be: u32) -> Seq<(nat, nat)> {
    let vlans = vlan_count(data.skip(2 * ETH_ADDR_SIZE));
    let dl_type = seq![(FLOW_DL_TYPE_OFS as nat, ETH_TYPE_SIZE as nat)];
    if !is_eth(packet_type_be) {
        dl_type
    } else if vlans > 0 {
        seq![(FLOW_DL_DST_OFS as nat, 2 * ETH_ADDR_SIZE as nat)] + dl_type + seq![
            (FLOW_VLANS_OFS as nat, VLAN_HEADER_SIZE as nat * vlans),
        ]
    } else {
        seq![(FLOW_DL_DST_OFS as nat, 2 * ETH_ADDR_SIZE as nat)] + dl_type
    }
}

/// The pushes that the walk makes, in their order: those for the layer-2
/// header, then the one of the label stack where the EtherType is MPLS.
pub open spec fn l2_pushes(data: Seq<u8>, packet_type_be: u32) -> Seq<(nat, nat)> {
    if spec_is_mpls(l2_dl_type(data, packet_type_be)) {
        l2_header_pushes(data, packet_type_be) + seq![
            (
                FLOW_MPLS_LSE_OFS as nat,
                MPLS_HEADER_SIZE as nat * mpls_count(l2_payload(data, packet_type_be)),
            ),
        ]
    } else {
        l2_header_pushes(data, packet_type_be)
    }
}

/// The pushes that the projection makes for a tunnel, in their order.
pub open spec fn tunnel_pushes(tnl: flow_tnl) -> Seq<(nat, nat)> {
    let md_ofs = (FLOW_TUNNEL_OFS + FLOW_TNL_METADATA_OFS) as nat;
    let header = seq![(FLOW_TUNNEL_OFS as nat, 8 * FLOW_TNL_HEADER_WORDS as nat)];
    if !tnl.spec_dst_is_set() {
        Seq::empty()
    } else if tnl.flags & FLOW_TNL_F_UDPIF == 0 {
        if tnl.metadata.present.spec_map() != 0 {
            header + seq![(md_ofs, 8 * TUN_METADATA_WORDS as nat)]
        } else {
            header
        }
    } else if tnl.metadata.present.spec_len() != 0 {
        header + seq![
            (md_ofs + TUN_METADATA_PRESENT_OFS as nat, 8nat),
            (
                md_ofs + TUN_METADATA_OPTS_OFS as nat,
                (8 * ((tnl.metadata.present.spec_len() + 7) / 8)) as nat,
            ),
        ]
    } else {
        header
    }
}

/// The pushes that the projection makes for priority, mark, datapath hash
/// and input port, in their order.
pub open spec fn port_pushes(md: pkt_metadata) -> Seq<(nat, nat)> {
    let port = seq![(FLOW_DP_HASH_OFS as nat, 4nat), (FLOW_IN_PORT_OFS as nat, 4nat)];
    if md.skb_priority != 0 || md.pkt_mark != 0 {
        seq![(FLOW_SKB_PRIORITY_OFS as nat, 4nat), (FLOW_PKT_MARK_OFS as nat, 4nat)] + port
    } else {
        port
    }
}

/// The pushes that the projection makes for the fields of connection
/// tracking and the packet-type tag, in their order.
pub open spec fn ct_pushes(md: pkt_metadata) -> Seq<(nat, nat)> {
    let fields = seq![
        (FLOW_RECIRC_ID_OFS as nat, 4nat),
        (FLOW_CT_STATE_OFS as nat, 1nat),
        (FLOW_CT_NW_PROTO_OFS as nat, 1nat),
        (FLOW_CT_ZONE_OFS as nat, 2nat),
        (FLOW_CT_MARK_OFS as nat, 4nat),
        (FLOW_PACKET_TYPE_OFS as nat, 4nat),
    ];
    if md.ct_state != 0 {
        if !md.ct_label.spec_is_zero() {
            fields + seq![(FLOW_CT_LABEL_OFS as nat, 16nat)]
        } else {
            fields
        }
    } else if md.recirc_id != 0 {
        seq![(FLOW_RECIRC_ID_OFS as nat, 4nat), (FLOW_PACKET_TYPE_OFS as nat, 4nat)]
    } else {
        seq![(FLOW_PACKET_TYPE_OFS as nat, 4nat)]
    }
}

/// The pushes that the projection makes, in their order.
pub open spec fn metadata_pushes(md: pkt_metadata) -> Seq<(nat, nat)> {
    tunnel_pushes(md.tunnel) + port_pushes(md) + ct_pushes(md)
}

/// The word that holds the EtherType of a packet: the last four bytes of
/// the source address in its low half, then the EtherType in wire order,
/// then two zero bytes.
pub open spec fn dl_type_word(src_tail: u32, dl_type: u16) -> u64 {
    (src_tail as int + swap16(dl_type) as int * 0x1_0000_0000) as u64
}

/// The slots that the walk marks.
pub open spec fn l2_slots(data: Seq<u8>, packet_type_be: u32) -> Set<nat> {
    let header = if is_eth(packet_type_be) {
        slot_range(FLOW_DL_DST_OFS as nat / 8, 2).union(
            slot_range(
                FLOW_VLANS_OFS as nat / 8,
                pack32(vlan_words(data.skip(2 * ETH_ADDR_SIZE))).len(),
            ),
        )
    } else {
        slot_range(FLOW_DL_TYPE_OFS as nat / 8, 1)
    };
    if spec_is_mpls(l2_dl_type(data, packet_type_be)) {
        header.union(
            slot_range(
                FLOW_MPLS_LSE_OFS as nat / 8,
                pack32(mpls_words(l2_payload(data, packet_type_be))).len(),
            ),
        )
    } else {
        header
    }
}

/// The words that the walk writes, in their order. For a raw frame: the
/// first eight bytes of the addresses; the other four with the EtherType;
/// the VLAN tags, two to a word. For a packet that is tagged with another
/// type: the EtherType behind four zero bytes. Then, where the EtherType is
/// MPLS, the label stack entries that are kept, two to a word.
pub open spec fn l2_words(data: Seq<u8>, packet_type_be: u32) -> Seq<u64> {
    let dl_type = l2_dl_type(data, packet_type_be);
    let header = if is_eth(packet_type_be) {
        seq![le64_at(data, 0), dl_type_word(le32_at(data, 8), dl_type)] + pack32(
            vlan_words(data.skip(2 * ETH_ADDR_SIZE)),
        )
    } else {
        seq![dl_type_word(0, dl_type)]
    };
    if spec_is_mpls(dl_type) {
        header + pack32(mpls_words(l2_payload(data, packet_type_be)))
    } else {
        header
    }
}

/// The word of a connection that is tracked: the recirculation id in its
/// low half, then the state, a zero byte, and the zone.
pub open spec fn ct_word(md: pkt_metadata) -> u64 {
    (md.recirc_id as int + md.ct_state as int * 0x1_0000_0000 + md.ct_zone as int
        * 0x1_0000_0000_0000) as u64
}

/// The slots that the projection marks for a tunnel.
pub open spec fn tunnel_slots(tnl: flow_tnl) -> Set<nat> {
    let md_slot = (FLOW_TUNNEL_OFS + FLOW_TNL_METADATA_OFS) as nat / 8;
    let header = slot_range(FLOW_TUNNEL_OFS as nat / 8, FLOW_TNL_HEADER_WORDS as nat);
    if !tnl.spec_dst_is_set() {
        Set::empty()
    } else if tnl.flags & FLOW_TNL_F_UDPIF == 0 {
        if tnl.metadata.present.spec_map() != 0 {
            header.union(slot_range(md_slot, TUN_METADATA_WORDS as nat))
        } else {
            header
        }
    } else if tnl.metadata.present.spec_len() != 0 {
        header.union(slot_range(md_slot + TUN_METADATA_PRESENT_OFS as nat / 8, 1)).union(
            slot_range(
                md_slot + TUN_METADATA_OPTS_OFS as nat / 8,
                ((tnl.metadata.present.spec_len() + 7) / 8) as nat,
            ),
        )
    } else {
        header
    }
}

/// The words that the projection writes for a tunnel, in their order.
pub open spec fn tunnel_words(tnl: flow_tnl) -> Seq<u64> {
    if !tnl.spec_dst_is_set() {
        Seq::empty()
    } else if tnl.flags & FLOW_TNL_F_UDPIF == 0 {
        if tnl.metadata.present.spec_map() != 0 {
            tnl.header_words() + tnl.metadata.words()
        } else {
            tnl.header_words()
        }
    } else if tnl.metadata.present.spec_len() != 0 {
        tnl.header_words() + seq![tnl.metadata.present.spec_map()] + tnl.metadata.opts@.take(
            (tnl.metadata.present.spec_len() + 7) / 8,
        )
    } else {
        tnl.header_words()
    }
}

/// The slots that the projection marks for priority, mark, datapath hash
/// and input port.
pub open spec fn port_slots(md: pkt_metadata) -> Set<nat> {
    let port = slot_range(FLOW_DP_HASH_OFS as nat / 8, 1);
    if md.skb_priority != 0 || md.pkt_mark != 0 {
        slot_range(FLOW_SKB_PRIORITY_OFS as nat / 8, 1).union(port)
    } else {
        port
    }
}

/// The words that the projection writes for priority, mark, datapath hash
/// and input port: the priority with the mark, unless both are zero, and
/// the hash with the port.
pub open spec fn port_words(md: pkt_metadata) -> Seq<u64> {
    let port = seq![le64_halves(md.dp_hash, md.in_port.spec_odp_port())];
    if md.skb_priority != 0 || md.pkt_mark != 0 {
        seq![le64_halves(md.skb_priority, md.pkt_mark)] + port
    } else {
        port
    }
}

/// The slots that the projection marks for the fields of connection
/// tracking and the packet-type tag.
pub open spec fn ct_slots(md: pkt_metadata) -> Set<nat> {
    let tag = slot_range(FLOW_PACKET_TYPE_OFS as nat / 8, 1);
    let recirc = slot_range(FLOW_RECIRC_ID_OFS as nat / 8, 1);
    if md.ct_state != 0 {
        if !md.ct_label.spec_is_zero() {
            recirc.union(tag).union(slot_range(FLOW_CT_LABEL_OFS as nat / 8, 2))
        } else {
            recirc.union(tag)
        }
    } else if md.recirc_id != 0 {
        recirc.union(tag)
    } else {
        tag
    }
}

/// The words that the projection writes for the fields of connection
/// tracking and the packet-type tag. Where a connection is tracked: the word
/// of the connection, the mark with the tag, and the label unless it is
/// zero. Where none is: the recirculation id in a word of its own unless it
/// is zero, and the tag behind four zero bytes.
pub open spec fn ct_words(md: pkt_metadata, packet_type_be: u32) -> Seq<u64> {
    if md.ct_state != 0 {
        let fields = seq![ct_word(md), le64_halves(md.ct_mark, packet_type_be)];
        if !md.ct_label.spec_is_zero() {
            fields + md.ct_label.words()
        } else {
            fields
        }
    } else if md.recirc_id != 0 {
        seq![md.recirc_id as u64, le64_halves(0, packet_type_be)]
    } else {
        seq![le64_halves(0, packet_type_be)]
    }
}

/// The slots that the projection marks.
pub open spec fn metadata_slots(md: pkt_metadata) -> Set<nat> {
    tunnel_slots(md.tunnel).union(port_slots(md)).union(ct_slots(md))
}

/// The words that the projection writes, in their order.
pub open spec fn metadata_words(md: pkt_metadata, packet_type_be: u32) -> Seq<u64> {
    tunnel_words(md.tunnel) + port_words(md) + ct_words(md, packet_type_be)
}

} // verus!
