//! What the walk and the projection come to: the slots, pushes and words
//! that they emit, and the order of their pushes.

use vstd::prelude::*;
use crate::endian::{
    le32_at, le64_at, le64_halves, lemma_splice_half_and_field, lemma_splice_low, low_bytes,
    splice, swap16,
};
use crate::flow::{
    FLOW_CT_LABEL_OFS, FLOW_CT_MARK_OFS, FLOW_CT_NW_PROTO_OFS, FLOW_CT_STATE_OFS,
    FLOW_CT_ZONE_OFS, FLOW_DL_DST_OFS, FLOW_DL_TYPE_OFS, FLOW_DP_HASH_OFS, FLOW_IN_PORT_OFS,
    FLOW_MPLS_LSE_OFS, FLOW_PACKET_TYPE_OFS, FLOW_PKT_MARK_OFS, FLOW_RECIRC_ID_OFS,
    FLOW_SKB_PRIORITY_OFS, FLOW_TNL_F_UDPIF, FLOW_TNL_METADATA_OFS, FLOW_TUNNEL_OFS,
    FLOW_VLANS_OFS, TUN_METADATA_OPTS_OFS, TUN_METADATA_PRESENT_OFS, flow_tnl,
};
use crate::miniflow::{
    lemma_emit_emit, lemma_emit_nothing, lemma_push_halves_emits, lemma_push_high_half_emits,
    lemma_push_low_half_emits, lemma_push_words_32_emits, lemma_push_words_emits,
    lemma_pushes_ordered_concat, lemma_store_run, lemma_store_run_one, pack32, pushes_ordered,
    slot_range, MfState,
};
use crate::packet::{
    pkt_metadata, ETH_ADDR_SIZE, ETH_TYPE_SIZE, MAX_MPLS_LABELS, MAX_VLAN_HEADERS,
    MPLS_HEADER_SIZE,
};
use crate::parser::{
    ct_encode, ct_pushes, ct_slots, ct_word, ct_words, dl_type_word, is_eth, l2_dl_type,
    l2_encode, l2_encode_eth, l2_encode_tagged, l2_header_pushes, l2_payload, l2_pushes,
    l2_slots, l2_words, metadata_encode, metadata_pushes, metadata_slots, metadata_words,
    mpls_bos_at, mpls_count, mpls_scan_from, mpls_scanned, mpls_words, no_ct_encode,
    port_pushes, port_slots, port_words, spec_is_mpls, tunnel_encode, tunnel_pushes,
    tunnel_slots, tunnel_words, vlan_count, vlan_words,
};

verus! {

/// The walk makes its pushes in the order of the flow record: each at a
/// higher offset than the one before, and none into the bytes of another.
pub proof fn lemma_l2_pushes_ordered(data: Seq<u8>, packet_type_be: u32)
    ensures
        pushes_ordered(l2_pushes(data, packet_type_be)),
{
    let header = l2_header_pushes(data, packet_type_be);
    assert(pushes_ordered(header));
    if spec_is_mpls(l2_dl_type(data, packet_type_be)) {
        let labels = mpls_words(l2_payload(data, packet_type_be));
        let last = seq![(FLOW_MPLS_LSE_OFS as nat, MPLS_HEADER_SIZE as nat * labels.len())];
        lemma_pushes_ordered_concat(header, last, FLOW_MPLS_LSE_OFS as nat);
    }
}

/// The walk keeps two VLAN tags at most and three label stack entries at
/// most. It passes every entry of the label stack up to and with the first
/// one that is marked as the bottom, or every whole entry of the bytes where
/// none is marked.
pub proof fn lemma_walk_bounds(data: Seq<u8>)
    ensures
        vlan_count(data) <= MAX_VLAN_HEADERS,
        vlan_words(data).len() <= MAX_VLAN_HEADERS,
        mpls_count(data) <= MAX_MPLS_LABELS,
        mpls_count(data) <= mpls_scanned(data),
        MPLS_HEADER_SIZE * mpls_scanned(data) <= data.len(),
        forall|k: int| 0 <= k < mpls_scanned(data) - 1 ==> !mpls_bos_at(data, k),
        MPLS_HEADER_SIZE * mpls_scanned(data) + MPLS_HEADER_SIZE <= data.len() ==> mpls_scanned(
            data,
        ) > 0 && mpls_bos_at(data, mpls_scanned(data) - 1),
{
    lemma_mpls_scan_from(data, 0);
}

proof fn lemma_mpls_scan_from(data: Seq<u8>, k: nat)
    requires
        4 * k <= data.len(),
    ensures
        k <= mpls_scan_from(data, k),
        4 * mpls_scan_from(data, k) <= data.len(),
        forall|j: int| k <= j < mpls_scan_from(data, k) - 1 ==> !mpls_bos_at(data, j),
        4 * mpls_scan_from(data, k) + 4 <= data.len() ==> mpls_scan_from(data, k) > k
            && mpls_bos_at(data, mpls_scan_from(data, k) - 1),
    decreases data.len() - 4 * k,
{
    if 4 * k + 4 <= data.len() && !mpls_bos_at(data, k as int) {
        lemma_mpls_scan_from(data, k + 1);
    }
}

proof fn lemma_tunnel_pushes_ordered(tnl: flow_tnl)
    ensures
        pushes_ordered(tunnel_pushes(tnl)),
        forall|i: int|
            0 <= i < tunnel_pushes(tnl).len() ==> (#[trigger] tunnel_pushes(tnl)[i]).0
                < FLOW_SKB_PRIORITY_OFS && tunnel_pushes(tnl)[i].0 + tunnel_pushes(tnl)[i].1
                <= FLOW_SKB_PRIORITY_OFS,
{
}

proof fn lemma_port_pushes_ordered(md: pkt_metadata)
    ensures
        pushes_ordered(port_pushes(md)),
        forall|i: int|
            0 <= i < port_pushes(md).len() ==> FLOW_SKB_PRIORITY_OFS <= (#[trigger] port_pushes(
                md,
            )[i]).0 < FLOW_RECIRC_ID_OFS && port_pushes(md)[i].0 + port_pushes(md)[i].1
                <= FLOW_RECIRC_ID_OFS,
{
}

proof fn lemma_ct_pushes_ordered(md: pkt_metadata)
    ensures
        pushes_ordered(ct_pushes(md)),
        forall|i: int|
            0 <= i < ct_pushes(md).len() ==> FLOW_RECIRC_ID_OFS <= (#[trigger] ct_pushes(md)[i]).0,
{
}

/// The projection makes its pushes in the order of the flow record: each at
/// a higher offset than the one before, and none into the bytes of another.
pub proof fn lemma_metadata_pushes_ordered(md: pkt_metadata)
    ensures
        pushes_ordered(metadata_pushes(md)),
{
    lemma_tunnel_pushes_ordered(md.tunnel);
    lemma_port_pushes_ordered(md);
    lemma_ct_pushes_ordered(md);
    let a = tunnel_pushes(md.tunnel);
    let b = port_pushes(md);
    let c = ct_pushes(md);
    lemma_pushes_ordered_concat(a, b, FLOW_SKB_PRIORITY_OFS as nat);
    assert forall|i: int| 0 <= i < (a + b).len() implies (#[trigger] (a + b)[i]).0
        < FLOW_RECIRC_ID_OFS && (a + b)[i].0 + (a + b)[i].1 <= FLOW_RECIRC_ID_OFS by {
        if i < a.len() {
            assert((a + b)[i] == a[i]);
        } else {
            assert((a + b)[i] == b[i - a.len()]);
        }
    }
    lemma_pushes_ordered_concat(a + b, c, FLOW_RECIRC_ID_OFS as nat);
}

/// The projection has no source but its arguments. Two encoders that stand
/// at the same word, given the same metadata and the same packet-type tag,
/// come to stand at the same word, have the same slots added, and hold the
/// same in every word that was written, whatever their buffers held there
/// before. Two encoders that hold the same hold the same afterwards.
pub proof fn lemma_metadata_projection_repeatable(
    a: MfState,
    b: MfState,
    md: pkt_metadata,
    packet_type_be: u32,
)
    requires
        a.wf(),
        b.wf(),
        a.pos == b.pos,
    ensures
        metadata_encode(a, md, packet_type_be).pos == metadata_encode(b, md, packet_type_be).pos,
        metadata_encode(a, md, packet_type_be).slots == a.slots.union(metadata_slots(md)),
        metadata_encode(b, md, packet_type_be).slots == b.slots.union(metadata_slots(md)),
        forall|i: int|
            a.pos <= i < metadata_encode(a, md, packet_type_be).pos ==> metadata_encode(
                a,
                md,
                packet_type_be,
            ).data[i] == #[trigger] metadata_encode(b, md, packet_type_be).data[i],
        a == b ==> metadata_encode(a, md, packet_type_be) == metadata_encode(
            b,
            md,
            packet_type_be,
        ),
{
    lemma_metadata_emits(a, md, packet_type_be);
    lemma_metadata_emits(b, md, packet_type_be);
    lemma_store_run(a, metadata_words(md, packet_type_be));
    lemma_store_run(b, metadata_words(md, packet_type_be));
}

proof fn lemma_eth_header_emits(st: MfState, data: Seq<u8>, dl_type: u16)
    requires
        st.wf(),
    ensures
        st.push_macs(FLOW_DL_DST_OFS as nat, data).push_field(
            FLOW_DL_TYPE_OFS as nat,
            2,
            swap16(dl_type) as int,
        ).pad_to_64((FLOW_DL_TYPE_OFS + ETH_TYPE_SIZE) as nat) == st.emit(
            slot_range(FLOW_DL_DST_OFS as nat / 8, 2),
            seq![
                (FLOW_DL_DST_OFS as nat, 2 * ETH_ADDR_SIZE as nat),
                (FLOW_DL_TYPE_OFS as nat, ETH_TYPE_SIZE as nat),
            ],
            seq![le64_at(data, 0), dl_type_word(le32_at(data, 8), dl_type)],
        ),
{
    let t = swap16(dl_type);
    let tail = le32_at(data, 8);
    let w0 = le64_at(data, 0);
    let w1 = dl_type_word(tail, dl_type);
    let first = st.note(FLOW_DL_DST_OFS as nat, 12).mark(FLOW_DL_DST_OFS as nat / 8, 2).store(
        w0,
    ).advance();
    let c = first.cur();
    let x1 = splice(c, 0, 4, tail as int);
    let macs = st.push_macs(FLOW_DL_DST_OFS as nat, data);
    assert(macs == first.store(x1));
    assert(macs.cur() == x1);
    let x2 = splice(x1, 4, 2, t as int);
    let typed = macs.push_field(FLOW_DL_TYPE_OFS as nat, 2, t as int);
    assert(typed.cur() == x2);
    let x3 = splice(x2, 6, 2, 0);
    lemma_splice_half_and_field(c, tail, t);
    assert(x3 == w1);
    let l = typed.pad_to_64((FLOW_DL_TYPE_OFS + ETH_TYPE_SIZE) as nat);
    let r = st.emit(
        slot_range(FLOW_DL_DST_OFS as nat / 8, 2),
        seq![
            (FLOW_DL_DST_OFS as nat, 2 * ETH_ADDR_SIZE as nat),
            (FLOW_DL_TYPE_OFS as nat, ETH_TYPE_SIZE as nat),
        ],
        seq![w0, w1],
    );
    reveal_with_fuel(MfState::store_run, 3);
    assert(seq![w0, w1].drop_last() =~= seq![w0]);
    assert(seq![w0].drop_last() =~= Seq::<u64>::empty());
    assert(st.store_run(seq![w0, w1]) == st.store(w0).advance().store(w1).advance());
    assert(l.data =~= r.data);
    assert(l.slots =~= r.slots);
    assert(l.pushes =~= r.pushes);
}

proof fn lemma_tagged_header_emits(st: MfState, dl_type: u16)
    requires
        st.wf(),
    ensures
        st.pad_from_64(FLOW_DL_TYPE_OFS as nat).push_field(
            FLOW_DL_TYPE_OFS as nat,
            2,
            swap16(dl_type) as int,
        ).pad_to_64((FLOW_DL_TYPE_OFS + ETH_TYPE_SIZE) as nat) == st.emit(
            slot_range(FLOW_DL_TYPE_OFS as nat / 8, 1),
            seq![(FLOW_DL_TYPE_OFS as nat, ETH_TYPE_SIZE as nat)],
            seq![dl_type_word(0, dl_type)],
        ),
{
    let t = swap16(dl_type);
    let w = dl_type_word(0, dl_type);
    let c = st.cur();
    let x1 = splice(c, 0, 4, 0);
    let padded = st.pad_from_64(FLOW_DL_TYPE_OFS as nat);
    assert(padded.cur() == x1);
    let x2 = splice(x1, 4, 2, t as int);
    let typed = padded.push_field(FLOW_DL_TYPE_OFS as nat, 2, t as int);
    assert(typed.cur() == x2);
    let x3 = splice(x2, 6, 2, 0);
    lemma_splice_half_and_field(c, 0, t);
    assert(x3 == w);
    let l = typed.pad_to_64((FLOW_DL_TYPE_OFS + ETH_TYPE_SIZE) as nat);
    let r = st.emit(
        slot_range(FLOW_DL_TYPE_OFS as nat / 8, 1),
        seq![(FLOW_DL_TYPE_OFS as nat, ETH_TYPE_SIZE as nat)],
        seq![w],
    );
    lemma_store_run_one(st, w);
    assert(l.data =~= r.data);
    assert(l.slots =~= r.slots);
    assert(l.pushes =~= r.pushes);
}

/// The walk comes to one emission: it marks the slots of `l2_slots`,
/// records the pushes of `l2_pushes`, and writes the whole words of
/// `l2_words` from the word being filled on. What the buffer held in those
/// words before does not show in them.
pub proof fn lemma_l2_emits(st: MfState, data: Seq<u8>, packet_type_be: u32)
    requires
        st.wf(),
    ensures
        l2_encode(st, data, packet_type_be) == st.emit(
            l2_slots(data, packet_type_be),
            l2_pushes(data, packet_type_be),
            l2_words(data, packet_type_be),
        ),
{
    let dl_type = l2_dl_type(data, packet_type_be);
    let header_slots = if is_eth(packet_type_be) {
        slot_range(FLOW_DL_DST_OFS as nat / 8, 2).union(
            slot_range(
                FLOW_VLANS_OFS as nat / 8,
                pack32(vlan_words(data.skip(2 * ETH_ADDR_SIZE))).len(),
            ),
        )
    } else {
        slot_range(FLOW_DL_TYPE_OFS as nat / 8, 1)
    };
    let header_pushes = l2_header_pushes(data, packet_type_be);
    let header_words = if is_eth(packet_type_be) {
        seq![le64_at(data, 0), dl_type_word(le32_at(data, 8), dl_type)] + pack32(
            vlan_words(data.skip(2 * ETH_ADDR_SIZE)),
        )
    } else {
        seq![dl_type_word(0, dl_type)]
    };
    let framed = if is_eth(packet_type_be) {
        l2_encode_eth(st, data, packet_type_be)
    } else {
        l2_encode_tagged(st, data, packet_type_be)
    };
    assert(framed == st.emit(header_slots, header_pushes, header_words)) by {
        if is_eth(packet_type_be) {
            let vlans = vlan_words(data.skip(2 * ETH_ADDR_SIZE));
            let s1 = slot_range(FLOW_DL_DST_OFS as nat / 8, 2);
            let p1 = seq![
                (FLOW_DL_DST_OFS as nat, 2 * ETH_ADDR_SIZE as nat),
                (FLOW_DL_TYPE_OFS as nat, ETH_TYPE_SIZE as nat),
            ];
            let w1 = seq![le64_at(data, 0), dl_type_word(le32_at(data, 8), dl_type)];
            lemma_eth_header_emits(st, data, dl_type);
            let typed = st.emit(s1, p1, w1);
            if vlans.len() > 0 {
                let s2 = slot_range(FLOW_VLANS_OFS as nat / 8, pack32(vlans).len());
                let p2 = seq![(FLOW_VLANS_OFS as nat, 4 * vlans.len())];
                lemma_push_words_32_emits(typed, FLOW_VLANS_OFS as nat, vlans);
                lemma_emit_emit(st, s1, p1, w1, s2, p2, pack32(vlans));
                assert(p1 + p2 =~= header_pushes);
            } else {
                assert(pack32(vlans) =~= Seq::<u64>::empty());
                assert(w1 + pack32(vlans) =~= w1);
                assert(header_slots =~= s1);
                assert(p1 =~= header_pushes);
            }
        } else {
            lemma_tagged_header_emits(st, dl_type);
        }
    }
    if spec_is_mpls(dl_type) {
        let labels = mpls_words(l2_payload(data, packet_type_be));
        let s2 = slot_range(FLOW_MPLS_LSE_OFS as nat / 8, pack32(labels).len());
        let p2 = seq![(FLOW_MPLS_LSE_OFS as nat, 4 * labels.len())];
        lemma_push_words_32_emits(framed, FLOW_MPLS_LSE_OFS as nat, labels);
        lemma_emit_emit(st, header_slots, header_pushes, header_words, s2, p2, pack32(labels));
    }
}

proof fn lemma_tunnel_emits(st: MfState, tnl: flow_tnl)
    requires
        st.wf(),
    ensures
        tunnel_encode(st, tnl) == st.emit(tunnel_slots(tnl), tunnel_pushes(tnl), tunnel_words(tnl)),
{
    let md_ofs = (FLOW_TUNNEL_OFS + FLOW_TNL_METADATA_OFS) as nat;
    if !tnl.spec_dst_is_set() {
        lemma_emit_nothing(st);
    } else {
        let w1 = tnl.header_words();
        let s1 = slot_range(FLOW_TUNNEL_OFS as nat / 8, w1.len());
        let p1 = seq![(FLOW_TUNNEL_OFS as nat, 8 * w1.len())];
        lemma_push_words_emits(st, FLOW_TUNNEL_OFS as nat, w1);
        let header = st.emit(s1, p1, w1);
        if tnl.flags & FLOW_TNL_F_UDPIF == 0 {
            if tnl.metadata.present.spec_map() != 0 {
                let w2 = tnl.metadata.words();
                lemma_push_words_emits(header, md_ofs, w2);
                lemma_emit_emit(
                    st,
                    s1,
                    p1,
                    w1,
                    slot_range(md_ofs / 8, w2.len()),
                    seq![(md_ofs, 8 * w2.len())],
                    w2,
                );
                assert(p1 + seq![(md_ofs, 8 * w2.len())] =~= tunnel_pushes(tnl));
            } else {
                assert(p1 =~= tunnel_pushes(tnl));
            }
        } else if tnl.metadata.present.spec_len() != 0 {
            let w2 = seq![tnl.metadata.present.spec_map()];
            let o2 = md_ofs + TUN_METADATA_PRESENT_OFS as nat;
            let s2 = slot_range(o2 / 8, w2.len());
            let p2 = seq![(o2, 8 * w2.len())];
            let w3 = tnl.metadata.opts@.take((tnl.metadata.present.spec_len() + 7) / 8);
            let o3 = md_ofs + TUN_METADATA_OPTS_OFS as nat;
            let s3 = slot_range(o3 / 8, w3.len());
            let p3 = seq![(o3, 8 * w3.len())];
            lemma_push_words_emits(header, o2, w2);
            lemma_emit_emit(st, s1, p1, w1, s2, p2, w2);
            let present = st.emit(s1.union(s2), p1 + p2, w1 + w2);
            lemma_push_words_emits(present, o3, w3);
            lemma_emit_emit(st, s1.union(s2), p1 + p2, w1 + w2, s3, p3, w3);
            assert(p1 + p2 + p3 =~= tunnel_pushes(tnl));
        } else {
            assert(p1 =~= tunnel_pushes(tnl));
        }
    }
}

proof fn lemma_port_emits(st: MfState, md: pkt_metadata)
    requires
        st.wf(),
    ensures
        ({
            let marked = if md.skb_priority != 0 || md.pkt_mark != 0 {
                st.push_field(FLOW_SKB_PRIORITY_OFS as nat, 4, md.skb_priority as int).push_field(
                    FLOW_PKT_MARK_OFS as nat,
                    4,
                    md.pkt_mark as int,
                )
            } else {
                st
            };
            marked.push_field(FLOW_DP_HASH_OFS as nat, 4, md.dp_hash as int).push_field(
                FLOW_IN_PORT_OFS as nat,
                4,
                md.in_port.spec_odp_port() as int,
            ) == st.emit(port_slots(md), port_pushes(md), port_words(md))
        }),
{
    let s2 = slot_range(FLOW_DP_HASH_OFS as nat / 8, 1);
    let p2 = seq![(FLOW_DP_HASH_OFS as nat, 4nat), (FLOW_IN_PORT_OFS as nat, 4nat)];
    let w2 = seq![le64_halves(md.dp_hash, md.in_port.spec_odp_port())];
    if md.skb_priority != 0 || md.pkt_mark != 0 {
        let s1 = slot_range(FLOW_SKB_PRIORITY_OFS as nat / 8, 1);
        let p1 = seq![(FLOW_SKB_PRIORITY_OFS as nat, 4nat), (FLOW_PKT_MARK_OFS as nat, 4nat)];
        let w1 = seq![le64_halves(md.skb_priority, md.pkt_mark)];
        lemma_push_halves_emits(st, FLOW_SKB_PRIORITY_OFS as nat, md.skb_priority, md.pkt_mark);
        lemma_emit_emit(st, s1, p1, w1, s2, p2, w2);
        lemma_push_halves_emits(
            st.emit(s1, p1, w1),
            FLOW_DP_HASH_OFS as nat,
            md.dp_hash,
            md.in_port.spec_odp_port(),
        );
    } else {
        lemma_push_halves_emits(st, FLOW_DP_HASH_OFS as nat, md.dp_hash, md.in_port.spec_odp_port());
    }
}

proof fn lemma_ct_word_emits(st: MfState, md: pkt_metadata)
    requires
        st.wf(),
    ensures
        st.push_field(FLOW_RECIRC_ID_OFS as nat, 4, md.recirc_id as int).push_field(
            FLOW_CT_STATE_OFS as nat,
            1,
            md.ct_state as int,
        ).push_field(FLOW_CT_NW_PROTO_OFS as nat, 1, 0).push_field(
            FLOW_CT_ZONE_OFS as nat,
            2,
            md.ct_zone as int,
        ) == st.emit(
            slot_range(FLOW_RECIRC_ID_OFS as nat / 8, 1),
            seq![
                (FLOW_RECIRC_ID_OFS as nat, 4nat),
                (FLOW_CT_STATE_OFS as nat, 1nat),
                (FLOW_CT_NW_PROTO_OFS as nat, 1nat),
                (FLOW_CT_ZONE_OFS as nat, 2nat),
            ],
            seq![ct_word(md)],
        ),
{
    let r = md.recirc_id as int;
    let s = md.ct_state as int;
    let z = md.ct_zone as int;
    let c = st.cur();
    let x1 = splice(c, 0, 4, r);
    let x2 = splice(x1, 4, 1, s);
    let x3 = splice(x2, 5, 1, 0);
    let x4 = splice(x3, 6, 2, z);
    assert(x4 == ct_word(md)) by {
        lemma_splice_low(c, 0, 4, r);
        lemma_splice_low(x1, 4, 1, s);
        lemma_splice_low(x2, 5, 1, 0);
        lemma_splice_low(x3, 6, 2, z);
        assert(low_bytes(c, 0) == 0);
    }
    let s1 = st.push_field(FLOW_RECIRC_ID_OFS as nat, 4, r);
    assert(s1.cur() == x1);
    let s2 = s1.push_field(FLOW_CT_STATE_OFS as nat, 1, s);
    assert(s2.cur() == x2);
    let s3 = s2.push_field(FLOW_CT_NW_PROTO_OFS as nat, 1, 0);
    assert(s3.cur() == x3);
    let l = s3.push_field(FLOW_CT_ZONE_OFS as nat, 2, z);
    let e = st.emit(
        slot_range(FLOW_RECIRC_ID_OFS as nat / 8, 1),
        seq![
            (FLOW_RECIRC_ID_OFS as nat, 4nat),
            (FLOW_CT_STATE_OFS as nat, 1nat),
            (FLOW_CT_NW_PROTO_OFS as nat, 1nat),
            (FLOW_CT_ZONE_OFS as nat, 2nat),
        ],
        seq![ct_word(md)],
    );
    lemma_store_run_one(st, ct_word(md));
    assert(l.data =~= e.data);
    assert(l.slots =~= e.slots);
    assert(l.pushes =~= e.pushes);
}

proof fn lemma_ct_emits(st: MfState, md: pkt_metadata, packet_type_be: u32)
    requires
        st.wf(),
    ensures
        md.ct_state != 0 ==> ct_encode(st, md, packet_type_be) == st.emit(
            ct_slots(md),
            ct_pushes(md),
            ct_words(md, packet_type_be),
        ),
        md.ct_state == 0 ==> no_ct_encode(st, md, packet_type_be) == st.emit(
            ct_slots(md),
            ct_pushes(md),
            ct_words(md, packet_type_be),
        ),
{
    let tag_slot = slot_range(FLOW_PACKET_TYPE_OFS as nat / 8, 1);
    let recirc_slot = slot_range(FLOW_RECIRC_ID_OFS as nat / 8, 1);
    if md.ct_state != 0 {
        let p1 = seq![
            (FLOW_RECIRC_ID_OFS as nat, 4nat),
            (FLOW_CT_STATE_OFS as nat, 1nat),
            (FLOW_CT_NW_PROTO_OFS as nat, 1nat),
            (FLOW_CT_ZONE_OFS as nat, 2nat),
        ];
        let w1 = seq![ct_word(md)];
        lemma_ct_word_emits(st, md);
        let first = st.emit(recirc_slot, p1, w1);
        let p2 = seq![(FLOW_CT_MARK_OFS as nat, 4nat), (FLOW_PACKET_TYPE_OFS as nat, 4nat)];
        let w2 = seq![le64_halves(md.ct_mark, packet_type_be)];
        lemma_emit_emit(st, recirc_slot, p1, w1, tag_slot, p2, w2);
        lemma_push_halves_emits(first, FLOW_CT_MARK_OFS as nat, md.ct_mark, packet_type_be);
        let fields = st.emit(recirc_slot.union(tag_slot), p1 + p2, w1 + w2);
        assert(w1 + w2 =~= seq![ct_word(md), le64_halves(md.ct_mark, packet_type_be)]);
        if !md.ct_label.spec_is_zero() {
            let w3 = md.ct_label.words();
            let s3 = slot_range(FLOW_CT_LABEL_OFS as nat / 8, w3.len());
            let p3 = seq![(FLOW_CT_LABEL_OFS as nat, 8 * w3.len())];
            lemma_emit_emit(st, recirc_slot.union(tag_slot), p1 + p2, w1 + w2, s3, p3, w3);
            lemma_push_words_emits(fields, FLOW_CT_LABEL_OFS as nat, w3);
            assert(p1 + p2 + p3 =~= ct_pushes(md));
        } else {
            assert(p1 + p2 =~= ct_pushes(md));
        }
    } else {
        let p2 = seq![(FLOW_PACKET_TYPE_OFS as nat, 4nat)];
        let w2 = seq![le64_halves(0, packet_type_be)];
        if md.recirc_id != 0 {
            let p1 = seq![(FLOW_RECIRC_ID_OFS as nat, 4nat)];
            let w1 = seq![md.recirc_id as u64];
            lemma_push_low_half_emits(st, FLOW_RECIRC_ID_OFS as nat, md.recirc_id);
            lemma_emit_emit(st, recirc_slot, p1, w1, tag_slot, p2, w2);
            lemma_push_high_half_emits(
                st.emit(recirc_slot, p1, w1),
                FLOW_PACKET_TYPE_OFS as nat,
                packet_type_be,
            );
            assert(p1 + p2 =~= ct_pushes(md));
            assert(w1 + w2 =~= ct_words(md, packet_type_be));
        } else {
            lemma_push_high_half_emits(st, FLOW_PACKET_TYPE_OFS as nat, packet_type_be);
        }
    }
}

/// The projection comes to one emission: it marks the slots of
/// `metadata_slots`, records the pushes of `metadata_pushes`, and writes the
/// whole words of `metadata_words` from the word being filled on. What the
/// buffer held in those words before does not show in them.
pub proof fn lemma_metadata_emits(st: MfState, md: pkt_metadata, packet_type_be: u32)
    requires
        st.wf(),
    ensures
        metadata_encode(st, md, packet_type_be) == st.emit(
            metadata_slots(md),
            metadata_pushes(md),
            metadata_words(md, packet_type_be),
        ),
{
    let s1 = tunnel_slots(md.tunnel);
    let p1 = tunnel_pushes(md.tunnel);
    let w1 = tunnel_words(md.tunnel);
    let s2 = port_slots(md);
    let p2 = port_pushes(md);
    let w2 = port_words(md);
    let s3 = ct_slots(md);
    let p3 = ct_pushes(md);
    let w3 = ct_words(md, packet_type_be);
    lemma_tunnel_emits(st, md.tunnel);
    let tunnel = st.emit(s1, p1, w1);
    lemma_emit_emit(st, s1, p1, w1, s2, p2, w2);
    lemma_port_emits(tunnel, md);
    let port = st.emit(s1.union(s2), p1 + p2, w1 + w2);
    lemma_emit_emit(st, s1.union(s2), p1 + p2, w1 + w2, s3, p3, w3);
    lemma_ct_emits(port, md, packet_type_be);
}

} // verus!
