use flow_parser::flow::{flow_in_port, flow_tnl, ovs_u128, tun_md_present, FLOW_TNL_F_UDPIF};
use flow_parser::miniflow::{mf_ctx, Miniflow};
use flow_parser::packet::{
    ct_orig_tuple, pkt_metadata, PT_ETH, PT_IPV4, PT_MPLS,
};
use flow_parser::parser::{
    is_mpls, is_vlan, parse_ethertype, parse_l2, parse_metadata, parse_mpls, parse_vlan,
    ParseError,
};

fn sample_metadata(ct_state: u8) -> pkt_metadata {
    pkt_metadata {
        recirc_id: 0x11,
        dp_hash: 0x22,
        skb_priority: 0x33,
        pkt_mark: 0x44,
        ct_state,
        ct_orig_tuple_ipv6: false,
        ct_zone: 0x66,
        ct_mark: 0x77,
        ct_label: ovs_u128 { lo: 0x1111, hi: 0x2222 },
        in_port: flow_in_port::OdpPort(0x99),
        conn: None,
        reply: false,
        icmp_related: false,
        pad_to_cacheline_64_1: [0_u8; 4],
        ct_orig_tuple: Default::default(),
        pad_to_cacheline_64_2: [0_u8; 24],
        tunnel: Default::default(),
    }
}

fn fresh() -> mf_ctx {
    let mf: Miniflow = Miniflow::new();
    mf_ctx::from_mf(mf.map, mf.values)
}

#[test]
fn metadata() {
    let md: pkt_metadata = pkt_metadata {
        recirc_id: 0x11,
        dp_hash: 0x22,
        skb_priority: 0x33,
        pkt_mark: 0x44,
        ct_state: 0x5,
        ct_orig_tuple_ipv6: false,
        ct_zone: 0x66,
        ct_mark: 0x77,
        ct_label: ovs_u128 { lo: 0x1111, hi: 0x2222 },
        in_port: flow_in_port::OdpPort(0x99),
        conn: None,
        reply: false,
        icmp_related: false,
        pad_to_cacheline_64_1: [0_u8; 4],
        ct_orig_tuple: Default::default(),
        pad_to_cacheline_64_2: [0_u8; 24],
        tunnel: Default::default(),
    };

    let mf: Miniflow = Miniflow::new();
    let mut mfx = mf_ctx::from_mf(mf.map, mf.values);

    parse_metadata(&md, 0x0800, &mut mfx);
    let expected: &mut [u64] = &mut [
        0x0000004400000033, 0x0000009900000022, 0x0066000500000011, 0x0000080000000077,
        0x1111, 0x2222, 0, 0, 0, 0, 0, 0, 0, 0, 0, 0, 0, 0, 0, 0,
    ];
    assert_eq!(*mfx.data(), expected);
}

#[test]
fn metadata_no_ct_state() {
    let md: pkt_metadata = pkt_metadata {
        recirc_id: 0x11,
        dp_hash: 0x22,
        skb_priority: 0x33,
        pkt_mark: 0x44,
        ct_state: 0x0,
        ct_orig_tuple_ipv6: false,
        ct_zone: 0x0,
        ct_mark: 0x0,
        ct_label: ovs_u128 { lo: 0x0, hi: 0x0 },
        in_port: flow_in_port::OdpPort(0x99),
        conn: None,
        reply: false,
        icmp_related: false,
        pad_to_cacheline_64_1: [0_u8; 4],
        ct_orig_tuple: Default::default(),
        pad_to_cacheline_64_2: [0_u8; 24],
        tunnel: Default::default(),
    };

    let mf: Miniflow = Miniflow::new();
    let mut mfx = mf_ctx::from_mf(mf.map, mf.values);

    parse_metadata(&md, 0x0800, &mut mfx);
    let expected: &mut [u64] = &mut [
        0x0000004400000033, 0x0000009900000022, 0x11, 0x0000080000000000,
        0, 0, 0, 0, 0, 0, 0, 0, 0, 0, 0, 0, 0, 0, 0, 0,
    ];
    assert_eq!(*mfx.data(), expected);
}

#[test]
fn l2_bad_length() {
    let mf: Miniflow = Miniflow::new();
    let mut mfx = mf_ctx::from_mf(mf.map, mf.values);

    let data = [0x00, 0x01, 0x02, 0x03];
    assert_eq!(parse_l2(&data, &mut mfx, PT_ETH.to_be()).err(), Some(ParseError::BadLength));
}

#[test]
fn l2_ethernet() {
    let mf: Miniflow = Miniflow::new();
    let mut mfx = mf_ctx::from_mf(mf.map, mf.values);

    let data = [0x00, 0x11, 0x22, 0x33, 0x44, 0x55, /* dst MAC */
                0x66, 0x77, 0x88, 0x99, 0xaa, 0xbb, /* src MAC */
                0x08, 0x00];                        /* EtherType */
    assert_eq!(parse_l2(&data, &mut mfx, PT_ETH.to_be()).is_ok(), true);

    let expected: &mut [u64] =
        &mut [0x7766554433221100, 0x0008bbaa9988, 0, 0, 0, 0, 0, 0, 0, 0,
                0, 0, 0, 0, 0, 0, 0, 0, 0, 0];
    assert_eq!(*mfx.data(), expected);
    assert_eq!(mfx.map().bits, [0x1800000000000000, 0]);
}

#[test]
fn l2_vlan() {
    let mf: Miniflow = Miniflow::new();
    let mut mfx = mf_ctx::from_mf(mf.map, mf.values);

    let data = [0x00, 0x11, 0x22, 0x33, 0x44, 0x55, /* dst MAC */
                0x66, 0x77, 0x88, 0x99, 0xaa, 0xbb, /* src MAC */
                0x81, 0x00,                         /* vlan: TPID */
                0x01, 0xFF,                         /* vlan: TCI */
                0x08, 0x00];                        /* EtherType */
    assert_eq!(parse_l2(&data, &mut mfx, PT_ETH.to_be()).is_ok(), true);

    let expected: &mut [u64] =
        &mut [0x7766554433221100, 0x0008bbaa9988, 0xFF010081, 0, 0, 0, 0, 0, 0, 0,
                0, 0, 0, 0, 0, 0, 0, 0, 0, 0];
    assert_eq!(*mfx.data(), expected);
}

#[test]
fn l2_vlan_double_tagging() {
    let mf: Miniflow = Miniflow::new();
    let mut mfx = mf_ctx::from_mf(mf.map, mf.values);

    let data = [0x00, 0x11, 0x22, 0x33, 0x44, 0x55, /* dst MAC */
                0x66, 0x77, 0x88, 0x99, 0xaa, 0xbb, /* src MAC */
                0x88, 0xA8,                         /* vlan: TPID */
                0x01, 0xFF,                         /* vlan: TCI */
                0x81, 0x00,                         /* vlan: TPID */
                0x02, 0xFF,                         /* vlan: TCI */
                0x08, 0x00];                        /* EtherType */
    assert_eq!(parse_l2(&data, &mut mfx, PT_ETH.to_be()).is_ok(), true);

    let expected: &mut [u64] =
        &mut [0x7766554433221100, 0x0008bbaa9988, 0xFF020081FF01A888, 0, 0, 0, 0, 0, 0, 0,
                0, 0, 0, 0, 0, 0, 0, 0, 0, 0];
    assert_eq!(*mfx.data(), expected);
}

#[test]
fn l2_mpls() {
    let mf: Miniflow = Miniflow::new();
    let mut mfx = mf_ctx::from_mf(mf.map, mf.values);

    let data = [0x00, 0x11, 0x22, 0x33, 0x44, 0x55, /* dst MAC */
                0x66, 0x77, 0x88, 0x99, 0xaa, 0xbb, /* src MAC */
                0x88, 0x47,                         /* EtherType (MPLS) */
                0x00, 0x11, 0x00, 0x22,
                0x00, 0x11, 0x00, 0x33,
                0x00, 0x11, 0x00, 0x44,
                0x00, 0x11, 0x01, 0x55];
    assert_eq!(parse_l2(&data, &mut mfx, PT_ETH.to_be()).is_ok(), true);

    let expected: &mut [u64] =
        &mut [0x7766554433221100, 0x4788bbaa9988, 0x3300110022001100, 0x44001100,
                0, 0, 0, 0, 0, 0, 0, 0, 0, 0, 0, 0, 0, 0, 0, 0];
    assert_eq!(*mfx.data(), expected);
}

#[test]
fn l2_llc_snap() {
    let mf: Miniflow = Miniflow::new();
    let mut mfx = mf_ctx::from_mf(mf.map, mf.values);

    let data = [0x00, 0x11, 0x22, 0x33, 0x44, 0x55, /* dst MAC */
                0x66, 0x77, 0x88, 0x99, 0xaa, 0xbb, /* src MAC */
                0x00, 0x10,                         /* Length */
                0xaa, 0xaa, 0x03,                   /* LLC */
                0x00, 0x00, 0x00, 0x09, 0x00,       /* SNAP */
                0x00, 0x11, 0x00, 0x44,
                0x00, 0x11, 0x01, 0x55];
    assert_eq!(parse_l2(&data, &mut mfx, PT_ETH.to_be()).is_ok(), true);

    let expected: &mut [u64] =
        &mut [0x7766554433221100, 0x0009bbaa9988, 0, 0,
                0, 0, 0, 0, 0, 0, 0, 0, 0, 0, 0, 0, 0, 0, 0, 0];
    assert_eq!(*mfx.data(), expected);
}

#[test]
fn l2_bad_length_leaves_encoder_untouched() {
    for len in 0..14 {
        let data = vec![0x81u8; len];
        let mut mfx = fresh();
        assert_eq!(parse_l2(&data, &mut mfx, PT_ETH.to_be()), Err(ParseError::BadLength));
        assert_eq!(*mfx.data(), vec![0u64; 20]);
        assert_eq!(mfx.map().bits, [0, 0]);
        assert_eq!(mfx.position(), 0);
    }
}

#[test]
fn l2_ethernet_consumed_and_no_mpls() {
    let mut mfx = fresh();
    let data = [0x00, 0x11, 0x22, 0x33, 0x44, 0x55, 0x66, 0x77, 0x88, 0x99, 0xaa, 0xbb, 0x08, 0x00];
    assert_eq!(parse_l2(&data, &mut mfx, PT_ETH.to_be()), Ok((14, u16::MAX)));
    assert_eq!(mfx.position(), 2);
}

#[test]
fn l2_vlan_consumed_and_slots() {
    let mut mfx = fresh();
    let data = [0x00, 0x11, 0x22, 0x33, 0x44, 0x55, 0x66, 0x77, 0x88, 0x99, 0xaa, 0xbb,
                0x81, 0x00, 0x01, 0xFF, 0x08, 0x00];
    assert_eq!(parse_l2(&data, &mut mfx, PT_ETH.to_be()), Ok((18, u16::MAX)));
    assert_eq!(mfx.map().bits, [0x3800000000000000, 0]);
}

#[test]
fn l2_third_vlan_tag_is_left_in_the_bytes() {
    let mut mfx = fresh();
    let data = [0x00, 0x11, 0x22, 0x33, 0x44, 0x55, 0x66, 0x77, 0x88, 0x99, 0xaa, 0xbb,
                0x88, 0xA8, 0x01, 0xFF,
                0x81, 0x00, 0x02, 0xFF,
                0x81, 0x00, 0x03, 0xFF,
                0x08, 0x00];
    assert_eq!(parse_l2(&data, &mut mfx, PT_ETH.to_be()), Ok((22, u16::MAX)));
    assert_eq!(mfx.data()[1], 0x0081bbaa9988);
    assert_eq!(mfx.data()[2], 0xFF020081FF01A888);
    assert_eq!(mfx.data()[3], 0);
    assert_eq!(mfx.position(), 3);
}

#[test]
fn l2_truncated_second_vlan_tag_stops_the_walk() {
    let mut mfx = fresh();
    let data = [0x00, 0x11, 0x22, 0x33, 0x44, 0x55, 0x66, 0x77, 0x88, 0x99, 0xaa, 0xbb,
                0x81, 0x00, 0x01, 0xFF,
                0x81, 0x00, 0x02, 0xFF];
    assert_eq!(parse_l2(&data, &mut mfx, PT_ETH.to_be()), Ok((18, u16::MAX)));
    assert_eq!(mfx.data()[1], 0x0081bbaa9988);
    assert_eq!(mfx.data()[2], 0xFF010081);
}

#[test]
fn l2_truncated_first_vlan_tag_is_a_type() {
    let mut mfx = fresh();
    let data = [0x00, 0x11, 0x22, 0x33, 0x44, 0x55, 0x66, 0x77, 0x88, 0x99, 0xaa, 0xbb,
                0x81, 0x00, 0x01, 0xFF];
    assert_eq!(parse_l2(&data, &mut mfx, PT_ETH.to_be()), Ok((14, u16::MAX)));
    assert_eq!(mfx.data()[1], 0x0081bbaa9988);
    assert_eq!(mfx.map().bits, [0x1800000000000000, 0]);
}

#[test]
fn l2_mpls_consumed_counts_every_entry() {
    let mut mfx = fresh();
    let data = [0x00, 0x11, 0x22, 0x33, 0x44, 0x55, 0x66, 0x77, 0x88, 0x99, 0xaa, 0xbb,
                0x88, 0x47,
                0x00, 0x11, 0x00, 0x22,
                0x00, 0x11, 0x00, 0x33,
                0x00, 0x11, 0x00, 0x44,
                0x00, 0x11, 0x01, 0x55];
    assert_eq!(parse_l2(&data, &mut mfx, PT_ETH.to_be()), Ok((30, 14)));
    assert_eq!(mfx.map().bits, [0xd800000000000000, 0]);
    assert_eq!(mfx.position(), 4);
}

#[test]
fn l2_mpls_stops_at_bottom_of_stack() {
    let mut mfx = fresh();
    let data = [0x00, 0x11, 0x22, 0x33, 0x44, 0x55, 0x66, 0x77, 0x88, 0x99, 0xaa, 0xbb,
                0x88, 0x48,
                0x00, 0x11, 0x01, 0x22,
                0x00, 0x11, 0x00, 0x33];
    assert_eq!(parse_l2(&data, &mut mfx, PT_ETH.to_be()), Ok((18, 14)));
    assert_eq!(mfx.data()[2], 0x22011100);
    assert_eq!(mfx.data()[3], 0);
    assert_eq!(mfx.map().bits, [0x5800000000000000, 0]);
}

#[test]
fn l2_mpls_without_entries() {
    let mut mfx = fresh();
    let data = [0x00, 0x11, 0x22, 0x33, 0x44, 0x55, 0x66, 0x77, 0x88, 0x99, 0xaa, 0xbb,
                0x88, 0x47, 0x00, 0x11, 0x00];
    assert_eq!(parse_l2(&data, &mut mfx, PT_ETH.to_be()), Ok((14, 14)));
    assert_eq!(mfx.map().bits, [0x1800000000000000, 0]);
    assert_eq!(mfx.position(), 2);
}

#[test]
fn l2_llc_snap_consumed() {
    let mut mfx = fresh();
    let data = [0x00, 0x11, 0x22, 0x33, 0x44, 0x55, 0x66, 0x77, 0x88, 0x99, 0xaa, 0xbb,
                0x00, 0x10, 0xaa, 0xaa, 0x03, 0x00, 0x00, 0x00, 0x09, 0x00];
    assert_eq!(parse_l2(&data, &mut mfx, PT_ETH.to_be()), Ok((22, u16::MAX)));
}

#[test]
fn l2_llc_snap_type_below_min_is_not_eth() {
    let mut mfx = fresh();
    let data = [0x00, 0x11, 0x22, 0x33, 0x44, 0x55, 0x66, 0x77, 0x88, 0x99, 0xaa, 0xbb,
                0x00, 0x10, 0xaa, 0xaa, 0x03, 0x00, 0x00, 0x00, 0x05, 0x00];
    assert_eq!(parse_l2(&data, &mut mfx, PT_ETH.to_be()), Ok((22, u16::MAX)));
    assert_eq!(mfx.data()[1], 0xff05bbaa9988);
}

#[test]
fn l2_llc_mismatch_is_not_eth() {
    let mut mfx = fresh();
    let data = [0x00, 0x11, 0x22, 0x33, 0x44, 0x55, 0x66, 0x77, 0x88, 0x99, 0xaa, 0xbb,
                0x00, 0x10, 0xaa, 0xaa, 0x04, 0x00, 0x00, 0x00, 0x09, 0x00];
    assert_eq!(parse_l2(&data, &mut mfx, PT_ETH.to_be()), Ok((14, u16::MAX)));
    assert_eq!(mfx.data()[1], 0xff05bbaa9988);
}

#[test]
fn l2_short_llc_is_not_eth() {
    let mut mfx = fresh();
    let data = [0x00, 0x11, 0x22, 0x33, 0x44, 0x55, 0x66, 0x77, 0x88, 0x99, 0xaa, 0xbb,
                0x00, 0x10, 0xaa, 0xaa, 0x03, 0x00, 0x00, 0x00, 0x09];
    assert_eq!(parse_l2(&data, &mut mfx, PT_ETH.to_be()), Ok((14, u16::MAX)));
    assert_eq!(mfx.data()[1], 0xff05bbaa9988);
}

#[test]
fn l2_tagged_packet_takes_type_from_tag() {
    let mut mfx = fresh();
    let data = [0x45, 0x00, 0x00, 0x14];
    assert_eq!(parse_l2(&data, &mut mfx, PT_IPV4.to_be()), Ok((0, u16::MAX)));
    assert_eq!(mfx.data()[0], 0x0000000800000000);
    assert_eq!(mfx.data()[1], 0);
    assert_eq!(mfx.map().bits, [0x1000000000000000, 0]);
    assert_eq!(mfx.position(), 1);
}

#[test]
fn l2_tagged_packet_accepts_no_bytes() {
    let mut mfx = fresh();
    let data: [u8; 0] = [];
    assert_eq!(parse_l2(&data, &mut mfx, PT_IPV4.to_be()), Ok((0, u16::MAX)));
}

#[test]
fn l2_tagged_mpls_packet() {
    let mut mfx = fresh();
    let data = [0x00, 0x11, 0x00, 0x22, 0x00, 0x11, 0x01, 0x33, 0xff];
    assert_eq!(parse_l2(&data, &mut mfx, PT_MPLS.to_be()), Ok((8, 0)));
    assert_eq!(mfx.data()[0], 0x0000478800000000);
    assert_eq!(mfx.data()[1], 0x3301110022001100);
    assert_eq!(mfx.map().bits, [0x5000000000000000, 0]);
}

#[test]
fn l2_grows_a_buffer_that_is_too_short() {
    let mf: Miniflow = Miniflow::new();
    let mut mfx = mf_ctx::from_mf(mf.map, Vec::new());
    let data = [0x00, 0x11, 0x22, 0x33, 0x44, 0x55, 0x66, 0x77, 0x88, 0x99, 0xaa, 0xbb,
                0x81, 0x00, 0x01, 0xFF, 0x08, 0x00];
    assert_eq!(parse_l2(&data, &mut mfx, PT_ETH.to_be()), Ok((18, u16::MAX)));
    assert_eq!(*mfx.data(), vec![0x7766554433221100u64, 0x0008bbaa9988, 0xFF010081]);
}

#[test]
fn parse_vlan_counts_and_words() {
    let mut hdrs = [0u32; 2];
    assert_eq!(parse_vlan(&[0x08, 0x00], &mut hdrs), (0, 0));
    assert_eq!(hdrs, [0, 0]);
    let data = [0x81, 0x00, 0x01, 0xff, 0x88, 0xa8, 0x02, 0xff, 0x81, 0x00, 0x03, 0xff, 0x08, 0x00];
    let mut hdrs = [7u32; 2];
    assert_eq!(parse_vlan(&data, &mut hdrs), (8, 2));
    assert_eq!(hdrs, [0xff010081, 0xff02a888]);
    let data = [0x81, 0x00, 0x01, 0xff, 0x08, 0x00];
    let mut hdrs = [7u32; 2];
    assert_eq!(parse_vlan(&data, &mut hdrs), (4, 1));
    assert_eq!(hdrs, [0xff010081, 7]);
    let data = [0x81, 0x00, 0x01, 0xff, 0x08];
    let mut hdrs = [7u32; 2];
    assert_eq!(parse_vlan(&data, &mut hdrs), (0, 0));
    assert_eq!(hdrs, [7, 7]);
}

#[test]
fn parse_ethertype_cases() {
    assert_eq!(parse_ethertype(&[0x08, 0x00]), (2, 0x0800));
    assert_eq!(parse_ethertype(&[0x06, 0x00]), (2, 0x0600));
    assert_eq!(parse_ethertype(&[0x05, 0xff]), (2, 0x05ff));
    assert_eq!(parse_ethertype(&[0x00, 0x10, 0xaa, 0xaa, 0x03, 0, 0, 0, 0x86, 0xdd]), (10, 0x86dd));
    assert_eq!(parse_ethertype(&[0x00, 0x10, 0xaa, 0xaa, 0x03, 0, 0, 0, 0x05, 0xff]), (10, 0x05ff));
    assert_eq!(parse_ethertype(&[0x00, 0x10, 0xaa, 0xaa, 0x03, 0, 1, 0, 0x86, 0xdd]), (2, 0x05ff));
    assert_eq!(parse_ethertype(&[0x00, 0x10, 0xaa, 0xaa, 0x03, 0, 0, 0, 0x86]), (2, 0x05ff));
}

#[test]
fn parse_mpls_counts_and_words() {
    let mut labels = [9u32; 3];
    assert_eq!(parse_mpls(&[], &mut labels), (0, 0));
    assert_eq!(parse_mpls(&[0, 0, 1], &mut labels), (0, 0));
    assert_eq!(labels, [9, 9, 9]);
    let data = [0x00, 0x11, 0x00, 0x22, 0x00, 0x11, 0x00, 0x33, 0x00, 0x11, 0x00, 0x44,
                0x00, 0x11, 0x00, 0x55, 0x00, 0x11, 0x01, 0x66, 0x00, 0x11, 0x00, 0x77];
    assert_eq!(parse_mpls(&data, &mut labels), (20, 3));
    assert_eq!(labels, [0x22001100, 0x33001100, 0x44001100]);
    let data = [0x00, 0x11, 0x00, 0x22, 0x00, 0x11, 0x00, 0x33, 0xaa, 0xbb];
    let mut labels = [9u32; 3];
    assert_eq!(parse_mpls(&data, &mut labels), (8, 2));
    assert_eq!(labels, [0x22001100, 0x33001100, 9]);
}

#[test]
fn vlan_and_mpls_codes() {
    assert!(is_vlan(0x8100));
    assert!(is_vlan(0x88a8));
    assert!(!is_vlan(0x0800));
    assert!(!is_vlan(0x8847));
    assert!(is_mpls(0x8847));
    assert!(is_mpls(0x8848));
    assert!(!is_mpls(0x8100));
    assert!(!is_mpls(0x8849));
}

#[test]
fn metadata_projection_is_repeatable() {
    let mut tunnel: flow_tnl = Default::default();
    tunnel.ip_dst = 0x0100000a;
    tunnel.tun_id = 0x2a;
    let mut md = sample_metadata(0x5);
    md.tunnel = tunnel;
    let mut first = fresh();
    let mut second = fresh();
    parse_metadata(&md, 0x0800, &mut first);
    parse_metadata(&md, 0x0800, &mut second);
    assert_eq!(first.data(), second.data());
    assert_eq!(first.map().bits, second.map().bits);
    assert_eq!(first.position(), second.position());
}

#[test]
fn metadata_slots() {
    let mut mfx = fresh();
    parse_metadata(&sample_metadata(0x5), 0x0800, &mut mfx);
    assert_eq!(mfx.map().bits, [0x03f0000000000000, 0]);
    assert_eq!(mfx.position(), 6);
    let mut mfx = fresh();
    let mut md = sample_metadata(0);
    md.recirc_id = 0;
    md.skb_priority = 0;
    md.pkt_mark = 0;
    parse_metadata(&md, 0x0800, &mut mfx);
    assert_eq!(mfx.map().bits, [0x00a0000000000000, 0]);
    assert_eq!(mfx.data()[0], 0x0000009900000022);
    assert_eq!(mfx.data()[1], 0x0000080000000000);
    assert_eq!(mfx.position(), 2);
}

#[test]
fn metadata_mark_alone_pushes_priority_too() {
    let mut mfx = fresh();
    let mut md = sample_metadata(0);
    md.skb_priority = 0;
    parse_metadata(&md, 0x0800, &mut mfx);
    assert_eq!(mfx.data()[0], 0x0000004400000000);
    assert_eq!(mfx.data()[1], 0x0000009900000022);
}

#[test]
fn metadata_zero_label_is_not_pushed() {
    let mut mfx = fresh();
    let mut md = sample_metadata(0x5);
    md.ct_label = ovs_u128 { lo: 0, hi: 0 };
    parse_metadata(&md, 0x0800, &mut mfx);
    assert_eq!(mfx.map().bits, [0x00f0000000000000, 0]);
    assert_eq!(mfx.position(), 4);
}

#[test]
fn metadata_tunnel_header() {
    let mut tunnel: flow_tnl = Default::default();
    tunnel.ip_dst = 0x0100000a;
    tunnel.ip_src = 0x0200000a;
    tunnel.tun_id = 0x2a;
    tunnel.flags = 0x0008;
    tunnel.ip_tos = 0x10;
    tunnel.ip_ttl = 0x40;
    tunnel.tp_src = 0x1234;
    tunnel.tp_dst = 0x5678;
    let mut md = sample_metadata(0);
    md.tunnel = tunnel;
    let mf: Miniflow = Miniflow::new();
    let mut mfx = mf_ctx::from_mf(mf.map, Vec::new());
    parse_metadata(&md, 0x0800, &mut mfx);
    assert_eq!(
        *mfx.data(),
        vec![
            0x000000000100000a,
            0,
            0x0200000a00000000,
            0,
            0,
            0x2a,
            0x5678123440100008,
            0,
            0,
            0x0000004400000033,
            0x0000009900000022,
            0x11,
            0x0000080000000000,
        ]
    );
    assert_eq!(mfx.map().bits, [0x00f00000000001ff, 0]);
}

#[test]
fn metadata_tunnel_with_sorted_options() {
    let mut tunnel: flow_tnl = Default::default();
    tunnel.ipv6_dst.s6_addr32[3] = 1;
    tunnel.metadata.present = tun_md_present::Bitmap(0x5);
    tunnel.metadata.tab = 0xabcd;
    tunnel.metadata.opts[0] = 0x1111;
    tunnel.metadata.opts[31] = 0x2222;
    let mut md = sample_metadata(0);
    md.tunnel = tunnel;
    let mf: Miniflow = Miniflow::new();
    let mut mfx = mf_ctx::from_mf(mf.map, Vec::new());
    parse_metadata(&md, 0x0800, &mut mfx);
    assert_eq!(mfx.data().len(), 9 + 34 + 4);
    assert_eq!(mfx.data()[2], 1);
    assert_eq!(mfx.data()[9], 0x5);
    assert_eq!(mfx.data()[10], 0xabcd);
    assert_eq!(mfx.data()[11], 0x1111);
    assert_eq!(mfx.data()[42], 0x2222);
    assert_eq!(mfx.data()[43], 0x0000004400000033);
    assert_eq!(mfx.map().bits, [0x00f007ffffffffff, 0]);
}

#[test]
fn metadata_tunnel_with_raw_options() {
    let mut tunnel: flow_tnl = Default::default();
    tunnel.ip_dst = 1;
    tunnel.flags = FLOW_TNL_F_UDPIF;
    tunnel.metadata.present = tun_md_present::Length(12);
    tunnel.metadata.opts[0] = 0x1111;
    tunnel.metadata.opts[1] = 0x2222;
    tunnel.metadata.opts[2] = 0x3333;
    let mut md = sample_metadata(0);
    md.tunnel = tunnel;
    let mf: Miniflow = Miniflow::new();
    let mut mfx = mf_ctx::from_mf(mf.map, Vec::new());
    parse_metadata(&md, 0x0800, &mut mfx);
    assert_eq!(mfx.data().len(), 9 + 1 + 2 + 4);
    assert_eq!(mfx.data()[6], 0x0010);
    assert_eq!(mfx.data()[9], 12);
    assert_eq!(mfx.data()[10], 0x1111);
    assert_eq!(mfx.data()[11], 0x2222);
    assert_eq!(mfx.data()[12], 0x0000004400000033);
    assert_eq!(mfx.map().bits, [0x00f0000000001bff, 0]);
}

#[test]
fn metadata_tunnel_without_destination_is_not_pushed() {
    let mut tunnel: flow_tnl = Default::default();
    tunnel.ip_src = 7;
    tunnel.tun_id = 9;
    tunnel.metadata.present = tun_md_present::Bitmap(1);
    let mut md = sample_metadata(0);
    md.tunnel = tunnel;
    let mut mfx = fresh();
    parse_metadata(&md, 0x0800, &mut mfx);
    assert_eq!(mfx.data()[0], 0x0000004400000033);
    assert_eq!(mfx.map().bits, [0x00f0000000000000, 0]);
}

#[test]
fn ct_orig_tuple_default_in_metadata() {
    let md = sample_metadata(1);
    assert!(matches!(md.ct_orig_tuple, ct_orig_tuple::Ipv4(_)));
}

fn slots_of(mfx: &mf_ctx) -> Vec<usize> {
    let map = mfx.map();
    (0..128).filter(|&i| map.is_set(i)).collect()
}

#[test]
fn l2_words_follow_slot_order() {
    let mut mfx = fresh();
    let data = [0x00, 0x11, 0x22, 0x33, 0x44, 0x55, 0x66, 0x77, 0x88, 0x99, 0xaa, 0xbb,
                0x88, 0xA8, 0x01, 0xFF,
                0x81, 0x00, 0x02, 0xFF,
                0x88, 0x47,
                0x00, 0x11, 0x00, 0x22,
                0x00, 0x11, 0x00, 0x33,
                0x00, 0x11, 0x01, 0x44,
                0xde, 0xad];
    assert_eq!(parse_l2(&data, &mut mfx, PT_ETH.to_be()), Ok((34, 22)));
    assert_eq!(slots_of(&mfx), vec![59, 60, 61, 62, 63]);
    assert_eq!(mfx.position(), 5);
    assert_eq!(
        mfx.data()[..5],
        [
            0x7766554433221100,
            0x4788bbaa9988,
            0xFF020081FF01A888,
            0x3300110022001100,
            0x44011100,
        ]
    );
}

#[test]
fn metadata_words_follow_slot_order() {
    let mut tunnel: flow_tnl = Default::default();
    tunnel.ip_dst = 1;
    tunnel.flags = FLOW_TNL_F_UDPIF;
    tunnel.metadata.present = tun_md_present::Length(255);
    let mut md = sample_metadata(0x5);
    md.tunnel = tunnel;
    let mut mfx = fresh();
    parse_metadata(&md, 0x0800, &mut mfx);
    let mut expected: Vec<usize> = (0..10).collect();
    expected.extend(11..43);
    expected.extend(52..58);
    assert_eq!(slots_of(&mfx), expected);
    assert_eq!(mfx.position(), expected.len());
    assert_eq!(mfx.data().len(), expected.len());
}

#[test]
fn walk_after_projection_keeps_slot_order() {
    let mut mfx = fresh();
    parse_metadata(&sample_metadata(0x5), PT_ETH.to_be(), &mut mfx);
    let data = [0x00, 0x11, 0x22, 0x33, 0x44, 0x55, 0x66, 0x77, 0x88, 0x99, 0xaa, 0xbb, 0x08, 0x00];
    assert_eq!(parse_l2(&data, &mut mfx, PT_ETH.to_be()), Ok((14, u16::MAX)));
    assert_eq!(slots_of(&mfx), vec![52, 53, 54, 55, 56, 57, 59, 60]);
    assert_eq!(mfx.position(), 8);
    assert_eq!(mfx.data()[6], 0x7766554433221100);
    assert_eq!(mfx.data()[7], 0x0008bbaa9988);
}
