use flow_parser::endian::{swap_bytes16, swap_bytes32};
use flow_parser::packet::{
    packet_type, packet_type_ns, packet_type_ns_type, ct_orig_tuple, EtherType, LlcHeader,
    LlcSnapHeader, MplsHeader, SnapHeader, VlanHeader, VlanHeader_, ETH_ADDR_SIZE,
    ETH_HEADER_SIZE, LLC_SNAP_HEADER_SIZE, MAX_MPLS_LABELS, MAX_VLAN_HEADERS, MPLS_HEADER_SIZE,
    OFPHTN_ETHERTYPE, OFPHTN_ONF, PKT_METADATA_CT_ORIG_TUPLE_OFS, PKT_METADATA_ICMP_RELATED_OFS,
    PKT_METADATA_TUNNEL_OFS, PT_ETH, PT_IPV4, PT_IPV6, PT_MPLS, PT_MPLS_MC, PT_NSH, PT_UNKNOWN,
    PT_USE_NEXT_PROTO, VLAN_HEADER_SIZE,
};

#[test]
fn pkt_metadata_alignment() {
    assert_eq!(PKT_METADATA_ICMP_RELATED_OFS, 57);
    assert_eq!(PKT_METADATA_CT_ORIG_TUPLE_OFS, 64);
    assert_eq!(PKT_METADATA_TUNNEL_OFS, 128);
}

#[test]
fn vlan_header() {
    let vlan = VlanHeader::QtagBe(0x11223344);
    assert_eq!(0x3344_u16, vlan.qtag2().tpid_be);
}

#[test]
fn llc_snap_header() {
    assert_eq!(LlcHeader::wire_size(), 3);
    assert_eq!(SnapHeader::wire_size(), 5);
    assert_eq!(LlcSnapHeader::wire_size(), 8);
}

#[test]
fn vlan_header_halves_and_word() {
    let vlan = VlanHeader::QtagBe(0x11223344);
    assert_eq!(vlan.qtag2().tci_be, 0x1122);
    assert_eq!(vlan.qtag_be(), 0x11223344);
    let halves = VlanHeader::Qtag2(VlanHeader_ { tpid_be: 0x0081, tci_be: 0xFF01 });
    assert_eq!(halves.qtag_be(), 0xFF010081);
    assert_eq!(halves.qtag2().tpid_be, 0x0081);
    assert_eq!(halves.qtag2().tci_be, 0xFF01);
}

#[test]
fn vlan_header_read_keeps_wire_order() {
    let data = [0xde, 0xad, 0x81, 0x00, 0x01, 0xff, 0x08, 0x00];
    let vlan = VlanHeader::read(&data, 2);
    assert_eq!(vlan.qtag2().tpid_be, 0x0081);
    assert_eq!(vlan.qtag2().tci_be, 0xff01);
    assert_eq!(vlan.qtag_be(), 0xff010081);
}

#[test]
fn wire_constants() {
    assert_eq!(ETH_ADDR_SIZE, 6);
    assert_eq!(ETH_HEADER_SIZE, 14);
    assert_eq!(MAX_VLAN_HEADERS, 2);
    assert_eq!(VLAN_HEADER_SIZE, 4);
    assert_eq!(MAX_MPLS_LABELS, 3);
    assert_eq!(LLC_SNAP_HEADER_SIZE, 8);
    assert_eq!(MPLS_HEADER_SIZE, 4);
}

#[test]
fn ethertype_from_u16_known_codes() {
    assert_eq!(EtherType::from_u16(0x0600), Some(EtherType::Min));
    assert_eq!(EtherType::from_u16(0x0800), Some(EtherType::Ip));
    assert_eq!(EtherType::from_u16(0x0806), Some(EtherType::Arp));
    assert_eq!(EtherType::from_u16(0x22eb), Some(EtherType::Erspan2));
    assert_eq!(EtherType::from_u16(0x8035), Some(EtherType::Rarp));
    assert_eq!(EtherType::from_u16(0x8100), Some(EtherType::Vlan8021Q));
    assert_eq!(EtherType::from_u16(0x86dd), Some(EtherType::Ipv6));
    assert_eq!(EtherType::from_u16(0x8809), Some(EtherType::Lacp));
    assert_eq!(EtherType::from_u16(0x8847), Some(EtherType::Mpls));
    assert_eq!(EtherType::from_u16(0x8848), Some(EtherType::MplsMcast));
    assert_eq!(EtherType::from_u16(0x88a8), Some(EtherType::Vlan8021AD));
    assert_eq!(EtherType::from_u16(0x88be), Some(EtherType::Erspan1));
    assert_eq!(EtherType::from_u16(0x894f), Some(EtherType::Nsh));
}

#[test]
fn ethertype_from_u16_rejects_other_codes() {
    assert_eq!(EtherType::from_u16(0x0000), None);
    assert_eq!(EtherType::from_u16(0x05ff), None);
    assert_eq!(EtherType::from_u16(0x0801), None);
    assert_eq!(EtherType::from_u16(0x8101), None);
    assert_eq!(EtherType::from_u16(0xffff), None);
}

#[test]
fn ethertype_decode_is_exact_on_every_code() {
    let known = [
        EtherType::Min,
        EtherType::Ip,
        EtherType::Arp,
        EtherType::Erspan2,
        EtherType::Rarp,
        EtherType::Vlan8021Q,
        EtherType::Ipv6,
        EtherType::Lacp,
        EtherType::Mpls,
        EtherType::MplsMcast,
        EtherType::Vlan8021AD,
        EtherType::Erspan1,
        EtherType::Nsh,
    ];
    let mut decoded = 0;
    for value in 0..=u16::MAX {
        match EtherType::from_u16(value) {
            Some(t) => {
                assert_eq!(t.code(), value);
                assert!(known.contains(&t));
                decoded += 1;
            }
            None => assert!(known.iter().all(|t| t.code() != value)),
        }
    }
    assert_eq!(decoded, 13);
}

#[test]
fn ethertype_codes() {
    assert_eq!(EtherType::NotEth.code(), 0x05ff);
    assert_eq!(EtherType::Min.code(), 0x0600);
    assert_eq!(EtherType::Ip.code(), 0x0800);
    assert_eq!(EtherType::Nsh.code(), 0x894f);
}

#[test]
fn ethertype_to_be16_swaps_bytes() {
    assert_eq!(EtherType::Ip.to_be16(), 0x0008);
    assert_eq!(EtherType::Ipv6.to_be16(), 0xdd86);
    assert_eq!(EtherType::Mpls.to_be16(), 0x4788);
    assert_eq!(EtherType::NotEth.to_be16(), 0xff05);
}

#[test]
fn ethertype_order_follows_codes() {
    assert!(EtherType::NotEth < EtherType::Min);
    assert!(EtherType::Ip < EtherType::Arp);
    assert!(EtherType::Vlan8021AD < EtherType::Nsh);
}

#[test]
fn swap_bytes_exact() {
    assert_eq!(swap_bytes16(0x1234), 0x3412);
    assert_eq!(swap_bytes16(0x00ff), 0xff00);
    assert_eq!(swap_bytes32(0x11223344), 0x44332211);
    assert_eq!(swap_bytes32(0x00000800), 0x00080000);
    assert_eq!(swap_bytes32(0), 0);
}

#[test]
fn packet_type_constants() {
    assert_eq!(PT_ETH, packet_type(OFPHTN_ONF, 0x0000));
    assert_eq!(PT_USE_NEXT_PROTO, packet_type(OFPHTN_ONF, 0xfffe));
    assert_eq!(PT_IPV4, packet_type(OFPHTN_ETHERTYPE, EtherType::Ip.code()));
    assert_eq!(PT_IPV6, packet_type(OFPHTN_ETHERTYPE, EtherType::Ipv6.code()));
    assert_eq!(PT_MPLS, packet_type(OFPHTN_ETHERTYPE, EtherType::Mpls.code()));
    assert_eq!(PT_MPLS_MC, packet_type(OFPHTN_ETHERTYPE, EtherType::MplsMcast.code()));
    assert_eq!(PT_NSH, packet_type(OFPHTN_ETHERTYPE, EtherType::Nsh.code()));
    assert_eq!(PT_UNKNOWN, packet_type(0xffff, 0xffff));
    assert_eq!(PT_UNKNOWN, 0xffffffff);
}

#[test]
fn packet_type_parts() {
    assert_eq!(packet_type(1, 0x0800), 0x00010800);
    assert_eq!(packet_type_ns(0x00010800), 1);
    assert_eq!(packet_type_ns_type(0x00010800), 0x0800);
    assert_eq!(packet_type_ns_type(PT_USE_NEXT_PROTO), 0xfffe);
    assert_eq!(packet_type_ns(PT_UNKNOWN), 0xffff);
}

#[test]
fn mpls_header_word_and_bottom() {
    let data = [0x00, 0x11, 0x01, 0x55];
    let entry = MplsHeader::read(&data, 0);
    assert_eq!(entry.mpls_lse_hi_be, 0x1100);
    assert_eq!(entry.mpls_lse_lo_be, 0x5501);
    assert_eq!(entry.as_u32(), 0x55011100);
    assert!(entry.is_bos());
    let data = [0x00, 0x11, 0x00, 0x55];
    let entry = MplsHeader::read(&data, 0);
    assert!(!entry.is_bos());
    let data = [0x00, 0x11, 0xfe, 0xff];
    assert!(!MplsHeader::read(&data, 0).is_bos());
}

#[test]
fn llc_snap_read_and_match() {
    let data = [0x00, 0x10, 0xaa, 0xaa, 0x03, 0x00, 0x00, 0x00, 0x09, 0x00];
    let llc = LlcSnapHeader::read(&data, 2);
    assert_eq!(llc.llc_header.llc_dsap, 0xaa);
    assert_eq!(llc.llc_header.llc_ssap, 0xaa);
    assert_eq!(llc.llc_header.llc_cntl, 3);
    assert_eq!(llc.snap_header.snap_org, [0, 0, 0]);
    assert_eq!(llc.snap_header.snap_type, 0x0900);
    assert!(llc.is_snap());
    let data = [0x00, 0x10, 0xaa, 0xaa, 0x03, 0x00, 0x00, 0x01, 0x09, 0x00];
    assert!(!LlcSnapHeader::read(&data, 2).is_snap());
    let data = [0x00, 0x10, 0xab, 0xaa, 0x03, 0x00, 0x00, 0x00, 0x09, 0x00];
    assert!(!LlcSnapHeader::read(&data, 2).is_snap());
}

#[test]
fn ct_orig_tuple_default_is_ipv4() {
    match ct_orig_tuple::default() {
        ct_orig_tuple::Ipv4(t) => {
            assert_eq!(t.ipv4_src_be, 0);
            assert_eq!(t.ipv4_dst_be, 0);
            assert_eq!(t.src_port_be, 0);
            assert_eq!(t.dst_port_be, 0);
            assert_eq!(t.ipv4_proto, 0);
        }
        ct_orig_tuple::Ipv6(_) => panic!("the default tuple is an IPv4 tuple"),
    }
}
