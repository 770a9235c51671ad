use vignette_core::error::ProtoError;
use vignette_core::hid::{build_output_report, split_input_report, INPUT_REPORT_SIZE};
use vignette_core::model::{self, Keyboard};
use vignette_core::protocol::{
    is_supported, match_protocol, protocol_map, supported_positions, DevSpec, KeyboardProtocol,
};
use vignette_core::util::{bool_parser, bool_writer};

fn spec(product_id: u16) -> DevSpec {
    DevSpec { vendor_id: 0x320F, product_id, usage_page: 0xFF1C, usage_id: 0x92 }
}

#[test]
fn known_devices_match_weisheng() {
    assert_eq!(match_protocol(&spec(0x5055)), Some(KeyboardProtocol::Weisheng));
    assert_eq!(match_protocol(&spec(0x5088)), Some(KeyboardProtocol::Weisheng));
    assert!(is_supported(&spec(0x5055)));
    assert!(model::is_supported(&spec(0x5088)));
}

#[test]
fn unknown_devices_do_not_match() {
    assert_eq!(match_protocol(&spec(0x5056)), None);
    assert!(!is_supported(&spec(0x1234)));
    let mut s = spec(0x5055);
    s.usage_id = 0x93;
    assert!(!is_supported(&s));
    assert!(!model::is_supported(&s));
}

#[test]
fn protocol_map_lists_both_devices() {
    let m = protocol_map();
    assert_eq!(m.len(), 2);
    assert!(m.contains(&(spec(0x5055), KeyboardProtocol::Weisheng)));
    assert!(m.contains(&(spec(0x5088), KeyboardProtocol::Weisheng)));
}

#[test]
fn keyboard_new_checks_support() {
    let k = Keyboard::new("handle", spec(0x5088)).unwrap();
    assert_eq!(k.protocol(), KeyboardProtocol::Weisheng);
    assert_eq!(*k.device(), "handle");
    match Keyboard::new(1u32, spec(1)) {
        Err(ProtoError::NotSupported(s)) => assert_eq!(s, spec(1)),
        _ => panic!("expected NotSupported"),
    }
}

#[test]
fn output_report_prefixes_report_id() {
    assert_eq!(build_output_report(4, &[1, 2, 3]), vec![4, 1, 2, 3]);
    assert_eq!(build_output_report(7, &[]), vec![7]);
}

#[test]
fn input_report_is_split_at_length() {
    let mut buf = vec![0u8; INPUT_REPORT_SIZE];
    buf[0] = 4;
    buf[1] = 10;
    buf[2] = 11;
    buf[3] = 12;
    assert_eq!(split_input_report(&buf, 3), (4, vec![10, 11]));
    assert_eq!(split_input_report(&buf, 1), (4, vec![]));
    let report = build_output_report(9, &[5, 6]);
    assert_eq!(split_input_report(&report, report.len()), (9, vec![5, 6]));
}

#[test]
fn bool_bytes() {
    assert!(!bool_parser(0));
    assert!(bool_parser(1));
    assert!(bool_parser(255));
    assert_eq!(bool_writer(&true), 1);
    assert_eq!(bool_writer(&false), 0);
    assert!(bool_parser(bool_writer(&true)));
}

#[test]
fn supported_positions_in_order() {
    let specs = vec![spec(1), spec(0x5088), spec(2), spec(0x5055), spec(0x5088)];
    assert_eq!(supported_positions(&specs), vec![1, 3, 4]);
    assert!(supported_positions(&[]).is_empty());
    assert!(supported_positions(&[spec(7)]).is_empty());
}
