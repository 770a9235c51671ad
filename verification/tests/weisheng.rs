use vignette_core::error::{FrameError, ProtoError};
use vignette_core::protocol::weisheng::{
    battery_status_from, decode_response, firmware_version_from, Exchange, FunctionInfo, LightMode,
    PollingRate, WsCmd, WsFrame, WS_REPORT_ID,
};

fn frame(cmd: WsCmd, offset: u16, data: Vec<u8>) -> WsFrame {
    WsFrame { cmd, offset, data }
}

#[test]
fn payload_and_data_lengths() {
    assert_eq!(WsCmd::GetVersion.payload_len(), 24);
    assert_eq!(WsCmd::GetFunctionInfo.payload_len(), 24);
    assert_eq!(WsCmd::SetFunctionInfo.payload_len(), 24);
    assert_eq!(WsCmd::GetBatteryLevel.payload_len(), 2);
    assert_eq!(WsCmd::ResetSettings.payload_len(), 0);
    assert_eq!(WsCmd::SetKey.payload_len(), 56);
    assert_eq!(WsCmd::GetVersion.data_len(), 30);
    assert_eq!(WsCmd::SetFunctionInfo.data_len(), 35);
    assert_eq!(WsCmd::GetBatteryLevel.data_len(), 2);
    assert_eq!(WsCmd::ResetSettings.data_len(), 0);
    assert_eq!(WsCmd::Error.data_len(), 56);
}

#[test]
fn command_codes() {
    assert_eq!(WsCmd::GetBatteryLevel.code(), Some(26));
    assert_eq!(WsCmd::SetFnKey.code(), Some(39));
    assert_eq!(WsCmd::Error.code(), None);
    assert_eq!(WsCmd::from_code(13), WsCmd::ResetSettings);
    assert_eq!(WsCmd::from_code(4), WsCmd::Error);
    assert_eq!(WsCmd::from_code(0), WsCmd::Error);
}

#[test]
fn new_without_data_makes_zeroed_frames() {
    let frames = WsFrame::new(WsCmd::GetFunctionInfo, None);
    assert_eq!(frames.len(), 2);
    assert_eq!(frames[0].offset, 0);
    assert_eq!(frames[1].offset, 24);
    assert!(frames.iter().all(|f| f.cmd == WsCmd::GetFunctionInfo));
    assert_eq!(frames[0].data, vec![0u8; 24]);
    assert_eq!(frames[1].data, vec![0u8; 11]);

    let version = WsFrame::new(WsCmd::GetVersion, None);
    assert_eq!(version.len(), 2);
    assert_eq!(version[0].data, vec![0u8; 24]);
    assert_eq!(version[1].data, vec![0u8; 6]);

    let battery = WsFrame::new(WsCmd::GetBatteryLevel, None);
    assert_eq!(battery.len(), 1);
    assert_eq!(battery[0].data, vec![0u8; 2]);

    let reset = WsFrame::new(WsCmd::ResetSettings, None);
    assert_eq!(reset.len(), 1);
    assert_eq!(reset[0].offset, 0);
    assert!(reset[0].data.is_empty());
}

#[test]
fn new_with_data_fragments_it() {
    let data: Vec<u8> = (0u8..35).collect();
    let frames = WsFrame::new(WsCmd::SetFunctionInfo, Some(&data));
    assert_eq!(frames.len(), 2);
    assert_eq!(frames[0].offset, 0);
    assert_eq!(frames[0].data, data[..24].to_vec());
    assert_eq!(frames[1].offset, 24);
    assert_eq!(frames[1].data, data[24..].to_vec());
    let joined: Vec<u8> = frames.iter().flat_map(|f| f.data.clone()).collect();
    assert_eq!(joined, data);
}

#[test]
fn new_with_exact_multiple_and_empty_data() {
    let data = vec![7u8; 48];
    let frames = WsFrame::new(WsCmd::GetVersion, Some(&data));
    assert_eq!(frames.len(), 2);
    assert_eq!(frames[1].data.len(), 24);
    let none = WsFrame::new(WsCmd::SetKey, Some(&[]));
    assert!(none.is_empty());
}

#[test]
fn frame_offsets_wrap_at_sixteen_bits() {
    let data = vec![1u8; 56 * 1171 + 3];
    let frames = WsFrame::new(WsCmd::WriteMacro, Some(&data));
    assert_eq!(frames.len(), 1172);
    // 1171 * 56 = 65576, which is 40 past 65536
    assert_eq!(frames[1171].offset, 40);
    assert_eq!(frames[1171].data.len(), 3);
}

#[test]
fn frame_to_bytes_layout() {
    let f = frame(WsCmd::GetBatteryLevel, 0x0102, vec![9, 8]);
    assert_eq!(f.to_bytes().unwrap(), vec![0, 0, 26, 2, 0x02, 0x01, 0, 9, 8]);
    let e = frame(WsCmd::Error, 3, vec![5]);
    assert_eq!(e.to_bytes().unwrap(), vec![0, 0, 1, 3, 0, 0, 5]);
}

#[test]
fn frame_to_bytes_rejects_long_payload() {
    let f = frame(WsCmd::SetKey, 0, vec![0u8; 256]);
    assert_eq!(f.to_bytes(), Err(FrameError::LengthOverflow));
    let g = frame(WsCmd::SetKey, 0, vec![0u8; 255]);
    assert_eq!(g.to_bytes().unwrap().len(), 255 + 7);
}

#[test]
fn frame_from_bytes_reads_payload_len_bytes() {
    let bytes = [0, 0, 26, 99, 0x34, 0x12, 0, 55, 1, 200, 201];
    let f = WsFrame::from_bytes(&bytes).unwrap();
    assert_eq!(f.cmd, WsCmd::GetBatteryLevel);
    assert_eq!(f.offset, 0x1234);
    assert_eq!(f.data, vec![55, 1]);
}

#[test]
fn frame_from_bytes_errors() {
    assert_eq!(WsFrame::from_bytes(&[0]).unwrap_err(), FrameError::UnexpectedEof);
    assert_eq!(WsFrame::from_bytes(&[0, 1, 26]).unwrap_err(), FrameError::BadMagic);
    assert_eq!(WsFrame::from_bytes(&[0, 0]).unwrap_err(), FrameError::UnexpectedEof);
    assert_eq!(WsFrame::from_bytes(&[0, 0, 26, 2, 0]).unwrap_err(), FrameError::UnexpectedEof);
    assert_eq!(
        WsFrame::from_bytes(&[0, 0, 26, 2, 0, 0, 0, 1]).unwrap_err(),
        FrameError::UnexpectedEof
    );
    // no payload: six bytes are enough
    let r = WsFrame::from_bytes(&[0, 0, 13, 0, 5, 0]).unwrap();
    assert_eq!(r.cmd, WsCmd::ResetSettings);
    assert_eq!(r.offset, 5);
    assert!(r.data.is_empty());
    // unknown command byte
    let mut bytes = vec![0u8, 0, 77, 0, 0, 0, 0];
    bytes.extend(vec![4u8; 56]);
    let e = WsFrame::from_bytes(&bytes).unwrap();
    assert_eq!(e.cmd, WsCmd::Error);
    assert_eq!(e.data.len(), 56);
}

#[test]
fn frame_roundtrip_through_bytes() {
    let f = frame(WsCmd::GetVersion, 24, (0u8..24).collect());
    let bytes = f.to_bytes().unwrap();
    let g = WsFrame::from_bytes(&bytes).unwrap();
    assert_eq!(g.cmd, f.cmd);
    assert_eq!(g.offset, f.offset);
    assert_eq!(g.data, f.data);
}

#[test]
fn decode_response_checks_report_id() {
    let bytes = [0, 0, 26, 2, 0, 0, 0, 80, 1];
    match decode_response(3, &bytes) {
        Err(ProtoError::InvalidReportId(3)) => {}
        other => panic!("unexpected {:?}", other),
    }
    match decode_response(WS_REPORT_ID, &[1, 0]) {
        Err(ProtoError::BadFrame(FrameError::BadMagic)) => {}
        other => panic!("unexpected {:?}", other),
    }
    let f = decode_response(WS_REPORT_ID, &bytes).unwrap();
    assert_eq!(f.data, vec![80, 1]);
}

#[test]
fn exchange_gathers_battery_response() {
    let mut ex = Exchange::new(WsCmd::GetBatteryLevel, None);
    assert!(!ex.is_complete());
    let req = ex.next_request().unwrap();
    assert_eq!(req, vec![0, 0, 26, 2, 0, 0, 0, 0, 0]);
    let resp = decode_response(WS_REPORT_ID, &[0, 0, 26, 2, 0, 0, 0, 77, 1]).unwrap();
    ex.accept(&resp).unwrap();
    assert!(ex.is_complete());
    assert!(ex.next_request().is_none());
    let data = ex.into_response();
    assert_eq!(data, vec![77, 1]);
    assert_eq!(battery_status_from(&data), (77, true));
}

#[test]
fn exchange_refuses_mismatched_response() {
    let mut ex = Exchange::new(WsCmd::GetBatteryLevel, None);
    let other = frame(WsCmd::GetVersion, 0, vec![1; 24]);
    match ex.accept(&other) {
        Err(ProtoError::ResponseMismatch) => {}
        r => panic!("unexpected {:?}", r),
    }
    assert!(!ex.is_complete());
    assert_eq!(ex.into_response(), vec![0, 0]);
}

#[test]
fn exchange_cuts_payload_at_data_len() {
    let mut ex = Exchange::new(WsCmd::GetVersion, None);
    let first = frame(WsCmd::GetVersion, 0, (0u8..24).collect());
    ex.accept(&first).unwrap();
    let second = frame(WsCmd::GetVersion, 24, (100u8..124).collect());
    ex.accept(&second).unwrap();
    let data = ex.into_response();
    assert_eq!(data.len(), 30);
    assert_eq!(&data[..24], &(0u8..24).collect::<Vec<_>>()[..]);
    assert_eq!(&data[24..], &[100, 101, 102, 103, 104, 105]);
    assert_eq!(firmware_version_from(&data), 0x6968);
}

#[test]
fn exchange_reassembles_echoed_frames() {
    let payload: Vec<u8> = (1u8..=35).collect();
    let frames = WsFrame::new(WsCmd::SetFunctionInfo, Some(&payload));
    let mut ex = Exchange::new(WsCmd::SetFunctionInfo, Some(&payload));
    for f in &frames {
        assert!(ex.next_request().is_some());
        ex.accept(f).unwrap();
    }
    assert!(ex.is_complete());
    assert_eq!(ex.into_response(), payload);
}

#[test]
fn reset_exchange_has_one_empty_request() {
    let mut ex = Exchange::new(WsCmd::ResetSettings, None);
    assert_eq!(ex.next_request().unwrap(), vec![0, 0, 13, 0, 0, 0, 0]);
    let resp = decode_response(WS_REPORT_ID, &[0, 0, 13, 0, 0, 0]).unwrap();
    ex.accept(&resp).unwrap();
    assert!(ex.into_response().is_empty());
}

#[test]
fn firmware_version_is_little_endian() {
    let mut data = vec![0u8; 30];
    data[28] = 0x34;
    data[29] = 0x12;
    assert_eq!(firmware_version_from(&data), 0x1234);
}

#[test]
fn battery_status_reads_level_and_charging() {
    assert_eq!(battery_status_from(&[50, 0]), (50, false));
    assert_eq!(battery_status_from(&[100, 3]), (100, true));
}

fn sample_info_bytes() -> Vec<u8> {
    let mut b = vec![0u8; 35];
    b[0] = 9; // ignored
    b[1] = 6; // Steady
    b[2] = 3;
    b[3] = 5;
    b[4] = 2; // true
    b[5] = 0;
    b[6] = 10;
    b[7] = 20;
    b[8] = 30;
    b[9] = 1;
    b[10] = 40;
    b[11] = 50;
    b[12] = 60;
    b[13] = 0x2c;
    b[14] = 0x01;
    b[15] = 7;
    b[18] = 2;
    b[19] = 1;
    b[21] = 1;
    b[22] = 3; // Hz125
    b[27] = 1;
    b[28] = 1;
    b[33] = 1;
    b[34] = 8;
    b
}

#[test]
fn function_info_decodes_fields() {
    let info = FunctionInfo::from_bytes(&sample_info_bytes()).unwrap();
    assert_eq!(info.light_mode, LightMode::Steady);
    assert_eq!(info.light_brightness, 3);
    assert_eq!(info.light_speed, 5);
    assert!(info.light_reverse);
    assert!(!info.rainbow_mode);
    assert_eq!(info.static_color, [10, 20, 30]);
    assert_eq!(info.color_index, 1);
    assert_eq!(info.custom_color, [40, 50, 60]);
    assert_eq!(info.sleep_time, 300);
    assert_eq!(info.reserved15, 7);
    assert_eq!(info.color_trigger_mode, 2);
    assert!(info.swap_wasd);
    assert!(!info.all_key_punchless);
    assert!(info.lock_win);
    assert_eq!(info.polling_rate, PollingRate::Hz125);
    assert!(info.mac_mode);
    assert!(info.enable_light);
    assert!(info.enable_smart_speed);
    assert_eq!(info.enable_low_latency, 8);
}

#[test]
fn function_info_encoding_normalizes() {
    let bytes = sample_info_bytes();
    let info = FunctionInfo::from_bytes(&bytes).unwrap();
    let out = info.to_bytes();
    assert_eq!(out.len(), 35);
    assert_eq!(out[0], 0);
    assert_eq!(out[4], 1);
    assert_eq!(&out[1..4], &bytes[1..4]);
    assert_eq!(&out[5..], &bytes[5..]);
    assert_eq!(FunctionInfo::from_bytes(&out).unwrap(), info);
}

#[test]
fn function_info_errors() {
    let mut bytes = sample_info_bytes();
    assert_eq!(FunctionInfo::from_bytes(&bytes[..1]).unwrap_err(), FrameError::UnexpectedEof);
    assert_eq!(FunctionInfo::from_bytes(&bytes[..22]).unwrap_err(), FrameError::UnexpectedEof);
    assert_eq!(FunctionInfo::from_bytes(&bytes[..34]).unwrap_err(), FrameError::UnexpectedEof);
    bytes[22] = 4;
    assert_eq!(FunctionInfo::from_bytes(&bytes).unwrap_err(), FrameError::NoVariantMatch);
    bytes[1] = 0;
    assert_eq!(FunctionInfo::from_bytes(&bytes[..5]).unwrap_err(), FrameError::NoVariantMatch);
    bytes[1] = 21;
    assert_eq!(FunctionInfo::from_bytes(&bytes).unwrap_err(), FrameError::NoVariantMatch);
}

#[test]
fn light_levels_are_at_least_four() {
    let mut info = FunctionInfo::from_bytes(&sample_info_bytes()).unwrap();
    let before = info;
    info.set_light_brightness(1);
    assert_eq!(info.light_brightness, 4);
    info.set_light_brightness(9);
    assert_eq!(info.light_brightness, 9);
    info.set_light_speed(0);
    assert_eq!(info.light_speed, 4);
    info.set_light_speed(4);
    assert_eq!(info.light_speed, 4);
    info.light_brightness = before.light_brightness;
    info.light_speed = before.light_speed;
    assert_eq!(info, before);
}

#[test]
fn settings_survive_a_write_and_read() {
    let mut info = FunctionInfo::from_bytes(&sample_info_bytes()).unwrap();
    info.light_mode = LightMode::Off;
    info.polling_rate = PollingRate::Hz500;
    let bytes = info.to_bytes();
    let frames = WsFrame::new(WsCmd::SetFunctionInfo, Some(&bytes));
    let mut ex = Exchange::new(WsCmd::GetFunctionInfo, None);
    for f in &frames {
        let answer = WsFrame { cmd: WsCmd::GetFunctionInfo, offset: f.offset, data: f.data.clone() };
        ex.accept(&answer).unwrap();
    }
    let back = FunctionInfo::from_bytes(&ex.into_response()).unwrap();
    assert_eq!(back, info);
}

#[test]
fn enum_codes() {
    assert_eq!(LightMode::Flow.code(), 1);
    assert_eq!(LightMode::Off.code(), 20);
    assert_eq!(LightMode::from_code(19), Some(LightMode::Custom));
    assert_eq!(LightMode::from_code(0), None);
    assert_eq!(PollingRate::Hz1000.code(), 0);
    assert_eq!(PollingRate::from_code(2), Some(PollingRate::Hz250));
    assert_eq!(PollingRate::from_code(4), None);
}

#[test]
fn request_frames_fit_in_a_report() {
    let data = vec![0xAAu8; 200];
    for f in WsFrame::new(WsCmd::WriteMacro, Some(&data)) {
        assert!(f.to_bytes().unwrap().len() <= 63);
    }
    let full = WsFrame::new(WsCmd::SetKey, None);
    assert_eq!(full[0].to_bytes().unwrap().len(), 63);
    let mut ex = Exchange::new(WsCmd::WriteMacro, Some(&data));
    while let Some(req) = ex.next_request() {
        assert!(req.len() <= 63);
        // the device acknowledges each frame with an empty answer at offset 0
        let answer = WsFrame { cmd: WsCmd::WriteMacro, offset: 0, data: vec![] };
        ex.accept(&answer).unwrap();
    }
}

#[test]
fn no_payload_matches_zero_payload() {
    let a = WsFrame::new(WsCmd::GetFunctionInfo, None);
    let zeros = vec![0u8; WsCmd::GetFunctionInfo.data_len()];
    let b = WsFrame::new(WsCmd::GetFunctionInfo, Some(&zeros));
    assert_eq!(a.len(), b.len());
    for (x, y) in a.iter().zip(b.iter()) {
        assert_eq!(x.cmd, y.cmd);
        assert_eq!(x.offset, y.offset);
        assert_eq!(x.data, y.data);
    }
    assert_eq!(a[1].data.len(), 11);
}
