use vmulti_client::device::{
    interface_list_length, interface_paths, is_our_device, split_interface_list, DeviceError, DeviceIdentity,
    DeviceScan, ProbeOutcome, ScanAction,
};
use vmulti_client::display::{DisplayInfo, DisplayPosition};

fn ours() -> DeviceIdentity {
    DeviceIdentity { vendor_id: 0x00FF, product_id: 0xBACC, version: 0x0001, usage_page: 0xFF00, usage: 0x0001 }
}

fn units(s: &str) -> Vec<u16> {
    s.encode_utf16().collect()
}

#[test]
fn identity_must_match_all_fields() {
    assert!(is_our_device(&ours()));
    assert!(!is_our_device(&DeviceIdentity { vendor_id: 0x00FE, ..ours() }));
    assert!(!is_our_device(&DeviceIdentity { product_id: 0xBACD, ..ours() }));
    assert!(!is_our_device(&DeviceIdentity { version: 0x0002, ..ours() }));
    assert!(!is_our_device(&DeviceIdentity { usage_page: 0xFF01, ..ours() }));
    assert!(!is_our_device(&DeviceIdentity { usage: 0x0002, ..ours() }));
}

#[test]
fn list_size_checks() {
    assert_eq!(interface_list_length(false, 100), Err(DeviceError::FailedToGetDeviceInterfaceListSize));
    assert_eq!(interface_list_length(true, 0), Err(DeviceError::EmptyDeviceInterfaceList));
    assert_eq!(interface_list_length(true, 1), Err(DeviceError::EmptyDeviceInterfaceList));
    assert_eq!(interface_list_length(true, 2), Ok(2));
    assert_eq!(interface_list_length(true, 300), Ok(300));
}

#[test]
fn interface_list_splits_on_nulls() {
    let list = units("\\\\?\\hid#a\0\\\\?\\hid#b\0\0");
    assert_eq!(split_interface_list(&list), vec![units("\\\\?\\hid#a"), units("\\\\?\\hid#b")]);
}

#[test]
fn interface_list_skips_blank_pieces() {
    let list = units("p1\0 \t\0\0p2\0\u{3000}\0");
    assert_eq!(split_interface_list(&list), vec![units("p1"), units("p2")]);
    assert_eq!(split_interface_list(&units("\0")), Vec::<Vec<u16>>::new());
    assert_eq!(split_interface_list(&vec![]), Vec::<Vec<u16>>::new());
    assert_eq!(split_interface_list(&units(" x ")), vec![units(" x ")]);
}

#[test]
fn scan_keeps_first_match() {
    let mut scan = DeviceScan::new();
    assert_eq!(scan.record(ProbeOutcome::OpenFailed), ScanAction::Skip);
    assert_eq!(scan.record(ProbeOutcome::Unidentified), ScanAction::Close);
    assert_eq!(
        scan.record(ProbeOutcome::Identified(DeviceIdentity { usage: 7, ..ours() })),
        ScanAction::Close
    );
    assert_eq!(scan.record(ProbeOutcome::Identified(ours())), ScanAction::Keep);
}

#[test]
fn scan_without_any_open_reports_no_valid_handle() {
    let mut scan = DeviceScan::new();
    assert_eq!(scan.finish(), DeviceError::NoValidHandle);
    scan.record(ProbeOutcome::OpenFailed);
    scan.record(ProbeOutcome::OpenFailed);
    assert_eq!(scan.finish(), DeviceError::NoValidHandle);
}

#[test]
fn scan_with_opens_but_no_match_reports_not_found() {
    let mut scan = DeviceScan::new();
    scan.record(ProbeOutcome::OpenFailed);
    scan.record(ProbeOutcome::Identified(DeviceIdentity { vendor_id: 1, ..ours() }));
    scan.record(ProbeOutcome::OpenFailed);
    assert_eq!(scan.finish(), DeviceError::NotFound);
}

#[test]
fn display_from_monitor_rectangle() {
    let d = DisplayInfo::from_monitor(DisplayPosition { left: 1920, top: 0, right: 3840, bottom: 1080 }, 0).unwrap();
    assert_eq!((d.primary, d.width, d.height), (false, 1920, 1080));
    let p = DisplayInfo::from_monitor(DisplayPosition { left: 0, top: 0, right: 1280, bottom: 720 }, 1).unwrap();
    assert!(p.primary);
    let flipped = DisplayInfo::from_monitor(DisplayPosition { left: 100, top: 50, right: -100, bottom: -50 }, 0).unwrap();
    assert_eq!((flipped.width, flipped.height), (200, 100));
    assert_eq!(flipped.position, DisplayPosition { left: 100, top: 50, right: -100, bottom: -50 });
}

#[test]
fn malformed_monitor_rectangle_is_skipped() {
    assert_eq!(DisplayInfo::from_monitor(DisplayPosition { left: i32::MIN, top: 0, right: i32::MAX, bottom: 10 }, 1), None);
    assert_eq!(DisplayInfo::from_monitor(DisplayPosition { left: 0, top: 0, right: 10, bottom: 70000 }, 1), None);
    assert!(DisplayInfo::from_monitor(DisplayPosition { left: 0, top: 0, right: 65535, bottom: 10 }, 1).is_some());
}

#[test]
fn list_query_failure_and_success() {
    assert_eq!(interface_paths(false, &units("a\0")), Err(DeviceError::FailedToGetDeviceInterfaceList));
    assert_eq!(interface_paths(true, &units("a\0b\0\0")), Ok(vec![units("a"), units("b")]));
}
