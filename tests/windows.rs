use usb_enumeration::common::DeviceBaseClass;
use usb_enumeration::windows::{accepted_ids, device_outcome, device_record, enumerate_platform, WindowsDevice};

fn property(s: &str) -> Option<Vec<u8>> {
    let mut out = Vec::new();
    for u in s.encode_utf16() {
        out.push((u & 0xFF) as u8);
        out.push((u >> 8) as u8);
    }
    out.resize(1000, 0);
    Some(out)
}

fn instance(s: &str) -> Option<Vec<u16>> {
    let mut out: Vec<u16> = s.encode_utf16().collect();
    out.resize(1000, 0);
    Some(out)
}

fn setupapi_device(hardware_id: &str, instance_id: &str) -> WindowsDevice {
    WindowsDevice {
        hardware_id: property(hardware_id),
        class: property("HIDClass"),
        manufacturer: property("(Standard system devices)"),
        friendly_name: property("USB Input Device"),
        description: property("USB Input Device"),
        instance_id: instance(instance_id),
    }
}

#[test]
fn windows_vendor_filter_keeps_order() {
    let devices = vec![
        setupapi_device("USB\\VID_05AC&PID_0001", "USB\\VID_05AC&PID_0001\\A1"),
        setupapi_device("USB\\VID_046D&PID_0002", "USB\\VID_046D&PID_0002\\B2"),
        setupapi_device("USB\\VID_05AC&PID_0003", "USB\\VID_05AC&PID_0003\\C3"),
    ];
    let out = enumerate_platform(Some(0x05AC), None, &devices);
    assert_eq!(out.len(), 2);
    assert_eq!(out[0].id, "USB\\VID_05AC&PID_0001\\A1");
    assert_eq!(out[1].id, "USB\\VID_05AC&PID_0003\\C3");
    assert!(out.iter().all(|d| d.vendor_id == 0x05AC));
}

#[test]
fn windows_malformed_hardware_id_is_skipped() {
    let devices = vec![
        setupapi_device("USB\\VID_05AC&PID_0001", "USB\\X\\A1"),
        setupapi_device("USB\\VID_ZZZZ&PID_0002", "USB\\X\\B2"),
        setupapi_device("USB\\VID_046D&PID_0003", "USB\\X\\C3"),
    ];
    let out = enumerate_platform(None, None, &devices);
    assert_eq!(out.len(), 2);
    assert_eq!(out[0].serial_number, Some("A1".to_string()));
    assert_eq!(out[1].serial_number, Some("C3".to_string()));
}

#[test]
fn windows_record_fields() {
    let d = setupapi_device("USB\\VID_046D&PID_C52B&REV_1201", "USB\\VID_046D&PID_C52B\\5&2F3C&0&1");
    let r = device_outcome(None, None, &d).unwrap();
    assert_eq!(r.vendor_id, 0x046D);
    assert_eq!(r.product_id, 0xC52B);
    assert_eq!(r.class, Some("HIDClass".to_string()));
    assert_eq!(r.base_class, Some(DeviceBaseClass::HumanInterfaceDevice));
    assert_eq!(r.manufacturer, Some("(Standard system devices)".to_string()));
    assert_eq!(r.friendly_name, Some("USB Input Device".to_string()));
    assert_eq!(r.description, Some("USB Input Device".to_string()));
    assert_eq!(r.serial_number, Some("5&2F3C&0&1".to_string()));
}

#[test]
fn windows_optional_fields_unset_when_unread() {
    let mut d = setupapi_device("USB\\VID_05AC&PID_0001", "USB\\X\\A1");
    d.class = None;
    d.manufacturer = None;
    d.friendly_name = None;
    let r = device_record(0x05AC, 0x0001, &d).unwrap();
    assert_eq!(r.class, None);
    assert_eq!(r.base_class, None);
    assert_eq!(r.manufacturer, None);
    assert_eq!(r.friendly_name, None);
    assert_eq!(r.serial_number, Some("A1".to_string()));
}

#[test]
fn windows_missing_description_keeps_device() {
    let mut d = setupapi_device("USB\\VID_05AC&PID_0001", "USB\\X\\A1");
    d.description = None;
    let r = device_record(0x05AC, 0x0001, &d).unwrap();
    assert_eq!(r.description, None);
    assert_eq!(r.id, "USB\\X\\A1");
    let out = enumerate_platform(None, None, &vec![d]);
    assert_eq!(out.len(), 1);
    assert_eq!(out[0].vendor_id, 0x05AC);
    assert_eq!(out[0].description, None);
}

#[test]
fn windows_required_reads_missing_skip_device() {
    let mut d = setupapi_device("USB\\VID_05AC&PID_0001", "USB\\X\\A1");
    d.instance_id = None;
    assert_eq!(device_record(0x05AC, 0x0001, &d), None);
    assert_eq!(device_outcome(None, None, &d), None);
    let mut d = setupapi_device("USB\\VID_05AC&PID_0001", "USB\\X\\A1");
    d.hardware_id = None;
    assert_eq!(device_outcome(None, None, &d), None);
}

#[test]
fn windows_accepted_ids_filters() {
    let hw = property("usb\\vid_05ac&pid_12a8").unwrap();
    assert_eq!(accepted_ids(None, None, &hw), Some((0x05AC, 0x12A8)));
    assert_eq!(accepted_ids(Some(0x05AC), Some(0x12A8), &hw), Some((0x05AC, 0x12A8)));
    assert_eq!(accepted_ids(Some(0x05AD), None, &hw), None);
    assert_eq!(accepted_ids(None, Some(0x12A9), &hw), None);
}
