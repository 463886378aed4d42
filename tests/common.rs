use std::convert::TryFrom;
use usb_enumeration::common::{class_of_lowercase_name, DeviceBaseClass, ParseError};

const ALL: [DeviceBaseClass; 25] = [
    DeviceBaseClass::UseClassCodeFromInterfaceDescriptors,
    DeviceBaseClass::Audio,
    DeviceBaseClass::Communication,
    DeviceBaseClass::HumanInterfaceDevice,
    DeviceBaseClass::Physical,
    DeviceBaseClass::Image,
    DeviceBaseClass::Printer,
    DeviceBaseClass::MassStorage,
    DeviceBaseClass::Hub,
    DeviceBaseClass::CDCData,
    DeviceBaseClass::SmartCard,
    DeviceBaseClass::ContentSecurity,
    DeviceBaseClass::Video,
    DeviceBaseClass::PersonalHealthCare,
    DeviceBaseClass::AudioVideo,
    DeviceBaseClass::Billboard,
    DeviceBaseClass::UsbTypeCBridge,
    DeviceBaseClass::UsbBulkDisplay,
    DeviceBaseClass::MctpOverUsb,
    DeviceBaseClass::I3C,
    DeviceBaseClass::Diagnostic,
    DeviceBaseClass::WirelessController,
    DeviceBaseClass::Miscellaneous,
    DeviceBaseClass::ApplicationSpecific,
    DeviceBaseClass::VendorSpecific,
];

#[test]
fn base_class_round_trips_through_code() {
    for c in ALL.iter() {
        assert_eq!(DeviceBaseClass::try_from(c.code()), Ok(*c));
    }
}

#[test]
fn base_class_codes() {
    assert_eq!(DeviceBaseClass::Hub.code(), 0x09);
    assert_eq!(DeviceBaseClass::I3C.code(), 0x3C);
    assert_eq!(DeviceBaseClass::Diagnostic.code(), 0xDC);
    assert_eq!(DeviceBaseClass::VendorSpecific.code(), 0xFF);
    assert_eq!(DeviceBaseClass::try_from(0x0Eu8), Ok(DeviceBaseClass::Video));
}

#[test]
fn undefined_base_class_codes_fail() {
    let mut defined = 0;
    for b in 0..=255u8 {
        let r = DeviceBaseClass::try_from(b);
        if ALL.iter().any(|c| c.code() == b) {
            defined += 1;
            assert!(r.is_ok());
        } else {
            assert_eq!(r, Err(ParseError));
        }
    }
    assert_eq!(defined, 25);
    assert_eq!(DeviceBaseClass::try_from(0x04u8), Err(ParseError));
    assert_eq!(DeviceBaseClass::try_from(0x15u8), Err(ParseError));
}

#[test]
fn class_name_is_case_insensitive() {
    assert_eq!(DeviceBaseClass::from("USB".to_string()), DeviceBaseClass::MassStorage);
    assert_eq!(DeviceBaseClass::from("usb".to_string()), DeviceBaseClass::MassStorage);
    assert_eq!(DeviceBaseClass::from("Usb".to_string()), DeviceBaseClass::MassStorage);
}

#[test]
fn known_class_names() {
    assert_eq!(DeviceBaseClass::from("Bluetooth".to_string()), DeviceBaseClass::Communication);
    assert_eq!(
        DeviceBaseClass::from("HIDClass".to_string()),
        DeviceBaseClass::HumanInterfaceDevice
    );
    assert_eq!(DeviceBaseClass::from("Camera".to_string()), DeviceBaseClass::Video);
    assert_eq!(DeviceBaseClass::from("Biometric".to_string()), DeviceBaseClass::ContentSecurity);
    assert_eq!(DeviceBaseClass::from("Net".to_string()), DeviceBaseClass::WirelessController);
}

#[test]
fn unknown_class_name_uses_interface_descriptors() {
    assert_eq!(
        DeviceBaseClass::from("unknown-thing".to_string()),
        DeviceBaseClass::UseClassCodeFromInterfaceDescriptors
    );
    assert_eq!(
        DeviceBaseClass::from(String::new()),
        DeviceBaseClass::UseClassCodeFromInterfaceDescriptors
    );
    assert_eq!(
        DeviceBaseClass::from("usb ".to_string()),
        DeviceBaseClass::UseClassCodeFromInterfaceDescriptors
    );
}

#[test]
fn parse_error_message() {
    assert_eq!(ParseError.message(), "Parse Error");
}

#[test]
fn lowercase_name_matching() {
    assert_eq!(class_of_lowercase_name("usb"), DeviceBaseClass::MassStorage);
    assert_eq!(class_of_lowercase_name("hidclass"), DeviceBaseClass::HumanInterfaceDevice);
    assert_eq!(class_of_lowercase_name("net"), DeviceBaseClass::WirelessController);
    assert_eq!(
        class_of_lowercase_name("USB"),
        DeviceBaseClass::UseClassCodeFromInterfaceDescriptors
    );
}
