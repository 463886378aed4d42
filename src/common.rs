use vstd::prelude::*;
use crate::text::{ascii_lower, ascii_lowered, is_ascii_text};

verus! {

/// A discovered USB device.
#[derive(Clone, Debug, PartialEq, Eq, Hash)]
pub struct UsbDevice {
    /// Platform specific unique ID: a device path or a device instance ID.
    pub id: String,
    /// Vendor ID.
    pub vendor_id: u16,
    /// Product ID.
    pub product_id: u16,
    /// Friendly name.
    pub friendly_name: Option<String>,
    /// Device description.
    pub description: Option<String>,
    /// Serial number.
    pub serial_number: Option<String>,
    /// Base class (bDeviceClass) of the device.
    pub base_class: Option<DeviceBaseClass>,
    /// Manufacturer.
    pub manufacturer: Option<String>,
    /// Class name as the operating system reports it.
    pub class: Option<String>,
}

/// A `UsbDevice` with each string seen as its characters.
pub struct UsbDeviceView {
    pub id: Seq<char>,
    pub vendor_id: u16,
    pub product_id: u16,
    pub friendly_name: Option<Seq<char>>,
    pub description: Option<Seq<char>>,
    pub serial_number: Option<Seq<char>>,
    pub base_class: Option<DeviceBaseClass>,
    pub manufacturer: Option<Seq<char>>,
    pub class: Option<Seq<char>>,
}

/// The characters of an optional string.
pub open spec fn opt_view(s: Option<String>) -> Option<Seq<char>> {
    match s {
        Some(t) => Some(t@),
        None => None,
    }
}

impl View for UsbDevice {
    type V = UsbDeviceView;

    open spec fn view(&self) -> UsbDeviceView {
        UsbDeviceView {
            id: self.id@,
            vendor_id: self.vendor_id,
            product_id: self.product_id,
            friendly_name: opt_view(self.friendly_name),
            description: opt_view(self.description),
            serial_number: opt_view(self.serial_number),
            base_class: self.base_class,
            manufacturer: opt_view(self.manufacturer),
            class: opt_view(self.class),
        }
    }
}

/// `v` passes the filter: there is none, or it names `v`.
pub open spec fn passes(filter: Option<u16>, v: u16) -> bool {
    filter matches Some(f) ==> f == v
}

/// The views of the records in `rs`.
pub open spec fn views(rs: Seq<UsbDevice>) -> Seq<UsbDeviceView> {
    rs.map_values(|r: UsbDevice| r@)
}

/// A copy of an optional text.
pub fn copy_text(t: &Option<String>) -> (r: Option<String>)
    ensures
        r == *t,
{
    match t {
        Some(s) => Some(s.clone()),
        None => None,
    }
}

/// USB-IF base class codes, see <https://www.usb.org/defined-class-codes>.
#[derive(Clone, Copy, Debug, PartialEq, Eq, Hash, Structural)]
pub enum DeviceBaseClass {
    UseClassCodeFromInterfaceDescriptors,
    Audio,
    Communication,
    HumanInterfaceDevice,
    Physical,
    Image,
    Printer,
    MassStorage,
    Hub,
    CDCData,
    SmartCard,
    ContentSecurity,
    Video,
    PersonalHealthCare,
    AudioVideo,
    Billboard,
    UsbTypeCBridge,
    UsbBulkDisplay,
    MctpOverUsb,
    I3C,
    Diagnostic,
    WirelessController,
    Miscellaneous,
    ApplicationSpecific,
    VendorSpecific,
}

/// The byte code that the USB-IF assigns to each base class.
pub open spec fn class_code(c: DeviceBaseClass) -> u8 {
    match c {
        DeviceBaseClass::UseClassCodeFromInterfaceDescriptors => 0x00,
        DeviceBaseClass::Audio => 0x01,
        DeviceBaseClass::Communication => 0x02,
        DeviceBaseClass::HumanInterfaceDevice => 0x03,
        DeviceBaseClass::Physical => 0x05,
        DeviceBaseClass::Image => 0x06,
        DeviceBaseClass::Printer => 0x07,
        DeviceBaseClass::MassStorage => 0x08,
        DeviceBaseClass::Hub => 0x09,
        DeviceBaseClass::CDCData => 0x0A,
        DeviceBaseClass::SmartCard => 0x0B,
        DeviceBaseClass::ContentSecurity => 0x0D,
        DeviceBaseClass::Video => 0x0E,
        DeviceBaseClass::PersonalHealthCare => 0x0F,
        DeviceBaseClass::AudioVideo => 0x10,
        DeviceBaseClass::Billboard => 0x11,
        DeviceBaseClass::UsbTypeCBridge => 0x12,
        DeviceBaseClass::UsbBulkDisplay => 0x13,
        DeviceBaseClass::MctpOverUsb => 0x14,
        DeviceBaseClass::I3C => 0x3C,
        DeviceBaseClass::Diagnostic => 0xDC,
        DeviceBaseClass::WirelessController => 0xE0,
        DeviceBaseClass::Miscellaneous => 0xEF,
        DeviceBaseClass::ApplicationSpecific => 0xFE,
        DeviceBaseClass::VendorSpecific => 0xFF,
    }
}

/// The base class whose code is `b`, if one has it.
pub open spec fn class_of_code(b: u8) -> Option<DeviceBaseClass> {
    if exists|c: DeviceBaseClass| class_code(c) == b {
        Some(choose|c: DeviceBaseClass| class_code(c) == b)
    } else {
        None
    }
}

/// The class whose code is `b`, or the error for a byte that no class has.
pub open spec fn class_result(b: u8) -> Result<DeviceBaseClass, ParseError> {
    match class_of_code(b) {
        Some(c) => Ok(c),
        None => Err(ParseError),
    }
}

/// The base class named by an already lowercased class name of the operating system.
pub open spec fn class_of_lower_name(s: Seq<char>) -> DeviceBaseClass {
    if s == "usb"@ {
        DeviceBaseClass::MassStorage
    } else if s == "bluetooth"@ {
        DeviceBaseClass::Communication
    } else if s == "hidclass"@ {
        DeviceBaseClass::HumanInterfaceDevice
    } else if s == "camera"@ {
        DeviceBaseClass::Video
    } else if s == "biometric"@ {
        DeviceBaseClass::ContentSecurity
    } else if s == "net"@ {
        DeviceBaseClass::WirelessController
    } else {
        DeviceBaseClass::UseClassCodeFromInterfaceDescriptors
    }
}

/// What `str::to_lowercase` returns for the characters `s`.
pub uninterp spec fn lower_of(s: Seq<char>) -> Seq<char>;

/// Relies on `str::to_lowercase`: the lowercase form depends on the characters alone,
/// and maps each ASCII letter to its lowercase letter and other ASCII characters to themselves.
#[verifier::external_body]
fn lowercase(s: &str) -> (r: String)
    ensures
        r@ == lower_of(s@),
        is_ascii_text(s@) ==> ascii_lowered(s@, r@),
{
    s.to_lowercase()
}

/// Two codes never name the same class.
pub proof fn lemma_class_code_injective(a: DeviceBaseClass, b: DeviceBaseClass)
    ensures
        class_code(a) == class_code(b) ==> a == b,
{
}

/// Every base class comes back from its own byte code.
pub proof fn lemma_class_code_round_trip(c: DeviceBaseClass)
    ensures
        class_of_code(class_code(c)) == Some(c),
        class_result(class_code(c)) == Ok::<DeviceBaseClass, ParseError>(c),
{
    let b = class_code(c);
    assert(exists|d: DeviceBaseClass| class_code(d) == b);
    let d = choose|d: DeviceBaseClass| class_code(d) == b;
    lemma_class_code_injective(c, d);
}

/// A byte that no base class has as its code does not convert.
pub proof fn lemma_undefined_code_fails(b: u8)
    requires
        forall|c: DeviceBaseClass| class_code(c) != b,
    ensures
        class_result(b) == Err::<DeviceBaseClass, ParseError>(ParseError),
{
}

/// Class names that differ only in the case of ASCII letters name the same class,
/// whatever their ASCII-lowercased forms are.
pub proof fn lemma_class_name_case_insensitive(a: Seq<char>, b: Seq<char>, la: Seq<char>, lb: Seq<char>)
    requires
        a.len() == b.len(),
        forall|i: int| 0 <= i < a.len() ==> ascii_lower(#[trigger] a[i]) == ascii_lower(b[i]),
        ascii_lowered(a, la),
        ascii_lowered(b, lb),
    ensures
        la == lb,
        class_of_lower_name(la) == class_of_lower_name(lb),
{
    assert(la =~= lb);
}

impl DeviceBaseClass {
    /// The USB-IF byte code of this class.
    pub fn code(&self) -> (r: u8)
        ensures
            r == class_code(*self),
    {
        match self {
            DeviceBaseClass::UseClassCodeFromInterfaceDescriptors => 0x00,
            DeviceBaseClass::Audio => 0x01,
            DeviceBaseClass::Communication => 0x02,
            DeviceBaseClass::HumanInterfaceDevice => 0x03,
            DeviceBaseClass::Physical => 0x05,
            DeviceBaseClass::Image => 0x06,
            DeviceBaseClass::Printer => 0x07,
            DeviceBaseClass::MassStorage => 0x08,
            DeviceBaseClass::Hub => 0x09,
            DeviceBaseClass::CDCData => 0x0A,
            DeviceBaseClass::SmartCard => 0x0B,
            DeviceBaseClass::ContentSecurity => 0x0D,
            DeviceBaseClass::Video => 0x0E,
            DeviceBaseClass::PersonalHealthCare => 0x0F,
            DeviceBaseClass::AudioVideo => 0x10,
            DeviceBaseClass::Billboard => 0x11,
            DeviceBaseClass::UsbTypeCBridge => 0x12,
            DeviceBaseClass::UsbBulkDisplay => 0x13,
            DeviceBaseClass::MctpOverUsb => 0x14,
            DeviceBaseClass::I3C => 0x3C,
            DeviceBaseClass::Diagnostic => 0xDC,
            DeviceBaseClass::WirelessController => 0xE0,
            DeviceBaseClass::Miscellaneous => 0xEF,
            DeviceBaseClass::ApplicationSpecific => 0xFE,
            DeviceBaseClass::VendorSpecific => 0xFF,
        }
    }
}

impl TryFrom<u8> for DeviceBaseClass {
    type Error = ParseError;

    /// The class whose code is `b`; an error for a byte that no class has.
    fn try_from(b: u8) -> (r: Result<DeviceBaseClass, ParseError>)
        ensures
            r == class_result(b),
    {
        let r = match b {
            0x00 => DeviceBaseClass::UseClassCodeFromInterfaceDescriptors,
            0x01 => DeviceBaseClass::Audio,
            0x02 => DeviceBaseClass::Communication,
            0x03 => DeviceBaseClass::HumanInterfaceDevice,
            0x05 => DeviceBaseClass::Physical,
            0x06 => DeviceBaseClass::Image,
            0x07 => DeviceBaseClass::Printer,
            0x08 => DeviceBaseClass::MassStorage,
            0x09 => DeviceBaseClass::Hub,
            0x0A => DeviceBaseClass::CDCData,
            0x0B => DeviceBaseClass::SmartCard,
            0x0D => DeviceBaseClass::ContentSecurity,
            0x0E => DeviceBaseClass::Video,
            0x0F => DeviceBaseClass::PersonalHealthCare,
            0x10 => DeviceBaseClass::AudioVideo,
            0x11 => DeviceBaseClass::Billboard,
            0x12 => DeviceBaseClass::UsbTypeCBridge,
            0x13 => DeviceBaseClass::UsbBulkDisplay,
            0x14 => DeviceBaseClass::MctpOverUsb,
            0x3C => DeviceBaseClass::I3C,
            0xDC => DeviceBaseClass::Diagnostic,
            0xE0 => DeviceBaseClass::WirelessController,
            0xEF => DeviceBaseClass::Miscellaneous,
            0xFE => DeviceBaseClass::ApplicationSpecific,
            0xFF => DeviceBaseClass::VendorSpecific,
            _ => {
                proof {
                    assert forall|c: DeviceBaseClass| class_code(c) != b by {}
                }
                return Err(ParseError);
            },
        };
        proof {
            lemma_class_code_round_trip(r);
        }
        Ok(r)
    }
}

impl vstd::std_specs::convert::TryFromSpecImpl<u8> for DeviceBaseClass {
    open spec fn obeys_try_from_spec() -> bool {
        true
    }

    open spec fn try_from_spec(b: u8) -> Result<DeviceBaseClass, ParseError> {
        class_result(b)
    }
}

/// The base class named by an already lowercased class name of the operating
/// system; a name that is not known maps to `UseClassCodeFromInterfaceDescriptors`.
pub fn class_of_lowercase_name(l: &str) -> (r: DeviceBaseClass)
    ensures
        r == class_of_lower_name(l@),
{
    let l = l.to_owned();
    if l == "usb".to_owned() {
        DeviceBaseClass::MassStorage
    } else if l == "bluetooth".to_owned() {
        DeviceBaseClass::Communication
    } else if l == "hidclass".to_owned() {
        DeviceBaseClass::HumanInterfaceDevice
    } else if l == "camera".to_owned() {
        DeviceBaseClass::Video
    } else if l == "biometric".to_owned() {
        DeviceBaseClass::ContentSecurity
    } else if l == "net".to_owned() {
        DeviceBaseClass::WirelessController
    } else {
        DeviceBaseClass::UseClassCodeFromInterfaceDescriptors
    }
}

impl From<String> for DeviceBaseClass {
    /// Maps a class name of the operating system, in any case, to a base class;
    /// a name that is not known maps to `UseClassCodeFromInterfaceDescriptors`.
    fn from(v: String) -> (r: DeviceBaseClass)
        ensures
            r == class_of_lower_name(lower_of(v@)),
    {
        let l = lowercase(v.as_str());
        class_of_lowercase_name(l.as_str())
    }
}

impl vstd::std_specs::convert::FromSpecImpl<String> for DeviceBaseClass {
    open spec fn obeys_from_spec() -> bool {
        true
    }

    open spec fn from_spec(v: String) -> DeviceBaseClass {
        class_of_lower_name(lower_of(v@))
    }
}

/// An expected field was absent or did not parse.
#[derive(Copy, Clone, Debug, PartialEq, Eq)]
pub struct ParseError;

impl ParseError {
    /// The error's message.
    pub fn message(&self) -> (r: String)
        ensures
            r@ == "Parse Error"@,
    {
        "Parse Error".to_owned()
    }
}

} // verus!
