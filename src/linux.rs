use vstd::prelude::*;
use crate::common::{
    class_of_code, copy_text, opt_view, passes, views, DeviceBaseClass, UsbDevice, UsbDeviceView,
};
use crate::extract::{get_pid_or_vid, id_value};
use crate::text::{dec_u8, parse_u8};

verus! {

/// What udev reports of one device, as text; `None` where a value is missing
/// or is not valid UTF-8.
pub struct LinuxDevice {
    /// Property `DEVPATH`.
    pub devpath: Option<String>,
    /// Property `ID_VENDOR_ID`.
    pub vendor_id: Option<String>,
    /// Property `ID_MODEL_ID`.
    pub model_id: Option<String>,
    /// Property `ID_MODEL_FROM_DATABASE`.
    pub model_from_database: Option<String>,
    /// Property `ID_MODEL`.
    pub model: Option<String>,
    /// Property `ID_SERIAL_SHORT`.
    pub serial_short: Option<String>,
    /// Property `ID_VENDOR_FROM_DATABASE`.
    pub vendor_from_database: Option<String>,
    /// Property `ID_PCI_CLASS_FROM_DATABASE`.
    pub pci_class_from_database: Option<String>,
    /// Attribute `bDeviceClass`.
    pub device_class: Option<String>,
}

/// The identifier that an optional property writes.
pub open spec fn parsed_id(raw: Option<String>) -> Option<u16> {
    match raw {
        Some(t) => match id_value(t@) {
            Ok(v) => Some(v),
            Err(_) => None,
        },
        None => None,
    }
}

/// The identifier that an optional property writes, where it passes the filter.
pub open spec fn accepted(filter: Option<u16>, raw: Option<String>) -> Option<u16> {
    match parsed_id(raw) {
        Some(v) => if passes(filter, v) {
            Some(v)
        } else {
            None
        },
        None => None,
    }
}

/// The base class whose code an optional attribute writes in decimal.
pub open spec fn base_class_of(raw: Option<String>) -> Option<DeviceBaseClass> {
    match raw {
        Some(t) => match dec_u8(t@) {
            Some(b) => class_of_code(b),
            None => None,
        },
        None => None,
    }
}

/// The record of a device, or `None` where the device is left out: its vendor ID,
/// product ID or path is missing or malformed, or an ID does not pass its filter.
pub open spec fn linux_outcome(vid: Option<u16>, pid: Option<u16>, d: LinuxDevice) -> Option<
    UsbDeviceView,
> {
    match (parsed_id(d.vendor_id), parsed_id(d.model_id), d.devpath) {
        (Some(v), Some(p), Some(path)) => if passes(vid, v) && passes(pid, p) {
            Some(
                UsbDeviceView {
                    id: path@,
                    vendor_id: v,
                    product_id: p,
                    friendly_name: opt_view(d.model_from_database),
                    description: if d.model_from_database is Some {
                        opt_view(d.model_from_database)
                    } else {
                        opt_view(d.model)
                    },
                    serial_number: opt_view(d.serial_short),
                    base_class: base_class_of(d.device_class),
                    manufacturer: opt_view(d.vendor_from_database),
                    class: opt_view(d.pci_class_from_database),
                },
            )
        } else {
            None
        },
        _ => None,
    }
}

/// The records of the devices that are kept, in the order of the devices.
pub open spec fn linux_results(vid: Option<u16>, pid: Option<u16>, ds: Seq<LinuxDevice>) -> Seq<
    UsbDeviceView,
>
    decreases ds.len(),
{
    if ds.len() == 0 {
        Seq::empty()
    } else {
        let rest = linux_results(vid, pid, ds.drop_last());
        match linux_outcome(vid, pid, ds.last()) {
            Some(r) => rest.push(r),
            None => rest,
        }
    }
}

/// Every record that enumeration returns passes both filters.
pub proof fn lemma_linux_results_pass_filters(vid: Option<u16>, pid: Option<u16>, ds: Seq<LinuxDevice>)
    ensures
        forall|k: int|
            0 <= k < linux_results(vid, pid, ds).len() ==> passes(vid, #[trigger] linux_results(vid, pid, ds)[k].vendor_id)
                && passes(pid, linux_results(vid, pid, ds)[k].product_id),
    decreases ds.len(),
{
    if ds.len() > 0 {
        lemma_linux_results_pass_filters(vid, pid, ds.drop_last());
    }
}

/// Enumeration returns at most one record for each device.
pub proof fn lemma_linux_results_len(vid: Option<u16>, pid: Option<u16>, ds: Seq<LinuxDevice>)
    ensures
        linux_results(vid, pid, ds).len() <= ds.len(),
    decreases ds.len(),
{
    if ds.len() > 0 {
        lemma_linux_results_len(vid, pid, ds.drop_last());
    }
}

/// An identifier property, parsed; `None` where it is missing or malformed.
fn read_id(raw: &Option<String>) -> (r: Option<u16>)
    ensures
        r == parsed_id(*raw),
{
    match raw {
        Some(t) => match get_pid_or_vid(t.as_str()) {
            Ok(v) => Some(v),
            Err(_) => None,
        },
        None => None,
    }
}

/// An identifier property, parsed, where it passes the filter; `None` where it is
/// missing, malformed or filtered out, and the device is then left out.
pub fn accepted_id(filter: Option<u16>, raw: &Option<String>) -> (r: Option<u16>)
    ensures
        r == accepted(filter, *raw),
{
    let v = match read_id(raw) {
        Some(v) => v,
        None => return None,
    };
    if let Some(f) = filter {
        if f != v {
            return None;
        }
    }
    Some(v)
}

/// The base class whose code the attribute writes; `None` where it is missing,
/// malformed, or no class has that code.
pub fn read_base_class(raw: &Option<String>) -> (r: Option<DeviceBaseClass>)
    ensures
        r == base_class_of(*raw),
{
    match raw {
        Some(t) => match parse_u8(t.as_str()) {
            Some(b) => match DeviceBaseClass::try_from(b) {
                Ok(c) => Some(c),
                Err(_) => None,
            },
            None => None,
        },
        None => None,
    }
}

/// The record of one device that udev reports, or `None` where it is left out.
/// The product ID is read only once the vendor ID has passed its filter.
pub fn device_record(vid: Option<u16>, pid: Option<u16>, d: &LinuxDevice) -> (r: Option<UsbDevice>)
    ensures
        match r {
            Some(u) => linux_outcome(vid, pid, *d) == Some(u@),
            None => linux_outcome(vid, pid, *d) is None,
        },
{
    // A device whose IDs are missing or malformed is left out, not reported.
    let vendor_id = match accepted_id(vid, &d.vendor_id) {
        Some(v) => v,
        None => return None,
    };
    let product_id = match accepted_id(pid, &d.model_id) {
        Some(p) => p,
        None => return None,
    };
    let id = match &d.devpath {
        Some(p) => p.clone(),
        None => return None,
    };
    // Each descriptive field is best effort: one that is missing stays unset.
    let description = if d.model_from_database.is_some() {
        copy_text(&d.model_from_database)
    } else {
        copy_text(&d.model)
    };
    Some(
        UsbDevice {
            id,
            vendor_id,
            product_id,
            friendly_name: copy_text(&d.model_from_database),
            description,
            serial_number: copy_text(&d.serial_short),
            base_class: read_base_class(&d.device_class),
            manufacturer: copy_text(&d.vendor_from_database),
            class: copy_text(&d.pci_class_from_database),
        },
    )
}

/// The records of the devices that udev reports, in its order, each device
/// kept or left out as `device_record` decides.
pub fn enumerate_platform(vid: Option<u16>, pid: Option<u16>, devices: &Vec<LinuxDevice>) -> (r:
    Vec<UsbDevice>)
    ensures
        views(r@) == linux_results(vid, pid, devices@),
{
    let mut out: Vec<UsbDevice> = Vec::new();
    let mut i: usize = 0;
    while i < devices.len()
        invariant
            i <= devices@.len(),
            views(out@) == linux_results(vid, pid, devices@.subrange(0, i as int)),
        decreases devices@.len() - i,
    {
        let ghost before = devices@.subrange(0, i as int);
        assert(devices@.subrange(0, i + 1).drop_last() == before);
        match device_record(vid, pid, &devices[i]) {
            Some(u) => {
                let ghost prev = out@;
                out.push(u);
                assert(views(out@) =~= views(prev).push(u@));
            },
            None => {},
        }
        i = i + 1;
    }
    assert(devices@.subrange(0, devices@.len() as int) == devices@);
    out
}

} // verus!
