use vstd::prelude::*;
use crate::common::{
    class_of_lower_name, copy_text, lower_of, opt_view, passes, views, DeviceBaseClass, UsbDevice,
    UsbDeviceView,
};
use crate::extract::{
    extract_serial_number, extract_vid_pid, le_units, string_from_buf_u16, string_from_buf_u8,
    text_of_units, upper_of, vid_pid_of,
};
use crate::text::last_segment_of;

verus! {

/// What the SetupAPI reports of one device: the raw buffers of its registry
/// properties and of its instance ID; `None` where a read failed.
pub struct WindowsDevice {
    /// Property `SPDRP_HARDWAREID`.
    pub hardware_id: Option<Vec<u8>>,
    /// Property `SPDRP_CLASS`.
    pub class: Option<Vec<u8>>,
    /// Property `SPDRP_MFG`.
    pub manufacturer: Option<Vec<u8>>,
    /// Property `SPDRP_FRIENDLYNAME`.
    pub friendly_name: Option<Vec<u8>>,
    /// Property `SPDRP_DEVICEDESC`.
    pub description: Option<Vec<u8>>,
    /// The device instance ID.
    pub instance_id: Option<Vec<u16>>,
}

/// The text of a registry property buffer.
pub open spec fn text_of_bytes(b: Seq<u8>) -> Seq<char> {
    text_of_units(le_units(b))
}

/// The text of an optional registry property buffer.
pub open spec fn opt_text(b: Option<Vec<u8>>) -> Option<Seq<char>> {
    match b {
        Some(v) => Some(text_of_bytes(v@)),
        None => None,
    }
}

/// The vendor and product IDs of a hardware ID buffer, where both can be read
/// and pass their filters.
pub open spec fn ids_outcome(vid: Option<u16>, pid: Option<u16>, hardware_id: Seq<u8>) -> Option<
    (u16, u16),
> {
    match vid_pid_of(upper_of(text_of_bytes(hardware_id))) {
        Ok((v, p)) => if passes(vid, v) && passes(pid, p) {
            Some((v, p))
        } else {
            None
        },
        Err(_) => None,
    }
}

/// The record of a device whose IDs are known, or `None` where its instance ID,
/// which gives the record its `id`, could not be read.
pub open spec fn record_outcome(vendor_id: u16, product_id: u16, d: WindowsDevice) -> Option<
    UsbDeviceView,
> {
    match d.instance_id {
        Some(inst) => Some(
            UsbDeviceView {
                id: text_of_units(inst@),
                vendor_id,
                product_id,
                friendly_name: opt_text(d.friendly_name),
                description: opt_text(d.description),
                serial_number: Some(last_segment_of(text_of_units(inst@))),
                base_class: match d.class {
                    Some(c) => Some(class_of_lower_name(lower_of(text_of_bytes(c@)))),
                    None => None,
                },
                manufacturer: opt_text(d.manufacturer),
                class: opt_text(d.class),
            },
        ),
        None => None,
    }
}

/// The record of a device, or `None` where it is left out.
pub open spec fn windows_outcome(vid: Option<u16>, pid: Option<u16>, d: WindowsDevice) -> Option<
    UsbDeviceView,
> {
    match d.hardware_id {
        Some(hw) => match ids_outcome(vid, pid, hw@) {
            Some((v, p)) => record_outcome(v, p, d),
            None => None,
        },
        None => None,
    }
}

/// The records of the devices that are kept, in the order of the devices.
pub open spec fn windows_results(vid: Option<u16>, pid: Option<u16>, ds: Seq<WindowsDevice>) -> Seq<
    UsbDeviceView,
>
    decreases ds.len(),
{
    if ds.len() == 0 {
        Seq::empty()
    } else {
        let rest = windows_results(vid, pid, ds.drop_last());
        match windows_outcome(vid, pid, ds.last()) {
            Some(r) => rest.push(r),
            None => rest,
        }
    }
}

/// Every record that enumeration returns passes both filters.
pub proof fn lemma_windows_results_pass_filters(vid: Option<u16>, pid: Option<u16>, ds: Seq<WindowsDevice>)
    ensures
        forall|k: int|
            0 <= k < windows_results(vid, pid, ds).len() ==> passes(vid, #[trigger] windows_results(vid, pid, ds)[k].vendor_id)
                && passes(pid, windows_results(vid, pid, ds)[k].product_id),
    decreases ds.len(),
{
    if ds.len() > 0 {
        lemma_windows_results_pass_filters(vid, pid, ds.drop_last());
    }
}

/// Enumeration returns at most one record for each device.
pub proof fn lemma_windows_results_len(vid: Option<u16>, pid: Option<u16>, ds: Seq<WindowsDevice>)
    ensures
        windows_results(vid, pid, ds).len() <= ds.len(),
    decreases ds.len(),
{
    if ds.len() > 0 {
        lemma_windows_results_len(vid, pid, ds.drop_last());
    }
}

/// A copy of a byte buffer.
fn copy_bytes(b: &Vec<u8>) -> (r: Vec<u8>)
    ensures
        r@ == b@,
{
    let mut r: Vec<u8> = Vec::new();
    let mut i: usize = 0;
    while i < b.len()
        invariant
            i <= b@.len(),
            r@ == b@.subrange(0, i as int),
        decreases b@.len() - i,
    {
        r.push(b[i]);
        i = i + 1;
    }
    assert(r@ =~= b@);
    r
}

/// A copy of a buffer of code units.
fn copy_units(b: &Vec<u16>) -> (r: Vec<u16>)
    ensures
        r@ == b@,
{
    let mut r: Vec<u16> = Vec::new();
    let mut i: usize = 0;
    while i < b.len()
        invariant
            i <= b@.len(),
            r@ == b@.subrange(0, i as int),
        decreases b@.len() - i,
    {
        r.push(b[i]);
        i = i + 1;
    }
    assert(r@ =~= b@);
    r
}

/// The text of an optional registry property buffer.
fn read_text(b: &Option<Vec<u8>>) -> (r: Option<String>)
    ensures
        opt_view(r) == opt_text(*b),
{
    match b {
        Some(v) => Some(string_from_buf_u8(copy_bytes(v))),
        None => None,
    }
}

/// The vendor and product IDs in a hardware ID buffer, where both can be read
/// and pass their filters.
pub fn accepted_ids(vid: Option<u16>, pid: Option<u16>, hardware_id: &Vec<u8>) -> (r: Option<
    (u16, u16),
>)
    ensures
        r == ids_outcome(vid, pid, hardware_id@),
{
    // A device whose hardware ID does not parse is left out, not reported.
    let (vendor_id, product_id) = match extract_vid_pid(copy_bytes(hardware_id)) {
        Ok(ids) => ids,
        Err(_) => return None,
    };
    if let Some(f) = vid {
        if f != vendor_id {
            return None;
        }
    }
    if let Some(f) = pid {
        if f != product_id {
            return None;
        }
    }
    Some((vendor_id, product_id))
}

/// The record of a device whose IDs have passed the filters; its hardware ID
/// buffer is not read again. Only a missing instance ID leaves the device out.
pub fn device_record(vendor_id: u16, product_id: u16, d: &WindowsDevice) -> (r: Option<
    UsbDevice,
>)
    ensures
        match r {
            Some(u) => record_outcome(vendor_id, product_id, *d) == Some(u@),
            None => record_outcome(vendor_id, product_id, *d) is None,
        },
{
    let instance_id = match &d.instance_id {
        Some(b) => b,
        None => return None,
    };
    // Each descriptive field is best effort: one that could not be read stays unset.
    let class = read_text(&d.class);
    let base_class = match &class {
        Some(c) => Some(DeviceBaseClass::from(c.clone())),
        None => None,
    };
    let id = string_from_buf_u16(copy_units(instance_id));
    let serial_number = extract_serial_number(copy_units(instance_id));
    Some(
        UsbDevice {
            id,
            vendor_id,
            product_id,
            friendly_name: read_text(&d.friendly_name),
            description: read_text(&d.description),
            serial_number,
            base_class,
            manufacturer: read_text(&d.manufacturer),
            class: copy_text(&class),
        },
    )
}

/// The record of one device that the SetupAPI reports, or `None` where it is left out.
pub fn device_outcome(vid: Option<u16>, pid: Option<u16>, d: &WindowsDevice) -> (r: Option<
    UsbDevice,
>)
    ensures
        match r {
            Some(u) => windows_outcome(vid, pid, *d) == Some(u@),
            None => windows_outcome(vid, pid, *d) is None,
        },
{
    match &d.hardware_id {
        Some(hw) => match accepted_ids(vid, pid, hw) {
            Some((v, p)) => device_record(v, p, d),
            None => None,
        },
        None => None,
    }
}

/// The records of the devices that the SetupAPI reports, in its order, each
/// device kept or left out as `device_outcome` decides.
pub fn enumerate_platform(vid: Option<u16>, pid: Option<u16>, devices: &Vec<WindowsDevice>) -> (r:
    Vec<UsbDevice>)
    ensures
        views(r@) == windows_results(vid, pid, devices@),
{
    let mut out: Vec<UsbDevice> = Vec::new();
    let mut i: usize = 0;
    while i < devices.len()
        invariant
            i <= devices@.len(),
            views(out@) == windows_results(vid, pid, devices@.subrange(0, i as int)),
        decreases devices@.len() - i,
    {
        assert(devices@.subrange(0, i + 1).drop_last() == devices@.subrange(0, i as int));
        match device_outcome(vid, pid, &devices[i]) {
            Some(u) => {
                let ghost prev = out@;
                out.push(u);
                assert(views(out@) =~= views(prev).push(u@));
            },
            None => {},
        }
        i = i + 1;
    }
    assert(devices@.subrange(0, devices@.len() as int) == devices@);
    out
}

} // verus!
