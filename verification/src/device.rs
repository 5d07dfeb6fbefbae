//! Device list refresh.
use vstd::prelude::*;

use crate::adb::{AdbClient, Device};
use crate::text;

verus! {

/// The devices in the output of `adb devices -l`.
pub fn scan_devices(adb: &AdbClient, devices_output: &str) -> (r: Vec<Device>)
    ensures
        crate::adb::device_views(r@) == crate::adb::spec_devices(text::spec_lines(devices_output@)),
{
    adb.list_devices(devices_output)
}

} // verus!
