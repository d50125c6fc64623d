//! Device-info providers: capabilities that resolve a device name to a
//! report line, backed by concrete devices they own or borrow.

use crate::device::Device;
use crate::device::SmartSocket;
use crate::device::SmartThermometer;
use crate::names::str_eq;
use vstd::prelude::*;

verus! {

/// Resolves a room/device-name pair to a report line.
pub trait DeviceInfoProvider {
    /// Whether the provider holds a device of the given name.
    spec fn recognizes(&self, device: Seq<char>) -> bool;

    /// The exact report line produced for a recognized device.
    spec fn info_spec(&self, room: Seq<char>, device: Seq<char>) -> Seq<char>;

    fn get_info(&self, room: &str, device: &str) -> (r: Option<String>)
        ensures
            r is Some <==> self.recognizes(device@),
            r matches Some(s) ==> s@ == self.info_spec(room@, device@),
    ;
}

/// A provider that exclusively owns one socket.
pub struct OwningDeviceInfoProvider {
    pub socket: SmartSocket,
}

impl DeviceInfoProvider for OwningDeviceInfoProvider {
    open spec fn recognizes(&self, device: Seq<char>) -> bool {
        device == self.socket.name@
    }

    open spec fn info_spec(&self, room: Seq<char>, device: Seq<char>) -> Seq<char> {
        "Room: "@ + room + ", Device "@ + self.socket.report_spec()
    }

    fn get_info(&self, room: &str, device: &str) -> Option<String> {
        if str_eq(self.socket.name.as_str(), device) {
            let mut line = String::from_str("Room: ");
            line.append(room);
            line.append(", Device ");
            let report = self.socket.create_report();
            line.append(report.as_str());
            Some(line)
        } else {
            None
        }
    }
}

/// A provider that borrows one socket and one thermometer.
pub struct BorrowingDeviceInfoProvider<'a, 'b> {
    pub socket: &'a SmartSocket,
    pub thermo: &'b SmartThermometer,
}

impl<'a, 'b> DeviceInfoProvider for BorrowingDeviceInfoProvider<'a, 'b> {
    open spec fn recognizes(&self, device: Seq<char>) -> bool {
        device == self.socket.name@ || device == self.thermo.name@
    }

    open spec fn info_spec(&self, room: Seq<char>, device: Seq<char>) -> Seq<char> {
        if device == self.socket.name@ {
            "Room: "@ + room + ", Device "@ + self.socket.report_spec()
        } else {
            "Room: "@ + room + ", Device "@ + self.thermo.report_spec()
        }
    }

    fn get_info(&self, room: &str, device: &str) -> Option<String> {
        if str_eq(self.socket.name.as_str(), device) {
            let mut line = String::from_str("Room: ");
            line.append(room);
            line.append(", Device ");
            let report = self.socket.create_report();
            line.append(report.as_str());
            Some(line)
        } else if str_eq(self.thermo.name.as_str(), device) {
            let mut line = String::from_str("Room: ");
            line.append(room);
            line.append(", Device ");
            let report = self.thermo.create_report();
            line.append(report.as_str());
            Some(line)
        } else {
            None
        }
    }
}

} // verus!
