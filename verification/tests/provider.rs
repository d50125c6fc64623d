use smart_house::device::{SmartSocket, SmartThermometer, State};
use smart_house::provider::{
    BorrowingDeviceInfoProvider, DeviceInfoProvider, OwningDeviceInfoProvider,
};

#[test]
fn create_report_for_owning_device() {
    let socket = SmartSocket::new("socket".into(), State::On);
    let info_provider = OwningDeviceInfoProvider { socket };

    let report = info_provider.get_info("room", "socket");
    assert_eq!(
        report,
        Some("Room: room, Device SmartSocket: socket, state is On".to_string())
    );
}

#[test]
fn create_report_for_borrowing_device() {
    let socket = SmartSocket::new("socket".into(), State::On);
    let thermo = SmartThermometer::new("thermo".into(), "25".into());
    let info_provider = BorrowingDeviceInfoProvider {
        socket: &socket,
        thermo: &thermo,
    };

    let socket_info = info_provider.get_info("room", "socket");
    let thermo_info = info_provider.get_info("room", "thermo");

    assert_eq!(
        socket_info,
        Some("Room: room, Device SmartSocket: socket, state is On".to_string())
    );
    assert_eq!(
        thermo_info,
        Some("Room: room, Device Thermometer: thermo, temperature is \"25\"".to_string())
    );
}
