use smart_house::device::{SmartSocket, SmartThermometer, State};
use smart_house::house::{ReportError, SmartHouse};
use smart_house::provider::{BorrowingDeviceInfoProvider, OwningDeviceInfoProvider};
use smart_house::room::Room;

#[test]
fn can_add_room() {
    let mut house = SmartHouse::new(String::from("smart house"));
    let room = Room::new(String::from("room"), Vec::new());

    house.add_room(room);

    assert!(house
        .get_rooms()
        .unwrap()
        .iter()
        .any(|r| r.get_name() == "room"));
    assert!(house.get_rooms().is_some());
}

#[test]
fn cannot_add_room_with_same_name() {
    let mut house = SmartHouse::new("smart house".into());
    let room1 = Room::new("room".into(), Vec::new());
    let room2 = Room::new("room".into(), Vec::new());

    house.add_room(room1);
    house.add_room(room2);

    assert_eq!(house.get_rooms().unwrap().len(), 1);
}

#[test]
fn create_report() {
    let socket = SmartSocket::new("socket".into(), State::On);
    let socket2 = SmartSocket::new("socket2".into(), State::Off);
    let thermo = SmartThermometer::new("thermo".into(), "25".into());
    let mut room1 = Room::new("room".into(), Vec::new());
    room1.add_device(socket.name.to_string().clone());
    let mut room2 = Room::new("room2".into(), Vec::new());
    room2.add_device(socket2.name.to_string().clone());
    room2.add_device(thermo.name.to_string().clone());
    let mut house = SmartHouse::new("Smart House".into());
    house.add_room(room1);
    house.add_room(room2);
    let info_provider = OwningDeviceInfoProvider { socket };
    let info_provider2 = BorrowingDeviceInfoProvider {
        socket: &socket2,
        thermo: &thermo,
    };

    let report1 = house.create_report(&info_provider);
    let report2 = house.create_report(&info_provider2);

    assert_eq!(
        report1,
        Ok("Room: room, Device SmartSocket: socket, state is On\n".to_string())
    );
    assert_eq!(report2, Ok("Room: room2, Device SmartSocket: socket2, state is Off\nRoom: room2, Device Thermometer: thermo, temperature is \"25\"\n".to_string()));
}

#[test]
fn create_report_return_rooms_not_found_error() {
    let house = SmartHouse::new("Smart House".into());
    let socket = SmartSocket::new("socket".into(), State::On);
    let info_provider = OwningDeviceInfoProvider { socket };

    let report1 = house.create_report(&info_provider);

    assert_eq!(report1, Err(ReportError::RoomsNotFound));
}

#[test]
fn create_report_return_no_info_provided_error() {
    let mut house = SmartHouse::new("Smart House".into());
    let room1 = Room::new("room".into(), Vec::new());
    let room2 = Room::new("room2".into(), Vec::new());
    house.add_room(room1);
    house.add_room(room2);
    let socket = SmartSocket::new("socket".into(), State::On);
    let info_provider = OwningDeviceInfoProvider { socket };

    let report1 = house.create_report(&info_provider);

    assert_eq!(report1, Err(ReportError::NoInfoProvided))
}
