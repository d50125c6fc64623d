use smart_house::room::Room;

#[test]
fn can_return_room_name() {
    let room = Room::new("room".into(), Vec::new());

    assert_eq!(room.get_name(), "room");
}

#[test]
fn can_add_device() {
    let mut room = Room::new("room".into(), Vec::new());
    let device = "socket".into();
    let device2 = "thermo".into();

    let result = room.add_device(device);
    let result2 = room.add_device(device2);
    assert_eq!(result, Some(true));
    assert_eq!(result2, Some(true));
}

#[test]
fn can_delete_device() {
    let mut room = Room::new("room".into(), Vec::new());
    let device = "socket".to_string();
    let device2 = "thermo".to_string();

    room.add_device(device.clone());
    room.add_device(device2.clone());

    assert_eq!(room.delete_device(&device), Some(true));
    assert_eq!(room.delete_device(&device), Some(false));
    assert_eq!(room.delete_device(&device2), Some(true));
    assert_eq!(room.delete_device(&device2), Some(false));
}

#[test]
fn can_return_devices() {
    let mut room = Room::new("room".into(), Vec::new());
    let device = "socket".into();
    let device2 = "thermo".into();
    room.add_device(device);
    room.add_device(device2);

    assert_eq!(room.devices().is_some(), true);
    assert!(room.devices().unwrap().contains(&"socket".to_string()));
    assert!(room.devices().unwrap().contains(&"thermo".to_string()));
    assert_eq!(room.devices().unwrap().len(), 2);
}
