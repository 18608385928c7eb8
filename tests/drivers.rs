use serial_bridge::drivers::{receive_callback, status_result, CanBus, ModbusSlave};

#[test]
fn status_zero_is_success() {
    assert_eq!(status_result(0), Ok(()));
    assert_eq!(status_result(-5), Err(-5));
}

#[test]
fn can_bus_init_and_send_status() {
    assert_eq!(CanBus::from_init_status(-19).err(), Some(-19));
    let can = CanBus::from_init_status(0).ok().unwrap();
    assert_eq!(can.send_result(0), Ok(()));
    assert_eq!(can.send_result(-11), Err(-11));
}

#[test]
fn modbus_init_and_register_status() {
    assert_eq!(ModbusSlave::from_init_status(3).err(), Some(3));
    let mb = ModbusSlave::from_init_status(0).ok().unwrap();
    assert_eq!(mb.register_result(0), Ok(()));
    assert_eq!(mb.register_result(-22), Err(-22));
}

#[test]
fn receive_callback_text_and_raw() {
    assert_eq!(receive_callback(b"BUTTON PRESS:1"), Some("BUTTON PRESS:1"));
    assert_eq!(receive_callback(&[0xff, 0xfe, 0x41]), None);
    assert_eq!(receive_callback(&[]), Some(""));
}
