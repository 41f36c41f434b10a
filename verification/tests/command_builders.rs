use dx_gp21::command::{
    cmd_restart, cmd_save_config, cmd_set_baud, cmd_set_systems, cmd_set_update_rate, BaudRate,
    ConstellationMask, RestartMode, UpdateRate,
};

#[test]
fn save_config_correct() {
    let mut buf = [0u8; 32];
    let n = cmd_save_config(&mut buf);
    assert_eq!(&buf[..n], b"$PCAS00*01\r\n");
}

#[test]
fn set_baud_115200() {
    let mut buf = [0u8; 32];
    let n = cmd_set_baud(&mut buf, BaudRate::B115200);
    assert_eq!(&buf[..n], b"$PCAS01,5*19\r\n");
}

#[test]
fn set_update_1hz() {
    let mut buf = [0u8; 32];
    let n = cmd_set_update_rate(&mut buf, UpdateRate::Hz1);
    assert_eq!(&buf[..n], b"$PCAS02,1000*2E\r\n");
}

#[test]
fn restart_cold() {
    let mut buf = [0u8; 32];
    let n = cmd_restart(&mut buf, RestartMode::Cold);
    assert_eq!(&buf[..n], b"$PCAS10,2*1E\r\n");
}

#[test]
fn set_systems_all() {
    let mut buf = [0u8; 32];
    let n = cmd_set_systems(&mut buf, ConstellationMask::ALL());
    assert_eq!(&buf[..n], b"$PCAS04,7F*58\r\n");
}
