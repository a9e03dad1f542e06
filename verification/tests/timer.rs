use spacetime_os::timer::pit_reload_bytes;

#[test]
fn reload_bytes_for_one_hundred_hz() {
    assert_eq!(pit_reload_bytes(100), (0x9B, 0x2E));
}

#[test]
fn reload_bytes_keep_the_two_low_bytes() {
    assert_eq!(pit_reload_bytes(1), (0xDC, 0x34));
    assert_eq!(pit_reload_bytes(1193180), (1, 0));
    assert_eq!(pit_reload_bytes(u32::MAX), (0, 0));
}
