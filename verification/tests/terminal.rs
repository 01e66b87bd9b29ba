use vmm_demo::terminal::{
    bytes_available, nonblocking, TerminalAttributes, ECHO, ICANON, ICRNL, ISIG, O_NONBLOCK, VMIN,
    VTIME,
};

#[test]
fn constants_are_those_of_the_system() {
    assert_eq!(ICANON, libc::ICANON);
    assert_eq!(ECHO, libc::ECHO);
    assert_eq!(ISIG, libc::ISIG);
    assert_eq!(ICRNL, libc::ICRNL);
    assert_eq!(VMIN, libc::VMIN);
    assert_eq!(VTIME, libc::VTIME);
    assert_eq!(O_NONBLOCK, libc::O_NONBLOCK);
    assert_eq!(libc::NCCS, 32);
}

#[test]
fn raw_mode_changes_what_it_should() {
    let cooked = TerminalAttributes { c_iflag: 0xFFFF_FFFF, c_lflag: 0xFFFF_FFFF, c_cc: [9; 32] };
    let raw = cooked.raw_mode();
    assert_eq!(raw.c_iflag, 0xFFFF_FEFF);
    assert_eq!(raw.c_lflag, 0xFFFF_FFF5);
    for place in 0..32 {
        let expected = if place == libc::VMIN || place == libc::VTIME { 0 } else { 9 };
        assert_eq!(raw.c_cc[place], expected);
    }
}

#[test]
fn raw_mode_keeps_signal_keys() {
    let cooked = TerminalAttributes { c_iflag: 0x500, c_lflag: 0x8A3B, c_cc: [1; 32] };
    let raw = cooked.raw_mode();
    assert_eq!(raw.c_lflag & libc::ISIG, libc::ISIG);
    assert_eq!(raw.c_lflag, 0x8A31);
    assert_eq!(raw.c_iflag, 0x400);
}

#[test]
fn raw_mode_twice_is_raw_mode_once() {
    let cooked = TerminalAttributes { c_iflag: 0x1500, c_lflag: 0x8A3B, c_cc: [3; 32] };
    let raw = cooked.raw_mode();
    assert_eq!(raw.raw_mode(), raw);
}

#[test]
fn nonblocking_sets_one_flag() {
    assert_eq!(nonblocking(0), libc::O_NONBLOCK);
    assert_eq!(nonblocking(0x8002), 0x8802);
    assert_eq!(nonblocking(0x8802), 0x8802);
}

#[test]
fn failed_reads_deliver_nothing() {
    assert_eq!(bytes_available(-1), 0);
    assert_eq!(bytes_available(0), 0);
    assert_eq!(bytes_available(17), 17);
}
