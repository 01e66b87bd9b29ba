use vmm_demo::run_loop::{handle_event, Action, VcpuEvent, EINTR, POLL_INTERVAL_USEC};
use vmm_demo::serial::Serial;

#[test]
fn serial_output() {
    let mut serial = Serial::new();
    let event = VcpuEvent::IoOut { port: 0x3F8, data: vec![b'A', b'B'] };
    match handle_event(&mut serial, event) {
        Action::Serial(effect) => {
            assert_eq!(effect.transmit, Some(b'A'));
            assert!(!effect.irq);
        }
        other => panic!("{:?}", other),
    }
}

#[test]
fn serial_output_pulses_the_line_when_asked() {
    let mut serial = Serial::new();
    let enable = VcpuEvent::IoOut { port: 0x3F9, data: vec![0x02] };
    assert!(matches!(handle_event(&mut serial, enable), Action::Serial(e) if e.irq));
    let send = VcpuEvent::IoOut { port: 0x3F8, data: vec![b'A'] };
    assert!(matches!(handle_event(&mut serial, send), Action::Serial(e) if e.irq));
}

#[test]
fn serial_input_fills_the_first_byte() {
    let mut serial = Serial::new();
    serial.receive(b"k");
    let event = VcpuEvent::IoIn { port: 0x3F8, data: vec![1, 2, 3] };
    match handle_event(&mut serial, event) {
        Action::Reply(reply) => assert_eq!(reply, vec![b'k', 2, 3]),
        other => panic!("{:?}", other),
    }
}

#[test]
fn last_serial_port_is_answered() {
    let mut serial = Serial::new();
    let write = VcpuEvent::IoOut { port: 0x3FF, data: vec![0x77] };
    assert!(matches!(handle_event(&mut serial, write), Action::Serial(_)));
    let read = VcpuEvent::IoIn { port: 0x3FF, data: vec![0] };
    assert!(matches!(handle_event(&mut serial, read), Action::Reply(r) if r == [0x77]));
}

#[test]
fn other_ports_read_zero() {
    let mut serial = Serial::new();
    for port in [0x60u16, 0x3F7, 0x400] {
        let event = VcpuEvent::IoIn { port, data: vec![7, 7, 7, 7] };
        assert!(matches!(handle_event(&mut serial, event), Action::Reply(r) if r == [0, 0, 0, 0]));
        let event = VcpuEvent::IoOut { port, data: vec![7] };
        assert!(matches!(handle_event(&mut serial, event), Action::Resume));
    }
    let empty = VcpuEvent::IoIn { port: 0x60, data: vec![] };
    assert!(matches!(handle_event(&mut serial, empty), Action::Reply(r) if r.is_empty()));
}

#[test]
fn shutdown_and_errors_end_the_run() {
    let mut serial = Serial::new();
    assert!(matches!(handle_event(&mut serial, VcpuEvent::Shutdown), Action::PowerOff));
    assert!(matches!(
        handle_event(&mut serial, VcpuEvent::RunError(libc::EFAULT)),
        Action::Fail(errno) if errno == libc::EFAULT
    ));
}

#[test]
fn halts_and_interruptions_do_not() {
    let mut serial = Serial::new();
    assert_eq!(EINTR, libc::EINTR);
    assert_eq!(POLL_INTERVAL_USEC, 10_000);
    for event in [VcpuEvent::Halt, VcpuEvent::Other, VcpuEvent::RunError(libc::EINTR)] {
        assert!(matches!(handle_event(&mut serial, event), Action::Resume));
    }
}
