use vmm_demo::serial::{
    Serial, COM1_IRQ, DATA_PORT, IER_PORT, IER_RECEIVE, IER_TRANSMIT, IIR_NONE, IIR_PORT,
    IIR_RECEIVE, IIR_TRANSMIT, LCR_DLAB, LCR_PORT, LSR_IDLE, LSR_IDLE_DATA_READY, LSR_PORT,
    MCR_PORT, MSR_CONNECTED, MSR_PORT, SCR_PORT,
};

#[test]
fn registers_after_reset() {
    let mut serial = Serial::new();
    assert_eq!(serial.handle_read(0x3F8), 0);
    assert_eq!(serial.handle_read(0x3F9), 0);
    assert_eq!(serial.handle_read(0x3FA), 0x01);
    assert_eq!(serial.handle_read(0x3FB), 0);
    assert_eq!(serial.handle_read(0x3FC), 0);
    assert_eq!(serial.handle_read(0x3FD), 0x60);
    assert_eq!(serial.handle_read(0x3FE), 0xB0);
    assert_eq!(serial.handle_read(0x3FF), 0);
    assert_eq!(serial.handle_read(0x400), 0);
    assert_eq!(serial.handle_read(0xFFFF), 0);
    assert_eq!(COM1_IRQ, 4);
}

#[test]
fn registers_keep_their_values() {
    let mut serial = Serial::new();
    for (port, value) in [(LCR_PORT, 0x1B), (MCR_PORT, 0x0B), (SCR_PORT, 0x5A), (IER_PORT, 0x05)] {
        let effect = serial.handle_write(port, value);
        assert_eq!(effect.transmit, None);
        assert!(!effect.irq);
    }
    assert_eq!(serial.handle_read(LCR_PORT), 0x1B);
    assert_eq!(serial.handle_read(MCR_PORT), 0x0B);
    assert_eq!(serial.handle_read(SCR_PORT), 0x5A);
    assert_eq!(serial.handle_read(IER_PORT), 0x05);
}

#[test]
fn divisor_latches_are_behind_dlab() {
    let mut serial = Serial::new();
    serial.handle_write(IER_PORT, IER_RECEIVE);
    serial.handle_write(LCR_PORT, LCR_DLAB | 0x03);
    let low = serial.handle_write(DATA_PORT, 0x0C);
    let high = serial.handle_write(IER_PORT, 0x02);
    assert_eq!((low.transmit, low.irq), (None, false));
    assert_eq!((high.transmit, high.irq), (None, false));
    assert_eq!(serial.handle_read(DATA_PORT), 0x0C);
    assert_eq!(serial.handle_read(IER_PORT), 0x02);
    serial.handle_write(LCR_PORT, 0x03);
    assert_eq!(serial.handle_read(DATA_PORT), 0);
    assert_eq!(serial.handle_read(IER_PORT), IER_RECEIVE);
}

#[test]
fn output_is_sent_in_order() {
    let mut serial = Serial::new();
    let mut line = Vec::new();
    for byte in b"login: " {
        let effect = serial.handle_write(DATA_PORT, *byte);
        assert!(!effect.irq);
        line.extend(effect.transmit);
    }
    assert_eq!(line, b"login: ");
}

#[test]
fn transmit_interrupt_is_reported_once() {
    let mut serial = Serial::new();
    let enable = serial.handle_write(IER_PORT, IER_TRANSMIT);
    assert_eq!((enable.transmit, enable.irq), (None, true));
    assert_eq!(serial.handle_read(IIR_PORT), IIR_TRANSMIT);
    assert_eq!(serial.handle_read(IIR_PORT), IIR_NONE);
    let effect = serial.handle_write(DATA_PORT, b'x');
    assert_eq!((effect.transmit, effect.irq), (Some(b'x'), true));
    assert_eq!(serial.handle_read(IIR_PORT), 0x02);
    assert_eq!(serial.handle_read(IIR_PORT), 0x01);
}

#[test]
fn transmit_stays_pending_while_disabled() {
    let mut serial = Serial::new();
    serial.handle_write(DATA_PORT, b'x');
    assert_eq!(serial.handle_read(IIR_PORT), IIR_NONE);
    serial.handle_write(IER_PORT, IER_TRANSMIT);
    serial.handle_write(IER_PORT, 0);
    assert_eq!(serial.handle_read(IIR_PORT), IIR_NONE);
    serial.handle_write(IER_PORT, IER_TRANSMIT);
    assert_eq!(serial.handle_read(IIR_PORT), IIR_TRANSMIT);
}

#[test]
fn input_is_read_in_order() {
    let mut serial = Serial::new();
    assert!(!serial.receive(b"ls"));
    assert!(!serial.receive(b"\r"));
    assert_eq!(serial.handle_read(LSR_PORT), LSR_IDLE_DATA_READY);
    assert_eq!(serial.handle_read(DATA_PORT), b'l');
    assert_eq!(serial.handle_read(DATA_PORT), b's');
    assert_eq!(serial.handle_read(DATA_PORT), b'\r');
    assert_eq!(serial.handle_read(LSR_PORT), LSR_IDLE);
    assert_eq!(serial.handle_read(DATA_PORT), 0);
}

#[test]
fn receive_interrupt_comes_first() {
    let mut serial = Serial::new();
    serial.handle_write(IER_PORT, IER_RECEIVE | IER_TRANSMIT);
    assert!(!serial.receive(b""));
    assert!(serial.receive(b"q"));
    assert_eq!(serial.handle_read(IIR_PORT), IIR_RECEIVE);
    assert_eq!(serial.handle_read(IIR_PORT), 0x04);
    assert_eq!(serial.handle_read(DATA_PORT), b'q');
    assert_eq!(serial.handle_read(IIR_PORT), IIR_TRANSMIT);
    assert_eq!(serial.handle_read(IIR_PORT), IIR_NONE);
}

#[test]
fn no_input_is_lost() {
    let mut serial = Serial::new();
    serial.receive(b"ab");
    let mut got = vec![serial.handle_read(DATA_PORT)];
    serial.handle_write(LCR_PORT, LCR_DLAB);
    serial.handle_read(DATA_PORT);
    serial.receive(b"cd");
    serial.handle_write(LCR_PORT, 0);
    for _ in 0..3 {
        got.push(serial.handle_read(DATA_PORT));
    }
    assert_eq!(got, b"abcd");
}

#[test]
fn other_writes_are_ignored() {
    let mut serial = Serial::new();
    for port in [IIR_PORT, LSR_PORT, MSR_PORT, 0x400] {
        let effect = serial.handle_write(port, 0xFF);
        assert_eq!((effect.transmit, effect.irq), (None, false));
    }
    assert_eq!(serial.handle_read(IIR_PORT), IIR_NONE);
    assert_eq!(serial.handle_read(LSR_PORT), LSR_IDLE);
    assert_eq!(serial.handle_read(MSR_PORT), MSR_CONNECTED);
}
