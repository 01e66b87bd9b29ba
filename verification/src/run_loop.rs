//! What to do each time the virtual processor stops.
use vstd::prelude::*;

use crate::serial::{
    is_com1, law_line_status, law_reading_the_first_ports, law_receiving_bytes, law_sending_a_byte,
    Serial, SerialState, WriteEffect, COM1_BASE, COM1_LAST,
};

verus! {

/// Error number of an interrupted system call.
pub const EINTR: i32 = 4;

/// Microseconds between two interruptions of the processor, at which input is looked for.
pub const POLL_INTERVAL_USEC: i64 = 10_000;

/// Reads `libc::EINTR`, which is this number on Linux on x86.
#[verifier::external_body]
fn libc_eintr() -> (errno: i32)
    ensures
        errno == EINTR,
{
    libc::EINTR
}

/// Why the virtual processor stopped.
#[derive(Debug)]
pub enum VcpuEvent {
    /// The guest wrote `data` to `port`.
    IoOut { port: u16, data: Vec<u8> },
    /// The guest reads `port`; `data` is what stands in its buffer.
    IoIn { port: u16, data: Vec<u8> },
    /// The guest halted.
    Halt,
    /// The guest shut down.
    Shutdown,
    /// The guest stopped for a reason that needs no answer.
    Other,
    /// Running the guest failed with this error number.
    RunError(i32),
}

/// What to do before the virtual processor runs again, if it does.
#[derive(Debug)]
pub enum Action {
    /// Nothing.
    Resume,
    /// Send the byte and pulse the interrupt line, as asked.
    Serial(WriteEffect),
    /// Put these bytes into the buffer of the guest.
    Reply(Vec<u8>),
    /// End with success.
    PowerOff,
    /// End with this error number.
    Fail(i32),
}

impl VcpuEvent {
    /// Whether an access to the serial port carries a byte.
    pub open spec fn carries_data(&self) -> bool {
        match self {
            VcpuEvent::IoOut { port, data } => is_com1(*port) ==> data@.len() > 0,
            VcpuEvent::IoIn { port, data } => is_com1(*port) ==> data@.len() > 0,
            _ => true,
        }
    }

    /// The serial port after the event.
    pub open spec fn after(&self, serial: SerialState) -> SerialState {
        match self {
            VcpuEvent::IoOut { port, data } => if is_com1(*port) {
                serial.after_write(*port, data@[0])
            } else {
                serial
            },
            VcpuEvent::IoIn { port, .. } => if is_com1(*port) {
                serial.after_read(*port)
            } else {
                serial
            },
            _ => serial,
        }
    }

    /// Whether `action` is what the event calls for. The serial port answers for its own
    /// ports, one byte at a time; elsewhere writes are dropped, and reads give zeros. A
    /// shutdown ends the run, and so does an error, unless it is an interruption.
    pub open spec fn calls_for(&self, serial: SerialState, action: Action) -> bool {
        match self {
            VcpuEvent::IoOut { port, data } => if is_com1(*port) {
                action == Action::Serial(serial.write_effect(*port, data@[0]))
            } else {
                action is Resume
            },
            VcpuEvent::IoIn { port, data } => action matches Action::Reply(reply) && reply@
                == if is_com1(*port) {
                data@.update(0, serial.read_value(*port))
            } else {
                Seq::new(data@.len(), |i: int| 0u8)
            },
            VcpuEvent::Halt => action is Resume,
            VcpuEvent::Shutdown => action is PowerOff,
            VcpuEvent::Other => action is Resume,
            VcpuEvent::RunError(errno) => if *errno == EINTR {
                action is Resume
            } else {
                action == Action::Fail(*errno)
            },
        }
    }
}

/// Whether an action ends the run.
pub open spec fn is_last(action: Action) -> bool {
    action is PowerOff || action is Fail
}

/// `len` zeros.
fn zeros(len: usize) -> (bytes: Vec<u8>)
    ensures
        bytes@ == Seq::new(len as nat, |i: int| 0u8),
{
    let mut bytes: Vec<u8> = Vec::new();
    let mut i: usize = 0;
    while i < len
        invariant
            i <= len,
            bytes@ == Seq::new(i as nat, |k: int| 0u8),
        decreases len - i,
    {
        bytes.push(0);
        i = i + 1;
        assert(bytes@ =~= Seq::new(i as nat, |k: int| 0u8));
    }
    bytes
}

/// Takes one event of the virtual processor, and says what to do about it.
pub fn handle_event(serial: &mut Serial, event: VcpuEvent) -> (action: Action)
    requires
        event.carries_data(),
    ensures
        event.calls_for(old(serial)@, action),
        final(serial)@ == event.after(old(serial)@),
{
    match event {
        VcpuEvent::IoOut { port, data } => {
            if COM1_BASE <= port && port <= COM1_LAST {
                Action::Serial(serial.handle_write(port, data[0]))
            } else {
                Action::Resume
            }
        },
        VcpuEvent::IoIn { port, data } => {
            if COM1_BASE <= port && port <= COM1_LAST {
                let mut reply = data;
                let value: u8 = serial.handle_read(port);
                reply[0] = value;
                Action::Reply(reply)
            } else {
                Action::Reply(zeros(data.len()))
            }
        },
        VcpuEvent::Halt => Action::Resume,
        VcpuEvent::Shutdown => Action::PowerOff,
        VcpuEvent::Other => Action::Resume,
        VcpuEvent::RunError(errno) => {
            if errno == libc_eintr() {
                Action::Resume
            } else {
                Action::Fail(errno)
            }
        },
    }
}

/// The run ends on a shutdown, and on an error other than an interruption, and on nothing
/// else.
pub proof fn law_what_ends_the_run(event: VcpuEvent, serial: SerialState, action: Action)
    requires
        event.calls_for(serial, action),
    ensures
        is_last(action) <==> event is Shutdown || (event matches VcpuEvent::RunError(errno) && errno
            != EINTR),
{
}

/// Ports of other devices do not reach the serial port.
pub proof fn law_other_ports_are_apart(event: VcpuEvent, serial: SerialState)
    requires
        event matches VcpuEvent::IoOut { port, .. } ==> !is_com1(port),
        event matches VcpuEvent::IoIn { port, .. } ==> !is_com1(port),
    ensures
        event.after(serial) == serial,
{
}

/// A read of a port from 0x3F8 to 0x3FF is answered by the serial port: the first byte of
/// the reply is what the serial port gives for that port in its state before the event, the
/// other bytes are those of the buffer, and the serial port is as after that read.
pub proof fn law_serial_reads_are_answered(event: VcpuEvent, serial: SerialState, action: Action)
    requires
        event.calls_for(serial, action),
    ensures
        event matches VcpuEvent::IoIn { port, data } ==> 0x3F8 <= port <= 0x3FF && data@.len() > 0
            ==> {
            &&& action matches Action::Reply(reply)
            &&& reply@.len() == data@.len()
            &&& reply@[0] == serial.read_value(port)
            &&& forall|k: int| 1 <= k < data@.len() ==> #[trigger] reply@[k] == data@[k]
            &&& event.after(serial) == serial.after_read(port)
        },
{
}

/// A guest that polls the line status always finds the transmitter idle, and finds data
/// ready if and only if a byte waits.
pub proof fn law_polled_line_status(event: VcpuEvent, serial: SerialState, action: Action)
    requires
        event.calls_for(serial, action),
        event matches VcpuEvent::IoIn { port, data } && port == 0x3FD && data@.len() > 0,
    ensures
        action matches Action::Reply(reply) && {
            &&& reply@[0] & 0x60 == 0x60
            &&& reply@[0] & 0x01 != 0 <==> serial.input.len() > 0
        },
{
    law_serial_reads_are_answered(event, serial, action);
    law_line_status(serial);
}

/// What was typed reaches a guest that reads the data port, with the divisor latches off:
/// the oldest byte that waits is the first byte of the reply, and it no longer waits.
pub proof fn law_typed_bytes_reach_the_guest(
    event: VcpuEvent,
    serial: SerialState,
    action: Action,
    typed: Seq<u8>,
)
    requires
        serial.lcr & 0x80 == 0,
        typed.len() > 0,
        event.calls_for(serial.after_receive(typed), action),
        event matches VcpuEvent::IoIn { port, data } && port == 0x3F8 && data@.len() > 0,
    ensures
        action matches Action::Reply(reply) && seq![reply@[0]] + event.after(
            serial.after_receive(typed),
        ).input == serial.input + typed,
{
    law_receiving_bytes(serial, typed);
    law_serial_reads_are_answered(event, serial.after_receive(typed), action);
    law_reading_the_first_ports(serial.after_receive(typed));
}

/// A write to a port from 0x3F8 to 0x3FF hands its first byte to the serial port, does what
/// the serial port asks for, and leaves the serial port as after that write.
pub proof fn law_serial_writes_are_taken(event: VcpuEvent, serial: SerialState, action: Action)
    requires
        event.calls_for(serial, action),
    ensures
        event matches VcpuEvent::IoOut { port, data } ==> 0x3F8 <= port <= 0x3FF && data@.len() > 0
            ==> {
            &&& action matches Action::Serial(effect)
            &&& effect.transmit == serial.write_effect(port, data@[0]).transmit
            &&& effect.irq == serial.write_effect(port, data@[0]).irq
            &&& event.after(serial) == serial.after_write(port, data@[0])
        },
{
}

/// What the guest writes to the data port, with the divisor latches off, is sent, and the
/// interrupt is pulsed if and only if bit 1 of the interrupt enable register is set.
pub proof fn law_console_output(event: VcpuEvent, serial: SerialState, action: Action)
    requires
        serial.lcr & 0x80 == 0,
        event.calls_for(serial, action),
        event matches VcpuEvent::IoOut { port, data } && port == 0x3F8 && data@.len() > 0,
    ensures
        event matches VcpuEvent::IoOut { port, data } && (action matches Action::Serial(effect) && {
            &&& effect.transmit == Some(data@[0])
            &&& effect.irq <==> serial.ier & 0x02 != 0
        }),
{
    law_serial_writes_are_taken(event, serial, action);
    law_sending_a_byte(serial, event->IoOut_data@[0]);
}

/// A read of any other port gives as many zeros as the buffer has bytes, whatever they
/// were, and a write to one needs nothing; neither touches the serial port.
pub proof fn law_other_ports(event: VcpuEvent, serial: SerialState, action: Action)
    requires
        event.calls_for(serial, action),
    ensures
        event matches VcpuEvent::IoIn { port, data } ==> port < 0x3F8 || port > 0x3FF ==> {
            &&& action matches Action::Reply(reply)
            &&& reply@.len() == data@.len()
            &&& forall|k: int| 0 <= k < reply@.len() ==> #[trigger] reply@[k] == 0
            &&& event.after(serial) == serial
        },
        event matches VcpuEvent::IoOut { port, data } ==> port < 0x3F8 || port > 0x3FF ==> {
            &&& action is Resume
            &&& event.after(serial) == serial
        },
{
}

/// A halt, an interruption and any stop that needs no answer let the guest run on; a
/// shutdown ends the run with success, and any other error with its own number. None of
/// them touches the serial port.
pub proof fn law_other_events(event: VcpuEvent, serial: SerialState, action: Action)
    requires
        event.calls_for(serial, action),
    ensures
        event is Halt || event is Other ==> action is Resume,
        event is Shutdown ==> action is PowerOff,
        event matches VcpuEvent::RunError(errno) ==> {
            &&& errno == 4 ==> action is Resume
            &&& errno != 4 ==> (action matches Action::Fail(number) && number == errno)
        },
        !(event is IoIn) && !(event is IoOut) ==> event.after(serial) == serial,
{
}

/// Any event can be taken but a serial port access without a byte.
pub proof fn law_what_can_be_taken(event: VcpuEvent)
    ensures
        event matches VcpuEvent::IoIn { port, data } ==> (event.carries_data() <==> data@.len() > 0
            || port < 0x3F8 || port > 0x3FF),
        event matches VcpuEvent::IoOut { port, data } ==> (event.carries_data() <==> data@.len() > 0
            || port < 0x3F8 || port > 0x3FF),
        !(event is IoIn) && !(event is IoOut) ==> event.carries_data(),
{
}

} // verus!
