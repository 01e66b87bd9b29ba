//! A minimal 16550 UART on COM1, ports 0x3F8 to 0x3FF.
use std::collections::VecDeque;
use vstd::prelude::*;

verus! {

/// First port of COM1.
pub const COM1_BASE: u16 = 0x3F8;

/// Last port of COM1.
pub const COM1_LAST: u16 = 0x3FF;

/// Interrupt line of COM1.
pub const COM1_IRQ: u32 = 4;

/// Data port: received bytes on a read, bytes to send on a write, or the low divisor
/// latch.
pub const DATA_PORT: u16 = 0x3F8;

/// Interrupt enable port, or the high divisor latch.
pub const IER_PORT: u16 = 0x3F9;

/// Interrupt identification port.
pub const IIR_PORT: u16 = 0x3FA;

/// Line control port.
pub const LCR_PORT: u16 = 0x3FB;

/// Modem control port.
pub const MCR_PORT: u16 = 0x3FC;

/// Line status port.
pub const LSR_PORT: u16 = 0x3FD;

/// Modem status port.
pub const MSR_PORT: u16 = 0x3FE;

/// Scratch port.
pub const SCR_PORT: u16 = 0x3FF;

/// Line control register bit that puts the divisor latches on the first two ports.
pub const LCR_DLAB: u8 = 0x80;

/// Interrupt enable register bit for received data.
pub const IER_RECEIVE: u8 = 0x01;

/// Interrupt enable register bit for an empty transmitter.
pub const IER_TRANSMIT: u8 = 0x02;

/// Interrupt identification: no interrupt is pending.
pub const IIR_NONE: u8 = 0x01;

/// Interrupt identification: the transmitter is empty.
pub const IIR_TRANSMIT: u8 = 0x02;

/// Interrupt identification: received data is available.
pub const IIR_RECEIVE: u8 = 0x04;

/// Line status with an idle transmitter and no received data.
pub const LSR_IDLE: u8 = 0x60;

/// Line status with an idle transmitter and received data waiting.
pub const LSR_IDLE_DATA_READY: u8 = 0x61;

/// Modem status: clear to send, data set ready and carrier detected.
pub const MSR_CONNECTED: u8 = 0xB0;

/// Whether `port` belongs to COM1.
pub open spec fn is_com1(port: u16) -> bool {
    COM1_BASE <= port <= COM1_LAST
}

/// Whether a line control value has its highest bit set, the divisor latch access bit.
pub open spec fn opens_latches(lcr: u8) -> bool {
    lcr >= 0x80
}

/// Whether an interrupt enable value has its lowest bit set, for received data.
pub open spec fn enables_receive(ier: u8) -> bool {
    ier % 2 == 1
}

/// Whether an interrupt enable value has its second bit set, for an empty transmitter.
pub open spec fn enables_transmit(ier: u8) -> bool {
    (ier / 2) % 2 == 1
}

/// The bits that the masks pick.
proof fn lemma_masks(value: u8)
    ensures
        value & LCR_DLAB != 0 <==> opens_latches(value),
        value & IER_RECEIVE != 0 <==> enables_receive(value),
        value & IER_TRANSMIT != 0 <==> enables_transmit(value),
{
    assert(value & 0x80 != 0 <==> value >= 0x80) by (bit_vector);
    assert(value & 0x01 != 0 <==> value % 2 == 1) by (bit_vector);
    assert(value & 0x02 != 0 <==> (value / 2) % 2 == 1) by (bit_vector);
}

/// What the UART holds: the bytes that wait for the guest, oldest first, and the
/// registers.
#[verifier::ext_equal]
pub struct SerialState {
    pub input: Seq<u8>,
    pub ier: u8,
    pub lcr: u8,
    pub mcr: u8,
    pub scr: u8,
    pub dll: u8,
    pub dlm: u8,
    pub thre_pending: bool,
}

impl SerialState {
    /// The state after reset.
    pub open spec fn reset() -> SerialState {
        SerialState {
            input: Seq::empty(),
            ier: 0,
            lcr: 0,
            mcr: 0,
            scr: 0,
            dll: 0,
            dlm: 0,
            thre_pending: false,
        }
    }

    /// Whether the first two ports reach the divisor latches.
    pub open spec fn dlab(self) -> bool {
        opens_latches(self.lcr)
    }

    /// Whether the guest asked to be interrupted on received data.
    pub open spec fn receive_enabled(self) -> bool {
        enables_receive(self.ier)
    }

    /// Whether the guest asked to be interrupted when the transmitter is empty.
    pub open spec fn transmit_enabled(self) -> bool {
        enables_transmit(self.ier)
    }

    /// Whether received data is to be reported.
    pub open spec fn receive_pending(self) -> bool {
        self.input.len() > 0 && self.receive_enabled()
    }

    /// Whether an empty transmitter is to be reported.
    pub open spec fn transmit_pending(self) -> bool {
        self.thre_pending && self.transmit_enabled()
    }

    /// The interrupt that the identification register reports: received data first,
    /// then the empty transmitter.
    pub open spec fn pending_interrupt(self) -> u8 {
        if self.receive_pending() {
            IIR_RECEIVE
        } else if self.transmit_pending() {
            IIR_TRANSMIT
        } else {
            IIR_NONE
        }
    }

    /// The byte that a read of `port` gives.
    pub open spec fn read_value(self, port: u16) -> u8 {
        match port {
            DATA_PORT => if self.dlab() {
                self.dll
            } else if self.input.len() > 0 {
                self.input[0]
            } else {
                0
            },
            IER_PORT => if self.dlab() {
                self.dlm
            } else {
                self.ier
            },
            IIR_PORT => self.pending_interrupt(),
            LCR_PORT => self.lcr,
            MCR_PORT => self.mcr,
            LSR_PORT => if self.input.len() > 0 {
                LSR_IDLE_DATA_READY
            } else {
                LSR_IDLE
            },
            MSR_PORT => MSR_CONNECTED,
            SCR_PORT => self.scr,
            _ => 0,
        }
    }

    /// The state after a read of `port`: reading the data port takes the oldest byte,
    /// and a reported empty transmitter is reported once.
    pub open spec fn after_read(self, port: u16) -> SerialState {
        if port == DATA_PORT && !self.dlab() && self.input.len() > 0 {
            SerialState { input: self.input.drop_first(), ..self }
        } else if port == IIR_PORT && self.pending_interrupt() == IIR_TRANSMIT {
            SerialState { thre_pending: false, ..self }
        } else {
            self
        }
    }

    /// Whether a write to `port` sends a byte down the line.
    pub open spec fn is_transmit(self, port: u16) -> bool {
        port == DATA_PORT && !self.dlab()
    }

    /// The state after `value` is written to `port`.
    pub open spec fn after_write(self, port: u16, value: u8) -> SerialState {
        match port {
            DATA_PORT => if self.dlab() {
                SerialState { dll: value, ..self }
            } else {
                SerialState { thre_pending: true, ..self }
            },
            IER_PORT => if self.dlab() {
                SerialState { dlm: value, ..self }
            } else {
                SerialState {
                    ier: value,
                    thre_pending: self.thre_pending || enables_transmit(value),
                    ..self
                }
            },
            LCR_PORT => SerialState { lcr: value, ..self },
            MCR_PORT => SerialState { mcr: value, ..self },
            SCR_PORT => SerialState { scr: value, ..self },
            _ => self,
        }
    }

    /// What a write of `value` to `port` asks of the outside world: the byte to put on
    /// the line, and whether the interrupt line is to be pulsed.
    pub open spec fn write_effect(self, port: u16, value: u8) -> WriteEffect {
        WriteEffect {
            transmit: if self.is_transmit(port) {
                Some(value)
            } else {
                None
            },
            irq: {
                ||| self.is_transmit(port) && self.transmit_enabled()
                ||| port == IER_PORT && !self.dlab() && enables_transmit(value)
            },
        }
    }

    /// The state after `bytes` came in on the line.
    pub open spec fn after_receive(self, bytes: Seq<u8>) -> SerialState {
        SerialState { input: self.input + bytes, ..self }
    }

    /// Whether the interrupt line is to be pulsed because `bytes` came in.
    pub open spec fn receive_irq(self, bytes: Seq<u8>) -> bool {
        bytes.len() > 0 && self.receive_enabled()
    }
}

/// What a register write asks of the outside world.
#[derive(Clone, Copy, Debug, PartialEq, Eq, Structural)]
pub struct WriteEffect {
    /// The byte that the guest sends, if it sends one.
    pub transmit: Option<u8>,
    /// Whether the interrupt line of COM1 is to be pulsed.
    pub irq: bool,
}

/// The UART as the guest sees it.
pub struct Serial {
    input: VecDeque<u8>,
    ier: u8,
    lcr: u8,
    mcr: u8,
    scr: u8,
    dll: u8,
    dlm: u8,
    thre_pending: bool,
}

impl View for Serial {
    type V = SerialState;

    closed spec fn view(&self) -> SerialState {
        SerialState {
            input: self.input@,
            ier: self.ier,
            lcr: self.lcr,
            mcr: self.mcr,
            scr: self.scr,
            dll: self.dll,
            dlm: self.dlm,
            thre_pending: self.thre_pending,
        }
    }
}

impl Serial {
    /// A UART after reset.
    pub fn new() -> (serial: Self)
        ensures
            serial@ == SerialState::reset(),
    {
        Serial {
            input: VecDeque::new(),
            ier: 0,
            lcr: 0,
            mcr: 0,
            scr: 0,
            dll: 0,
            dlm: 0,
            thre_pending: false,
        }
    }

    /// Answers a one-byte read of `port`.
    pub fn handle_read(&mut self, port: u16) -> (value: u8)
        requires
            port >= COM1_BASE,
        ensures
            value == old(self)@.read_value(port),
            final(self)@ == old(self)@.after_read(port),
    {
        proof {
            lemma_masks(self.lcr);
            lemma_masks(self.ier);
        }
        let dlab = self.lcr & LCR_DLAB != 0;
        if port == DATA_PORT {
            if dlab {
                self.dll
            } else {
                match self.input.pop_front() {
                    Some(byte) => byte,
                    None => 0,
                }
            }
        } else if port == IER_PORT {
            if dlab {
                self.dlm
            } else {
                self.ier
            }
        } else if port == IIR_PORT {
            if self.input.len() > 0 && self.ier & IER_RECEIVE != 0 {
                IIR_RECEIVE
            } else if self.thre_pending && self.ier & IER_TRANSMIT != 0 {
                self.thre_pending = false;
                IIR_TRANSMIT
            } else {
                IIR_NONE
            }
        } else if port == LCR_PORT {
            self.lcr
        } else if port == MCR_PORT {
            self.mcr
        } else if port == LSR_PORT {
            if self.input.len() > 0 {
                LSR_IDLE_DATA_READY
            } else {
                LSR_IDLE
            }
        } else if port == MSR_PORT {
            MSR_CONNECTED
        } else if port == SCR_PORT {
            self.scr
        } else {
            0
        }
    }

    /// Takes a one-byte write to `port`. Transmission is instant: the byte to send is
    /// handed back, and the transmitter is empty again at once.
    pub fn handle_write(&mut self, port: u16, value: u8) -> (effect: WriteEffect)
        requires
            port >= COM1_BASE,
        ensures
            effect == old(self)@.write_effect(port, value),
            final(self)@ == old(self)@.after_write(port, value),
    {
        proof {
            lemma_masks(self.lcr);
            lemma_masks(self.ier);
            lemma_masks(value);
        }
        let dlab = self.lcr & LCR_DLAB != 0;
        let mut effect = WriteEffect { transmit: None, irq: false };
        if port == DATA_PORT {
            if dlab {
                self.dll = value;
            } else {
                self.thre_pending = true;
                effect = WriteEffect {
                    transmit: Some(value),
                    irq: self.ier & IER_TRANSMIT != 0,
                };
            }
        } else if port == IER_PORT {
            if dlab {
                self.dlm = value;
            } else {
                self.ier = value;
                if value & IER_TRANSMIT != 0 {
                    self.thre_pending = true;
                    effect = WriteEffect { transmit: None, irq: true };
                }
            }
        } else if port == LCR_PORT {
            self.lcr = value;
        } else if port == MCR_PORT {
            self.mcr = value;
        } else if port == SCR_PORT {
            self.scr = value;
        }
        effect
    }

    /// Queues `bytes` for the guest. Returns whether the interrupt line of COM1 is to be
    /// pulsed.
    pub fn receive(&mut self, bytes: &[u8]) -> (irq: bool)
        ensures
            irq == old(self)@.receive_irq(bytes@),
            irq <==> bytes@.len() > 0 && old(self)@.ier & 0x01 != 0,
            final(self)@ == old(self)@.after_receive(bytes@),
    {
        let mut i: usize = 0;
        while i < bytes.len()
            invariant
                i <= bytes@.len(),
                self@ == old(self)@.after_receive(bytes@.take(i as int)),
            decreases bytes@.len() - i,
        {
            self.input.push_back(bytes[i]);
            i = i + 1;
            assert(self@.input =~= old(self)@.input + bytes@.take(i as int));
        }
        assert(bytes@.take(i as int) =~= bytes@);
        proof {
            lemma_masks(self.ier);
        }
        bytes.len() > 0 && self.ier & IER_RECEIVE != 0
    }
}

impl SerialState {
    /// The state after `n` reads of `port`.
    pub open spec fn after_reads(self, port: u16, n: nat) -> SerialState
        decreases n,
    {
        if n == 0 {
            self
        } else {
            self.after_reads(port, (n - 1) as nat).after_read(port)
        }
    }

    /// The state after `values` are written to `port`, one after the other.
    pub open spec fn after_writes(self, port: u16, values: Seq<u8>) -> SerialState
        decreases values.len(),
    {
        if values.len() == 0 {
            self
        } else {
            self.after_writes(port, values.drop_last()).after_write(port, values.last())
        }
    }

    /// The bytes that go down the line while `values` are written to `port`, one after the
    /// other.
    pub open spec fn line_output(self, port: u16, values: Seq<u8>) -> Seq<u8>
        decreases values.len(),
    {
        if values.len() == 0 {
            Seq::empty()
        } else {
            let sent = self.line_output(port, values.drop_last());
            match self.after_writes(port, values.drop_last()).write_effect(
                port,
                values.last(),
            ).transmit {
                Some(byte) => sent.push(byte),
                None => sent,
            }
        }
    }
}

/// Reads of the data port take the bytes that wait, oldest first, and nothing else.
pub proof fn law_input_is_taken_in_order(state: SerialState, n: nat)
    requires
        state.lcr & 0x80 == 0,
        n <= state.input.len(),
    ensures
        state.after_reads(DATA_PORT, n) == (SerialState {
            input: state.input.skip(n as int),
            ..state
        }),
        n < state.input.len() ==> state.after_reads(DATA_PORT, n).read_value(DATA_PORT)
            == state.input[n as int],
    decreases n,
{
    lemma_masks(state.lcr);
    if n == 0 {
        assert(state.input.skip(0) =~= state.input);
    } else {
        law_input_is_taken_in_order(state, (n - 1) as nat);
        assert(state.input.skip(n - 1).drop_first() =~= state.input.skip(n as int));
    }
}

/// A byte that came in on the line is what the guest reads once it has read all that came
/// before it.
pub proof fn law_received_bytes_are_read(state: SerialState, bytes: Seq<u8>, k: nat)
    requires
        state.lcr & 0x80 == 0,
        k < bytes.len(),
    ensures
        state.after_receive(bytes).after_reads(DATA_PORT, state.input.len() + k).read_value(
            DATA_PORT,
        ) == bytes[k as int],
{
    law_input_is_taken_in_order(state.after_receive(bytes), state.input.len() + k);
}

/// With nothing left to read, the data port reads 0 and nothing changes.
pub proof fn law_empty_input_reads_zero(state: SerialState)
    requires
        state.lcr & 0x80 == 0,
        state.input.len() == 0,
    ensures
        state.read_value(DATA_PORT) == 0,
        state.after_read(DATA_PORT) == state,
{
    lemma_masks(state.lcr);
}

/// What the guest writes to the data port goes down the line, byte for byte, in order.
pub proof fn law_output_is_sent_in_order(state: SerialState, values: Seq<u8>)
    requires
        state.lcr & 0x80 == 0,
    ensures
        state.line_output(DATA_PORT, values) == values,
        state.after_writes(DATA_PORT, values).lcr == state.lcr,
    decreases values.len(),
{
    lemma_masks(state.lcr);
    if values.len() == 0 {
        assert(values =~= Seq::<u8>::empty());
    } else {
        law_output_is_sent_in_order(state, values.drop_last());
        assert(values.drop_last().push(values.last()) =~= values);
    }
}

/// Nothing goes down the line from any other port, nor while the divisor latches are on
/// the data port.
pub proof fn law_only_the_data_port_sends(state: SerialState, port: u16, value: u8)
    requires
        port != DATA_PORT || state.lcr & 0x80 != 0,
    ensures
        state.write_effect(port, value).transmit is None,
{
    lemma_masks(state.lcr);
}

/// A register reads as it was last written: line control, modem control and scratch
/// always, interrupt enable while the divisor latches are off, and the latches while they
/// are on.
pub proof fn law_registers_keep_their_values(state: SerialState, port: u16, value: u8)
    requires
        ({
            ||| port == LCR_PORT
            ||| port == MCR_PORT
            ||| port == SCR_PORT
            ||| port == IER_PORT
            ||| port == DATA_PORT && state.lcr & 0x80 != 0
        }),
    ensures
        state.after_write(port, value).read_value(port) == value,
{
    lemma_masks(state.lcr);
}

/// The divisor latches and the registers behind them are kept apart: writing the one
/// leaves the other as it is.
pub proof fn law_divisor_latches_are_apart(state: SerialState, port: u16, value: u8)
    requires
        port == DATA_PORT || port == IER_PORT,
    ensures
        state.lcr & 0x80 != 0 ==> {
            &&& state.after_write(port, value).ier == state.ier
            &&& state.after_write(port, value).thre_pending == state.thre_pending
            &&& !state.write_effect(port, value).irq
        },
        state.lcr & 0x80 == 0 ==> {
            &&& state.after_write(port, value).dll == state.dll
            &&& state.after_write(port, value).dlm == state.dlm
        },
{
    lemma_masks(state.lcr);
}

/// Reads change no register, and writes no waiting byte.
pub proof fn law_reads_and_writes_are_apart(state: SerialState, port: u16, value: u8)
    ensures
        state.after_write(port, value).input == state.input,
        state.after_read(port) == (SerialState {
            input: state.after_read(port).input,
            thre_pending: state.after_read(port).thre_pending,
            ..state
        }),
        port != DATA_PORT && port != IIR_PORT ==> state.after_read(port) == state,
{
}

/// When the interrupt line is pulsed after a write, the guest finds an interrupt
/// identified.
pub proof fn law_write_interrupt_is_identified(state: SerialState, port: u16, value: u8)
    requires
        state.write_effect(port, value).irq,
    ensures
        state.after_write(port, value).read_value(IIR_PORT) != IIR_NONE,
        state.after_write(port, value).transmit_pending(),
{
}

/// When the interrupt line is pulsed for received data, the guest finds received data
/// identified, whatever else is pending, and the line status tells of it.
pub proof fn law_receive_interrupt_is_identified(state: SerialState, bytes: Seq<u8>)
    requires
        bytes.len() > 0,
        state.ier & 0x01 != 0,
    ensures
        state.after_receive(bytes).read_value(IIR_PORT) == IIR_RECEIVE,
        state.after_receive(bytes).read_value(LSR_PORT) == LSR_IDLE_DATA_READY,
{
    lemma_masks(state.ier);
}

/// An empty transmitter is reported once; received data is reported until it is read.
pub proof fn law_reports(state: SerialState)
    ensures
        state.read_value(IIR_PORT) == IIR_TRANSMIT ==> state.after_read(IIR_PORT).read_value(
            IIR_PORT,
        ) == IIR_NONE,
        state.read_value(IIR_PORT) != IIR_TRANSMIT ==> state.after_read(IIR_PORT) == state,
{
}

/// The line status always shows an idle transmitter, and shows data if and only if some
/// waits.
pub proof fn law_line_status(state: SerialState)
    ensures
        state.read_value(LSR_PORT) & 0x60 == 0x60,
        state.read_value(LSR_PORT) & 0x01 != 0 <==> state.input.len() > 0,
{
    assert(0x60u8 & 0x60 == 0x60 && 0x61u8 & 0x60 == 0x60) by (bit_vector);
    assert(0x60u8 & 0x01 == 0 && 0x61u8 & 0x01 != 0) by (bit_vector);
}

/// One thing that happens to the serial port.
pub enum SerialOp {
    /// The guest reads a port.
    Read(u16),
    /// The guest writes a port.
    Write(u16, u8),
    /// Bytes come in on the line.
    Receive(Seq<u8>),
}

impl SerialState {
    /// The state after `op`.
    pub open spec fn after_op(self, op: SerialOp) -> SerialState {
        match op {
            SerialOp::Read(port) => self.after_read(port),
            SerialOp::Write(port, value) => self.after_write(port, value),
            SerialOp::Receive(bytes) => self.after_receive(bytes),
        }
    }

    /// The state after `ops`, one after the other.
    pub open spec fn after_ops(self, ops: Seq<SerialOp>) -> SerialState
        decreases ops.len(),
    {
        if ops.len() == 0 {
            self
        } else {
            self.after_ops(ops.drop_last()).after_op(ops.last())
        }
    }

    /// The received bytes that the guest gets while `ops` happen.
    pub open spec fn delivered(self, ops: Seq<SerialOp>) -> Seq<u8>
        decreases ops.len(),
    {
        if ops.len() == 0 {
            Seq::empty()
        } else {
            let before = self.after_ops(ops.drop_last());
            let delivered = self.delivered(ops.drop_last());
            if ops.last() == SerialOp::Read(DATA_PORT) && !before.dlab() && before.input.len() > 0 {
                delivered.push(before.read_value(DATA_PORT))
            } else {
                delivered
            }
        }
    }
}

/// The bytes that come in on the line while `ops` happen.
pub open spec fn arrived(ops: Seq<SerialOp>) -> Seq<u8>
    decreases ops.len(),
{
    if ops.len() == 0 {
        Seq::empty()
    } else {
        match ops.last() {
            SerialOp::Receive(bytes) => arrived(ops.drop_last()) + bytes,
            _ => arrived(ops.drop_last()),
        }
    }
}

/// Whatever the guest does in between, it gets every byte that came in, once and in order,
/// or the byte still waits.
pub proof fn law_no_input_is_lost(state: SerialState, ops: Seq<SerialOp>)
    ensures
        state.delivered(ops) + state.after_ops(ops).input == state.input + arrived(ops),
    decreases ops.len(),
{
    if ops.len() == 0 {
        assert(state.delivered(ops) + state.input =~= state.input + arrived(ops));
    } else {
        let before = state.after_ops(ops.drop_last());
        law_no_input_is_lost(state, ops.drop_last());
        assert(state.delivered(ops) + state.after_ops(ops).input =~= state.input + arrived(ops)) by {
            match ops.last() {
                SerialOp::Read(port) => {
                    if port == DATA_PORT && !before.dlab() && before.input.len() > 0 {
                        assert(seq![before.input[0]] + before.input.drop_first() =~= before.input);
                        assert(state.delivered(ops.drop_last()).push(before.input[0])
                            + before.input.drop_first() =~= state.delivered(ops.drop_last())
                            + before.input);
                    }
                },
                SerialOp::Write(port, value) => {},
                SerialOp::Receive(bytes) => {
                    assert(state.delivered(ops.drop_last()) + (before.input + bytes) =~= (
                    state.delivered(ops.drop_last()) + before.input) + bytes);
                    assert(state.input + (arrived(ops.drop_last()) + bytes) =~= (state.input
                        + arrived(ops.drop_last())) + bytes);
                },
            }
        }
    }
}

/// With the divisor latches off, what is written to the data port is sent, and the
/// interrupt is asked for if and only if bit 1 of the interrupt enable register is set,
/// whatever its other bits are. The transmitter then counts as empty, and nothing else
/// changes.
pub proof fn law_sending_a_byte(state: SerialState, value: u8)
    requires
        state.lcr & 0x80 == 0,
    ensures
        state.write_effect(0x3F8, value).transmit == Some(value),
        state.write_effect(0x3F8, value).irq <==> state.ier & 0x02 != 0,
        state.after_write(0x3F8, value).thre_pending,
        state.after_write(0x3F8, value) == (SerialState { thre_pending: true, ..state }),
{
    lemma_masks(state.lcr);
    lemma_masks(state.ier);
}

/// With the divisor latches off, what is written to the interrupt enable port is kept
/// whole, and the interrupt is asked for if and only if its bit 1 is set, whatever the
/// other bits are and whatever the register held before. A transmitter that counted as
/// empty still does.
pub proof fn law_enabling_interrupts(state: SerialState, value: u8)
    requires
        state.lcr & 0x80 == 0,
    ensures
        state.write_effect(0x3F9, value).transmit is None,
        state.write_effect(0x3F9, value).irq <==> value & 0x02 != 0,
        state.after_write(0x3F9, value).ier == value,
        state.after_write(0x3F9, value).thre_pending <==> state.thre_pending || value & 0x02 != 0,
        state.after_write(0x3F9, value) == (SerialState {
            ier: value,
            thre_pending: state.after_write(0x3F9, value).thre_pending,
            ..state
        }),
{
    lemma_masks(state.lcr);
    lemma_masks(value);
}

/// With the divisor latches on, the first two ports write and read the latches and do
/// nothing else: nothing is sent, no interrupt is asked for and no waiting byte is taken.
pub proof fn law_latch_access(state: SerialState, value: u8)
    requires
        state.lcr & 0x80 != 0,
    ensures
        state.after_write(0x3F8, value) == (SerialState { dll: value, ..state }),
        state.after_write(0x3F9, value) == (SerialState { dlm: value, ..state }),
        state.write_effect(0x3F8, value) == (WriteEffect { transmit: None, irq: false }),
        state.write_effect(0x3F9, value) == (WriteEffect { transmit: None, irq: false }),
        state.read_value(0x3F8) == state.dll,
        state.read_value(0x3F9) == state.dlm,
        state.after_read(0x3F8) == state,
        state.after_read(0x3F9) == state,
{
    lemma_masks(state.lcr);
}

/// A write to any port but the first two asks for nothing. Line control, modem control and
/// scratch take the whole value, and the other ports ignore it.
pub proof fn law_writing_other_ports(state: SerialState, port: u16, value: u8)
    requires
        port != 0x3F8 && port != 0x3F9,
    ensures
        state.write_effect(port, value) == (WriteEffect { transmit: None, irq: false }),
        state.after_write(port, value) == (SerialState {
            lcr: if port == 0x3FB {
                value
            } else {
                state.lcr
            },
            mcr: if port == 0x3FC {
                value
            } else {
                state.mcr
            },
            scr: if port == 0x3FF {
                value
            } else {
                state.scr
            },
            ..state
        }),
{
}

/// With the divisor latches off, a read of the data port gives the oldest byte that waits
/// and takes it, and gives 0 where none waits; a read of the interrupt enable port gives
/// the register.
pub proof fn law_reading_the_first_ports(state: SerialState)
    requires
        state.lcr & 0x80 == 0,
    ensures
        state.input.len() > 0 ==> {
            &&& state.read_value(0x3F8) == state.input[0]
            &&& seq![state.read_value(0x3F8)] + state.after_read(0x3F8).input == state.input
        },
        state.input.len() == 0 ==> state.read_value(0x3F8) == 0 && state.after_read(0x3F8) == state,
        state.after_read(0x3F8) == (SerialState { input: state.after_read(0x3F8).input, ..state }),
        state.read_value(0x3F9) == state.ier,
        state.after_read(0x3F9) == state,
{
    lemma_masks(state.lcr);
    if state.input.len() > 0 {
        assert(seq![state.input[0]] + state.input.drop_first() =~= state.input);
    }
}

/// A read of any port but the first three changes nothing. Line control, modem control and
/// scratch read as they are, the line status shows an idle transmitter and whether a byte
/// waits, the modem status is fixed, and what lies past the last port reads 0.
pub proof fn law_reading_other_ports(state: SerialState, port: u16)
    requires
        port > 0x3FA,
    ensures
        state.after_read(port) == state,
        port == 0x3FB ==> state.read_value(port) == state.lcr,
        port == 0x3FC ==> state.read_value(port) == state.mcr,
        port == 0x3FD && state.input.len() == 0 ==> state.read_value(port) == 0x60,
        port == 0x3FD && state.input.len() > 0 ==> state.read_value(port) == 0x61,
        port == 0x3FE ==> state.read_value(port) == 0xB0,
        port == 0x3FF ==> state.read_value(port) == state.scr,
        port > 0x3FF ==> state.read_value(port) == 0,
{
}

/// The identification register reads 0x04 if and only if a byte waits and bit 0 of the
/// interrupt enable register is set; otherwise 0x02 if and only if the transmitter counts
/// as empty and bit 1 is set; otherwise 0x01. The other bits play no part. Only a read that
/// gave 0x02 changes anything: the transmitter no longer counts as empty.
pub proof fn law_identification(state: SerialState)
    ensures
        state.read_value(0x3FA) == 0x04 <==> state.input.len() > 0 && state.ier & 0x01 != 0,
        state.read_value(0x3FA) == 0x02 <==> {
            &&& !(state.input.len() > 0 && state.ier & 0x01 != 0)
            &&& state.thre_pending
            &&& state.ier & 0x02 != 0
        },
        state.read_value(0x3FA) == 0x04 || state.read_value(0x3FA) == 0x02 || state.read_value(
            0x3FA,
        ) == 0x01,
        state.read_value(0x3FA) == 0x02 ==> state.after_read(0x3FA) == (SerialState {
            thre_pending: false,
            ..state
        }),
        state.read_value(0x3FA) != 0x02 ==> state.after_read(0x3FA) == state,
{
    lemma_masks(state.ier);
}

/// When bytes come in, the interrupt is asked for if and only if there are any and bit 0 of
/// the interrupt enable register is set, whatever its other bits are; the identification
/// register then reads 0x04. The bytes go behind those that wait, and nothing else changes.
pub proof fn law_receiving_bytes(state: SerialState, bytes: Seq<u8>)
    ensures
        state.receive_irq(bytes) <==> bytes.len() > 0 && state.ier & 0x01 != 0,
        bytes.len() > 0 && state.ier & 0x01 != 0 ==> state.after_receive(bytes).read_value(0x3FA)
            == 0x04,
        state.after_receive(bytes).input == state.input + bytes,
        state.after_receive(bytes) == (SerialState { input: state.input + bytes, ..state }),
{
    lemma_masks(state.ier);
}

/// Receiving bytes in two parts is receiving them at once.
pub proof fn law_receiving_in_parts(state: SerialState, first: Seq<u8>, second: Seq<u8>)
    ensures
        state.after_receive(first).after_receive(second) == state.after_receive(first + second),
        state.receive_irq(first + second) <==> state.receive_irq(first) || state.after_receive(
            first,
        ).receive_irq(second),
{
    assert((state.input + first) + second =~= state.input + (first + second));
}

/// Two serial ports that agree on bits 0 and 1 of the interrupt enable register, on bit 7
/// of line control, on whether a byte waits and on whether the transmitter counts as empty
/// interrupt the guest alike and identify the same cause.
pub proof fn law_what_interrupts_depend_on(
    left: SerialState,
    right: SerialState,
    port: u16,
    value: u8,
    bytes: Seq<u8>,
)
    requires
        left.ier & 0x03 == right.ier & 0x03,
        left.lcr & 0x80 == right.lcr & 0x80,
        left.input.len() > 0 <==> right.input.len() > 0,
        left.thre_pending == right.thre_pending,
    ensures
        left.write_effect(port, value) == right.write_effect(port, value),
        left.receive_irq(bytes) == right.receive_irq(bytes),
        left.read_value(0x3FA) == right.read_value(0x3FA),
{
    let l = left.ier;
    let r = right.ier;
    assert((l & 0x01 != 0 <==> r & 0x01 != 0) && (l & 0x02 != 0 <==> r & 0x02 != 0)) by (bit_vector)
        requires
            l & 0x03 == r & 0x03,
    ;
    lemma_masks(l);
    lemma_masks(r);
    lemma_masks(left.lcr);
    lemma_masks(right.lcr);
}

/// A driver that sends on interrupts never stalls: while bit 1 of the interrupt enable
/// register is set and the latches are off, each byte it sends asks for the interrupt, the
/// identification register names a cause, and the driver is where it was before, ready to
/// send the next.
pub proof fn law_sending_does_not_stall(state: SerialState, value: u8)
    requires
        state.lcr & 0x80 == 0,
        state.ier & 0x02 != 0,
    ensures
        ({
            let sent = state.after_write(0x3F8, value);
            let seen = sent.after_read(0x3FA);
            &&& state.write_effect(0x3F8, value) == (WriteEffect {
                transmit: Some(value),
                irq: true,
            })
            &&& sent.read_value(0x3FA) == if state.input.len() > 0 && state.ier & 0x01 != 0 {
                0x04u8
            } else {
                0x02u8
            }
            &&& seen.ier == state.ier
            &&& seen.lcr == state.lcr
            &&& seen.input == state.input
        }),
{
    law_sending_a_byte(state, value);
    law_identification(state.after_write(0x3F8, value));
}

/// The serial port has the eight ports from 0x3F8 to 0x3FF and interrupt line 4.
pub proof fn law_com1(port: u16)
    ensures
        is_com1(port) <==> 0x3F8 <= port < 0x3F8 + 8,
        COM1_BASE == 0x3F8,
        COM1_LAST == 0x3FF,
        COM1_IRQ == 4,
{
}

/// After reset all registers are 0, nothing waits and nothing is pending.
pub proof fn law_reset()
    ensures
        SerialState::reset() == (SerialState {
            input: seq![],
            ier: 0,
            lcr: 0,
            mcr: 0,
            scr: 0,
            dll: 0,
            dlm: 0,
            thre_pending: false,
        }),
{
}

} // verus!
