//! The serial command protocol: six-byte frames that the device echoes, and the
//! bit stream in which it reports its outputs.

use vstd::prelude::*;

verus! {

/// The last byte of every frame.
pub const SENTINEL: u8 = 0xA5;

/// The time in milliseconds that the host waits for the bytes of one read.
pub const READ_TIMEOUT_MS: u32 = 20;

/// The length of a frame and of its echo.
pub const FRAME_LEN: usize = 6;

/// A command to the device.
#[derive(Clone, Copy, Debug, PartialEq, Eq, Structural)]
pub enum FPGACommand {
    Reset,
    Ping,
    /// Ask for the captured outputs; the device answers with the echo and the output bytes.
    GetOutupts,
    /// Latch the outputs.
    Capture,
    /// Set an input: its bit offset, its kind code and its state.
    SetInputs(u32, u8, u8),
    /// Set the rate in redstone ticks per second.
    SetRTPS(u32),
    /// Store a byte at an address of the ROM.
    LoadROM(u32, u8),
    DebugLED,
    FailAck,
}

/// The state of the device as the user sees it.
#[derive(Clone, Copy, Debug, PartialEq, Eq, Structural)]
pub enum DeviceStatus {
    Inactive,
    Programming,
    Connected,
    Disconnected,
    Failed,
}

impl Default for DeviceStatus {
    fn default() -> (status: DeviceStatus)
        ensures
            status == DeviceStatus::Inactive,
    {
        DeviceStatus::Inactive
    }
}

impl DeviceStatus {
    /// The status as coloured text for the scoreboard.
    pub fn to_str(self) -> (label: &'static str)
        ensures
            label@ == match self {
                DeviceStatus::Inactive => "&cInactive"@,
                DeviceStatus::Programming => "&9Programming"@,
                DeviceStatus::Connected => "&aConnected"@,
                DeviceStatus::Disconnected => "&cDisconnected"@,
                DeviceStatus::Failed => "&cStopped"@,
            },
    {
        match self {
            DeviceStatus::Inactive => "&cInactive",
            DeviceStatus::Programming => "&9Programming",
            DeviceStatus::Connected => "&aConnected",
            DeviceStatus::Disconnected => "&cDisconnected",
            DeviceStatus::Failed => "&cStopped",
        }
    }
}

impl FPGACommand {
    /// The operation byte of a command.
    pub open spec fn spec_opcode(self) -> u8 {
        match self {
            FPGACommand::Reset => 0xC0,
            FPGACommand::Ping => 0xC1,
            FPGACommand::GetOutupts => 0xC2,
            FPGACommand::Capture => 0xC3,
            FPGACommand::SetInputs(..) => 0xC4,
            FPGACommand::SetRTPS(..) => 0xC5,
            FPGACommand::LoadROM(..) => 0xC6,
            FPGACommand::DebugLED => 0xC7,
            FPGACommand::FailAck => 0xC8,
        }
    }

    /// The four payload bytes of a command: the low 24 bits of an offset or an address
    /// from the highest byte down and then the data byte, or the 32 bits of a rate from
    /// the highest byte down; zeros where a command carries nothing.
    pub open spec fn spec_payload(self) -> Seq<u8> {
        match self {
            FPGACommand::SetInputs(id, ty, state) => seq![
                ((id >> 16) & 0xFF) as u8,
                ((id >> 8) & 0xFF) as u8,
                (id & 0xFF) as u8,
                (ty << 7) | (state & 0x0F),
            ],
            FPGACommand::SetRTPS(rtps) => seq![
                ((rtps >> 24) & 0xFF) as u8,
                ((rtps >> 16) & 0xFF) as u8,
                ((rtps >> 8) & 0xFF) as u8,
                (rtps & 0xFF) as u8,
            ],
            FPGACommand::LoadROM(addr, data) => seq![
                ((addr >> 16) & 0xFF) as u8,
                ((addr >> 8) & 0xFF) as u8,
                (addr & 0xFF) as u8,
                data,
            ],
            _ => seq![0u8, 0u8, 0u8, 0u8],
        }
    }

    /// The frame of a command: operation, payload, sentinel.
    pub open spec fn spec_frame(self) -> Seq<u8> {
        seq![self.spec_opcode()] + self.spec_payload() + seq![SENTINEL]
    }

    /// Whether the device follows the echo of this command with the output bytes.
    pub open spec fn spec_returns_outputs(self) -> bool {
        self is GetOutupts
    }

    pub fn opcode(&self) -> (op: u8)
        ensures
            op == self.spec_opcode(),
    {
        match self {
            FPGACommand::Reset => 0xC0,
            FPGACommand::Ping => 0xC1,
            FPGACommand::GetOutupts => 0xC2,
            FPGACommand::Capture => 0xC3,
            FPGACommand::SetInputs(..) => 0xC4,
            FPGACommand::SetRTPS(..) => 0xC5,
            FPGACommand::LoadROM(..) => 0xC6,
            FPGACommand::DebugLED => 0xC7,
            FPGACommand::FailAck => 0xC8,
        }
    }

    /// The six bytes that go over the line for this command.
    pub fn frame(&self) -> (bytes: Vec<u8>)
        ensures
            bytes@ == self.spec_frame(),
            bytes@.len() == FRAME_LEN,
            bytes@[5] == SENTINEL,
    {
        let mut bytes: Vec<u8> = Vec::new();
        bytes.push(self.opcode());
        match self {
            FPGACommand::SetInputs(id, ty, state) => {
                bytes.push(((*id >> 16) & 0xFF) as u8);
                bytes.push(((*id >> 8) & 0xFF) as u8);
                bytes.push((*id & 0xFF) as u8);
                bytes.push((*ty << 7) | (*state & 0x0F));
            },
            FPGACommand::SetRTPS(rtps) => {
                bytes.push(((*rtps >> 24) & 0xFF) as u8);
                bytes.push(((*rtps >> 16) & 0xFF) as u8);
                bytes.push(((*rtps >> 8) & 0xFF) as u8);
                bytes.push((*rtps & 0xFF) as u8);
            },
            FPGACommand::LoadROM(addr, data) => {
                bytes.push(((*addr >> 16) & 0xFF) as u8);
                bytes.push(((*addr >> 8) & 0xFF) as u8);
                bytes.push((*addr & 0xFF) as u8);
                bytes.push(*data);
            },
            _ => {
                bytes.push(0);
                bytes.push(0);
                bytes.push(0);
                bytes.push(0);
            },
        }
        bytes.push(SENTINEL);
        assert(bytes@ =~= self.spec_frame());
        bytes
    }

    pub fn returns_outputs(&self) -> (b: bool)
        ensures
            b == self.spec_returns_outputs(),
    {
        match self {
            FPGACommand::GetOutupts => true,
            _ => false,
        }
    }
}

/// What the host does next on the line.
#[derive(Clone, Debug, PartialEq, Eq)]
pub enum SerialAction {
    /// Discard what the receive buffer holds.
    ClearInput,
    /// Write these bytes.
    Write(Vec<u8>),
    /// Read exactly this many bytes.
    Read(usize),
    /// The exchange is over; the flag tells whether it succeeded.
    Finish(bool),
}

/// What the line reported for the last action.
#[derive(Clone, Debug, PartialEq, Eq)]
pub enum SerialEvent {
    /// The receive buffer was cleared, or could not be.
    Cleared(bool),
    /// The bytes were written, or could not be.
    Written(bool),
    /// The bytes that were read; `None` after a timeout or a fault.
    Received(Option<Vec<u8>>),
}

/// Where an exchange stands.
#[derive(Clone, Copy, Debug, PartialEq, Eq, Structural)]
pub enum ExchangeStage {
    Clearing,
    Writing,
    AwaitingEcho,
    AwaitingOutputs,
    Succeeded,
    Failed,
}

/// One command on its way: clear the receive buffer, write the frame, read the echo and
/// hold it against the frame, then read the outputs where the command asks for them.
pub struct Exchange {
    pub command: FPGACommand,
    pub stage: ExchangeStage,
    /// How many output bytes the device sends after the echo of `GetOutupts`.
    pub output_bytes: usize,
    /// The outputs that were read.
    pub outputs: Vec<u8>,
}

/// The stage after an event. Clearing and writing go on whatever they report. An echo
/// that differs from the frame, or is missing, ends the exchange in failure, and so do
/// outputs that are missing or of another length. An event after the end changes nothing.
pub open spec fn next_stage(
    command: FPGACommand,
    output_bytes: usize,
    stage: ExchangeStage,
    event: SerialEvent,
) -> ExchangeStage {
    match stage {
        ExchangeStage::Clearing => ExchangeStage::Writing,
        ExchangeStage::Writing => ExchangeStage::AwaitingEcho,
        ExchangeStage::AwaitingEcho => match event {
            SerialEvent::Received(Some(echo)) => if echo@ == command.spec_frame() {
                if command.spec_returns_outputs() {
                    ExchangeStage::AwaitingOutputs
                } else {
                    ExchangeStage::Succeeded
                }
            } else {
                ExchangeStage::Failed
            },
            _ => ExchangeStage::Failed,
        },
        ExchangeStage::AwaitingOutputs => match event {
            SerialEvent::Received(Some(data)) => if data@.len() == output_bytes {
                ExchangeStage::Succeeded
            } else {
                ExchangeStage::Failed
            },
            _ => ExchangeStage::Failed,
        },
        ExchangeStage::Succeeded => ExchangeStage::Succeeded,
        ExchangeStage::Failed => ExchangeStage::Failed,
    }
}

/// What a stage asks of the line.
pub open spec fn action_view(command: FPGACommand, output_bytes: usize, stage: ExchangeStage) -> (
    int,
    Seq<u8>,
    int,
) {
    match stage {
        ExchangeStage::Clearing => (0, Seq::empty(), 0),
        ExchangeStage::Writing => (1, command.spec_frame(), 0),
        ExchangeStage::AwaitingEcho => (2, Seq::empty(), FRAME_LEN as int),
        ExchangeStage::AwaitingOutputs => (2, Seq::empty(), output_bytes as int),
        ExchangeStage::Succeeded => (3, Seq::empty(), 1),
        ExchangeStage::Failed => (3, Seq::empty(), 0),
    }
}

impl SerialAction {
    /// An action as plain values: its kind (0 clear, 1 write, 2 read, 3 finish), the bytes
    /// to write, and the number of bytes to read or the success flag.
    pub open spec fn view(&self) -> (int, Seq<u8>, int) {
        match self {
            SerialAction::ClearInput => (0, Seq::empty(), 0),
            SerialAction::Write(bytes) => (1, bytes@, 0),
            SerialAction::Read(n) => (2, Seq::empty(), *n as int),
            SerialAction::Finish(ok) => (3, Seq::empty(), if *ok {
                1
            } else {
                0
            }),
        }
    }
}

impl Exchange {
    /// Starts the exchange of one command. The first action is to clear the receive buffer.
    pub fn begin(command: FPGACommand, output_bytes: usize) -> (exchange: Exchange)
        ensures
            exchange.command == command,
            exchange.stage == ExchangeStage::Clearing,
            exchange.output_bytes == output_bytes,
            exchange.outputs@.len() == 0,
    {
        Exchange { command, stage: ExchangeStage::Clearing, output_bytes, outputs: Vec::new() }
    }

    /// What the host has to do at this stage.
    pub fn action(&self) -> (action: SerialAction)
        ensures
            action@ == action_view(self.command, self.output_bytes, self.stage),
    {
        match self.stage {
            ExchangeStage::Clearing => SerialAction::ClearInput,
            ExchangeStage::Writing => SerialAction::Write(self.command.frame()),
            ExchangeStage::AwaitingEcho => SerialAction::Read(FRAME_LEN),
            ExchangeStage::AwaitingOutputs => SerialAction::Read(self.output_bytes),
            ExchangeStage::Succeeded => SerialAction::Finish(true),
            ExchangeStage::Failed => SerialAction::Finish(false),
        }
    }

    /// Takes what the line reported and moves to the next stage. Outputs that arrive
    /// whole are kept; after a mismatch of the echo nothing more is read.
    pub fn advance(&mut self, event: SerialEvent)
        ensures
            final(self).command == old(self).command,
            final(self).output_bytes == old(self).output_bytes,
            final(self).stage == next_stage(
                old(self).command,
                old(self).output_bytes,
                old(self).stage,
                event,
            ),
            final(self).outputs@ == if old(self).stage == ExchangeStage::AwaitingOutputs
                && final(self).stage == ExchangeStage::Succeeded {
                event->Received_0->0@
            } else {
                old(self).outputs@
            },
    {
        match self.stage {
            ExchangeStage::Clearing => {
                self.stage = ExchangeStage::Writing;
            },
            ExchangeStage::Writing => {
                self.stage = ExchangeStage::AwaitingEcho;
            },
            ExchangeStage::AwaitingEcho => {
                match event {
                    SerialEvent::Received(Some(echo)) => {
                        let frame = self.command.frame();
                        if crate::text::bytes_eq(echo.as_slice(), frame.as_slice()) {
                            if self.command.returns_outputs() {
                                self.stage = ExchangeStage::AwaitingOutputs;
                            } else {
                                self.stage = ExchangeStage::Succeeded;
                            }
                        } else {
                            self.stage = ExchangeStage::Failed;
                        }
                    },
                    _ => {
                        self.stage = ExchangeStage::Failed;
                    },
                }
            },
            ExchangeStage::AwaitingOutputs => {
                match event {
                    SerialEvent::Received(Some(data)) => {
                        if data.len() == self.output_bytes {
                            self.outputs = data;
                            self.stage = ExchangeStage::Succeeded;
                        } else {
                            self.stage = ExchangeStage::Failed;
                        }
                    },
                    _ => {
                        self.stage = ExchangeStage::Failed;
                    },
                }
            },
            ExchangeStage::Succeeded => {},
            ExchangeStage::Failed => {},
        }
    }

    /// Whether the exchange is over.
    pub fn is_finished(&self) -> (done: bool)
        ensures
            done == (self.stage == ExchangeStage::Succeeded || self.stage == ExchangeStage::Failed),
    {
        match self.stage {
            ExchangeStage::Succeeded | ExchangeStage::Failed => true,
            _ => false,
        }
    }
}

/// The weight of bit `k` of a value.
pub open spec fn weight(k: nat) -> nat
    decreases k,
{
    if k == 0 {
        1
    } else {
        2 * weight((k - 1) as nat)
    }
}

/// Bit `j` of a stream of bytes; the lowest bit of a byte comes first.
pub open spec fn stream_bit(data: Seq<u8>, j: int) -> bool {
    0 <= j < 8 * data.len() && (data[j / 8] >> ((j % 8) as u8)) & 1 == 1
}

/// The value of the `size` bits of a stream from bit `index` on, the first bit lowest.
pub open spec fn stream_value(data: Seq<u8>, index: int, size: nat) -> nat
    decreases size,
{
    if size == 0 {
        0
    } else {
        stream_value(data, index, (size - 1) as nat) + if stream_bit(data, index + size - 1) {
            weight((size - 1) as nat)
        } else {
            0
        }
    }
}

pub proof fn lemma_stream_value_bound(data: Seq<u8>, index: int, size: nat)
    ensures
        stream_value(data, index, size) < weight(size),
    decreases size,
{
    if size > 0 {
        lemma_stream_value_bound(data, index, (size - 1) as nat);
    }
}

pub proof fn lemma_weight_8()
    ensures
        weight(0) == 1,
        weight(1) == 2,
        weight(2) == 4,
        weight(3) == 8,
        weight(4) == 16,
        weight(5) == 32,
        weight(6) == 64,
        weight(7) == 128,
        weight(8) == 256,
{
    reveal_with_fuel(weight, 10);
}

/// A reader that takes a stream of bytes apart into groups of bits.
pub struct BinaryIterator {
    pub data: Vec<u8>,
    pub index: usize,
}

impl BinaryIterator {
    /// The position of the next bit.
    pub open spec fn position(&self) -> nat {
        self.index as nat
    }

    pub fn new(buffer: Vec<u8>) -> (it: BinaryIterator)
        ensures
            it.data@ == buffer@,
            it.position() == 0,
    {
        BinaryIterator { data: buffer, index: 0 }
    }

    /// The position of the next bit.
    pub fn index(&self) -> (i: usize)
        ensures
            i == self.position(),
    {
        self.index
    }

    /// Takes the next `size` bits as a value, the first bit lowest. Where the stream has
    /// fewer bits left there is no value. The position moves on by `size` either way.
    pub fn next(&mut self, size: u8) -> (value: Option<u8>)
        requires
            size <= 8,
            old(self).position() + size <= usize::MAX,
        ensures
            final(self).data@ == old(self).data@,
            final(self).position() == old(self).position() + size,
            value == if old(self).position() + size <= 8 * old(self).data@.len() {
                Some(stream_value(old(self).data@, old(self).position() as int, size as nat) as u8)
            } else {
                None::<u8>
            },
            value matches Some(v) ==> v == stream_value(
                old(self).data@,
                old(self).position() as int,
                size as nat,
            ),
    {
        let end: usize = self.index + size as usize;
        let res = if end as u128 > (self.data.len() as u128) * 8 {
            None
        } else {
            let mut value: u16 = 0;
            let mut w: u16 = 1;
            let mut k: u8 = 0;
            proof {
                lemma_weight_8();
            }
            while k < size
                invariant
                    k <= size <= 8,
                    self.index == old(self).index,
                    self.data@ == old(self).data@,
                    self.index + size <= 8 * self.data@.len(),
                    self.index + size <= usize::MAX,
                    w == weight(k as nat),
                    value == stream_value(self.data@, self.index as int, k as nat),
                    value < w,
                decreases size - k,
            {
                let j: usize = self.index + k as usize;
                proof {
                    lemma_weight_8();
                }
                if (self.data[j / 8] >> ((j % 8) as u8)) & 1 == 1 {
                    value = value + w;
                }
                k += 1;
                w = w * 2;
            }
            Some(value as u8)
        };
        self.index = end;
        res
    }
}

} // verus!
