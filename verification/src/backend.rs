//! The life of a backend: from the compile of its circuit to the ticks of a running
//! device, as a state machine that the host drives.

use vstd::prelude::*;
use crate::blocks::{BlockPos, WorldBlock};
use crate::interface::{BinaryIterator, FPGACommand};
use crate::linker::{changes, first_at, read_outputs, toggled, toggled_block, bit_total, Linker};
use crate::options::CompilerOptions;
use crate::scheduler::{first_owned, freed, locked, FPGAScheduler};

verus! {

/// How many flushes in a row may fail before the backend stops.
pub const FAILURE_LIMIT: u32 = 10;

/// Where a backend stands.
#[derive(Clone, Copy, Debug, PartialEq, Eq, Structural)]
pub enum BackendStatus {
    Stopped,
    Redpiling,
    Compiling,
    Ready,
    Active,
}

impl BackendStatus {
    /// The status as coloured text for the scoreboard.
    pub open spec fn label(self) -> Seq<char> {
        match self {
            BackendStatus::Stopped => "&cStopped"@,
            BackendStatus::Redpiling => "&eRedpiling"@,
            BackendStatus::Compiling => "&eCompiling"@,
            BackendStatus::Ready => "&2Ready"@,
            BackendStatus::Active => "&aActive"@,
        }
    }

    pub fn to_str(&self) -> (text: String)
        ensures
            text@ == self.label(),
    {
        match self {
            BackendStatus::Stopped => "&cStopped".to_owned(),
            BackendStatus::Redpiling => "&eRedpiling".to_owned(),
            BackendStatus::Compiling => "&eCompiling".to_owned(),
            BackendStatus::Ready => "&2Ready".to_owned(),
            BackendStatus::Active => "&aActive".to_owned(),
        }
    }
}

/// What a backend tells the user interface.
#[derive(Debug)]
pub enum BackendMsg {
    BackendStatus { backend: String, status: BackendStatus },
    New { backend: String, options: CompilerOptions },
    Delete { backend: String },
}

/// The backends that can run a circuit.
#[derive(Clone, Copy, Debug, PartialEq, Eq, Structural)]
pub enum BackendDispatcher {
    DirectBackend,
    FPGABackend,
}

/// A backend on a device: its name, its options, its status, its linker, and the number
/// of flushes that failed in a row.
pub struct Backend {
    pub name: String,
    pub options: CompilerOptions,
    pub status: BackendStatus,
    pub link: Linker,
    pub failures: u32,
}

impl Backend {
    /// A new backend whose graph is still being built, and the message that announces it.
    pub fn new(name: String, options: CompilerOptions) -> (made: (Backend, BackendMsg))
        ensures
            made.0.name == name,
            made.0.options == options,
            made.0.status == BackendStatus::Redpiling,
            made.0.failures == 0,
            made.0.link.wf(),
            made.0.link.name == name,
            made.0.link.inputs@.len() == 0,
            made.0.link.outputs@.len() == 0,
            made.1 == (BackendMsg::New { backend: name, options }),
    {
        let link = Linker::new(name.clone());
        let msg = BackendMsg::New { backend: name.clone(), options };
        (Backend { name, options, status: BackendStatus::Redpiling, link, failures: 0 }, msg)
    }

    /// A backend for a circuit that was compiled before: it is ready at once.
    pub fn from_data(link: Linker, options: CompilerOptions) -> (made: (Backend, BackendMsg))
        ensures
            made.0.name == link.name,
            made.0.options == options,
            made.0.status == BackendStatus::Ready,
            made.0.failures == 0,
            made.0.link == link,
            made.1 == (BackendMsg::BackendStatus { backend: link.name, status: BackendStatus::Ready }),
    {
        let name = link.name.clone();
        let msg = BackendMsg::BackendStatus { backend: name.clone(), status: BackendStatus::Ready };
        (Backend { name, options, status: BackendStatus::Ready, link, failures: 0 }, msg)
    }

    pub fn options(&self) -> (options: &CompilerOptions)
        ensures
            *options == self.options,
    {
        &self.options
    }

    /// The kind of backend that the options ask for.
    pub fn backend(&self) -> (kind: BackendDispatcher)
        ensures
            kind == match self.options.backend_variant {
                crate::options::BackendVariant::Direct => BackendDispatcher::DirectBackend,
                crate::options::BackendVariant::FPGA => BackendDispatcher::FPGABackend,
            },
    {
        match self.options.backend_variant {
            crate::options::BackendVariant::Direct => BackendDispatcher::DirectBackend,
            crate::options::BackendVariant::FPGA => BackendDispatcher::FPGABackend,
        }
    }

    fn report(&self) -> (msg: BackendMsg)
        ensures
            msg == (BackendMsg::BackendStatus { backend: self.name, status: self.status }),
    {
        BackendMsg::BackendStatus { backend: self.name.clone(), status: self.status }
    }

    /// The graph is built: the hardware compile begins.
    pub fn compile(&mut self) -> (msg: BackendMsg)
        ensures
            final(self).status == if old(self).status == BackendStatus::Redpiling {
                BackendStatus::Compiling
            } else {
                old(self).status
            },
            final(self).name == old(self).name,
            final(self).options == old(self).options,
            final(self).link == old(self).link,
            final(self).failures == old(self).failures,
            msg == (BackendMsg::BackendStatus { backend: final(self).name, status: final(self).status }),
    {
        match self.status {
            BackendStatus::Redpiling => {
                self.status = BackendStatus::Compiling;
            },
            _ => {},
        }
        self.report()
    }

    /// The hardware compile is over: the backend is ready where it succeeded and stopped
    /// where it failed.
    pub fn programmed(&mut self, success: bool) -> (msg: BackendMsg)
        ensures
            final(self).status == if old(self).status == BackendStatus::Compiling {
                if success {
                    BackendStatus::Ready
                } else {
                    BackendStatus::Stopped
                }
            } else {
                old(self).status
            },
            final(self).name == old(self).name,
            final(self).options == old(self).options,
            final(self).link == old(self).link,
            final(self).failures == old(self).failures,
            msg == (BackendMsg::BackendStatus { backend: final(self).name, status: final(self).status }),
    {
        match self.status {
            BackendStatus::Compiling => {
                self.status = if success {
                    BackendStatus::Ready
                } else {
                    BackendStatus::Stopped
                };
            },
            _ => {},
        }
        self.report()
    }

    /// Starts a ready backend: it becomes active and counts failures from 0. In any other
    /// state nothing changes.
    pub fn run(&mut self) -> (msg: BackendMsg)
        ensures
            final(self).status == if old(self).status == BackendStatus::Ready {
                BackendStatus::Active
            } else {
                old(self).status
            },
            final(self).failures == if old(self).status == BackendStatus::Ready {
                0
            } else {
                old(self).failures
            },
            final(self).name == old(self).name,
            final(self).options == old(self).options,
            final(self).link == old(self).link,
            msg == (BackendMsg::BackendStatus { backend: final(self).name, status: final(self).status }),
    {
        match self.status {
            BackendStatus::Ready => {
                self.status = BackendStatus::Active;
                self.failures = 0;
            },
            _ => {},
        }
        self.report()
    }

    /// Stops the backend: it is ready again, whatever state it was in, and says so.
    pub fn stop(&mut self) -> (msg: BackendMsg)
        ensures
            final(self).status == BackendStatus::Ready,
            final(self).name == old(self).name,
            final(self).options == old(self).options,
            final(self).link == old(self).link,
            final(self).failures == old(self).failures,
            msg == (BackendMsg::BackendStatus { backend: old(self).name, status: BackendStatus::Ready }),
    {
        self.status = BackendStatus::Ready;
        self.report()
    }

    /// Starts a ready backend on a device of the pool. Where the pool has a free device,
    /// the plot gets it and the backend becomes active, counting failures from 0. Where it
    /// has none the start is refused: nothing changes and no message goes out. A backend
    /// that is not ready asks for no device.
    pub fn run_on(&mut self, pool: &mut FPGAScheduler, plot: (i32, i32)) -> (msg: Option<BackendMsg>)
        ensures
            final(self).name == old(self).name,
            final(self).options == old(self).options,
            final(self).link == old(self).link,
            final(pool).configs() == old(pool).configs(),
            (old(self).status == BackendStatus::Ready && first_owned(old(pool).owners(), None, 0) is Some)
                ==> final(self).status == BackendStatus::Active && final(self).failures == 0
                && final(pool).owners() == locked(old(pool).owners(), plot) && msg == Some(
                BackendMsg::BackendStatus { backend: old(self).name, status: BackendStatus::Active },
            ),
            !(old(self).status == BackendStatus::Ready && first_owned(old(pool).owners(), None, 0) is Some)
                ==> final(self).status == old(self).status && final(self).failures == old(
                self,
            ).failures && final(pool).owners() == old(pool).owners() && msg is None,
    {
        match self.status {
            BackendStatus::Ready => {
                if pool.lock(plot) {
                    Some(self.run())
                } else {
                    None
                }
            },
            _ => None,
        }
    }

    /// Stops the backend and gives every device of the plot back to the pool.
    pub fn stop_on(&mut self, pool: &mut FPGAScheduler, plot: (i32, i32)) -> (msg: BackendMsg)
        ensures
            final(self).status == BackendStatus::Ready,
            final(self).name == old(self).name,
            final(self).options == old(self).options,
            final(self).link == old(self).link,
            final(self).failures == old(self).failures,
            final(pool).owners() == freed(old(pool).owners(), plot),
            final(pool).configs() == old(pool).configs(),
            msg == (BackendMsg::BackendStatus { backend: old(self).name, status: BackendStatus::Ready }),
    {
        pool.free(plot);
        self.stop()
    }

    /// A fatal error: the backend is stopped, whatever it was doing.
    pub fn fail(&mut self) -> (msg: BackendMsg)
        ensures
            final(self).status == BackendStatus::Stopped,
            final(self).name == old(self).name,
            final(self).options == old(self).options,
            final(self).link == old(self).link,
            final(self).failures == old(self).failures,
            msg == (BackendMsg::BackendStatus { backend: final(self).name, status: BackendStatus::Stopped }),
    {
        self.status = BackendStatus::Stopped;
        self.report()
    }

    /// Ends a compile run: the options fall back to their defaults. Returns whether the
    /// options asked for block updates after the reset, which the host then runs.
    pub fn reset(&mut self) -> (update: bool)
        ensures
            update == old(self).options.update,
            final(self).options == CompilerOptions::spec_default(),
            final(self).name == old(self).name,
            final(self).status == old(self).status,
            final(self).link == old(self).link,
            final(self).failures == old(self).failures,
    {
        let update = self.options.update;
        self.options = CompilerOptions::default();
        update
    }

    /// The device keeps its own time: a tick of the host does nothing.
    pub fn tick(&mut self)
        ensures
            *final(self) == *old(self),
    {
    }

    /// The device keeps its own time: ticks of the host do nothing.
    pub fn tickn(&mut self, ticks: u64)
        ensures
            *final(self) == *old(self),
    {
    }

    /// A player used the block at `pos`: the first input there is turned over, and the
    /// command that tells the device follows. Where no input stands there the command
    /// carries three zeros.
    pub fn on_use_block(&mut self, pos: BlockPos) -> (command: FPGACommand)
        requires
            old(self).link.wf(),
        ensures
            final(self).link.wf(),
            final(self).name == old(self).name,
            final(self).options == old(self).options,
            final(self).status == old(self).status,
            final(self).failures == old(self).failures,
            final(self).link.name == old(self).link.name,
            final(self).link.outputs == old(self).link.outputs,
            final(self).link.inputs@ == toggled(old(self).link.inputs@, pos),
            command == match first_at(old(self).link.inputs@, pos, 0) {
                Some(i) => FPGACommand::SetInputs(
                    bit_total(old(self).link.inputs@, i) as u32,
                    0,
                    toggled_block(old(self).link.inputs@[i as int]).state,
                ),
                None => FPGACommand::SetInputs(0, 0, 0),
            },
    {
        let (id, ty, state) = self.link.toggle_input(pos);
        FPGACommand::SetInputs(id, ty, state)
    }

    /// Pressure plates are inputs like any other: the host reports them through
    /// `on_use_block`, and this call changes nothing.
    pub fn set_pressure_plate(&mut self, pos: BlockPos, powered: bool)
        ensures
            *final(self) == *old(self),
    {
    }

    /// The device cannot be inspected block by block: nothing happens.
    pub fn inspect(&mut self, pos: BlockPos)
        ensures
            *final(self) == *old(self),
    {
    }

    /// The host never owes the device a tick.
    pub fn has_pending_ticks(&self) -> (pending: bool)
        ensures
            !pending,
    {
        false
    }

    /// The command that sets the rate of the device.
    pub fn set_rtps(&self, rtps: u32) -> (command: FPGACommand)
        ensures
            command == FPGACommand::SetRTPS(rtps),
    {
        FPGACommand::SetRTPS(rtps)
    }

    /// The two commands of a flush, in their order: latch the outputs, then fetch them.
    pub fn flush_commands(&self) -> (commands: [FPGACommand; 2])
        ensures
            commands@ == seq![FPGACommand::Capture, FPGACommand::GetOutupts],
    {
        [FPGACommand::Capture, FPGACommand::GetOutupts]
    }

    /// The end of a flush. With the output bytes of the device, every output takes its
    /// state from them, the failures count from 0 again, and the blocks of all outputs and
    /// inputs come back. Without them (a timeout, a wrong echo) the tick is given up: one
    /// more failure is counted, no block changes, and at the limit the backend stops and
    /// says so.
    pub fn flush(&mut self, outputs: Option<Vec<u8>>) -> (flushed: (Vec<(BlockPos, WorldBlock)>, Option<BackendMsg>))
        requires
            old(self).link.wf(),
        ensures
            final(self).link.wf(),
            final(self).name == old(self).name,
            final(self).options == old(self).options,
            final(self).link.name == old(self).link.name,
            final(self).link.inputs == old(self).link.inputs,
            match outputs {
                Some(bytes) => {
                    &&& final(self).failures == 0
                    &&& final(self).status == old(self).status
                    &&& final(self).link.outputs@ == read_outputs(
                        old(self).link.outputs@,
                        bytes@,
                        0,
                        old(self).link.outputs@.len(),
                    )
                    &&& flushed.0@ == changes(final(self).link.outputs@, final(self).link.inputs@)
                    &&& flushed.1 is None
                },
                None => {
                    &&& final(self).link.outputs == old(self).link.outputs
                    &&& flushed.0@.len() == 0
                    &&& final(self).failures == if old(self).failures < FAILURE_LIMIT {
                        (old(self).failures + 1) as u32
                    } else {
                        old(self).failures
                    }
                    &&& final(self).status == if final(self).failures >= FAILURE_LIMIT {
                        BackendStatus::Stopped
                    } else {
                        old(self).status
                    }
                    &&& flushed.1 == if final(self).failures >= FAILURE_LIMIT {
                        Some(
                            BackendMsg::BackendStatus {
                                backend: old(self).name,
                                status: BackendStatus::Stopped,
                            },
                        )
                    } else {
                        None
                    }
                },
            },
    {
        match outputs {
            Some(bytes) => {
                let mut data = BinaryIterator::new(bytes);
                let blocks = self.link.get_blocks_to_change(&mut data);
                self.failures = 0;
                (blocks, None)
            },
            None => {
                if self.failures < FAILURE_LIMIT {
                    self.failures = self.failures + 1;
                }
                if self.failures >= FAILURE_LIMIT {
                    self.status = BackendStatus::Stopped;
                    let msg = self.report();
                    (Vec::new(), Some(msg))
                } else {
                    (Vec::new(), None)
                }
            },
        }
    }
}

} // verus!
