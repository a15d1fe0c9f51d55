use redstone_fpga::backend::{Backend, BackendDispatcher, BackendMsg, BackendStatus};
use redstone_fpga::blocks::{Block, BlockDirection, BlockPos, Lever, LeverFace, WorldBlock};
use redstone_fpga::compiler::{DeviceConfig, PinAssignments};
use redstone_fpga::scheduler::FPGAScheduler;
use redstone_fpga::interface::FPGACommand;
use redstone_fpga::linker::Linker;
use redstone_fpga::options::CompilerOptions;

fn status_of(msg: BackendMsg) -> (String, BackendStatus) {
    match msg {
        BackendMsg::BackendStatus { backend, status } => (backend, status),
        other => panic!("unexpected message {:?}", other),
    }
}

fn lever(powered: bool) -> WorldBlock {
    WorldBlock::Plain(Block::Lever(Lever::new(LeverFace::Floor, BlockDirection::North, powered)))
}

fn lamp(lit: bool) -> WorldBlock {
    WorldBlock::Plain(Block::RedstoneLamp(lit))
}


fn ready() -> Backend {
    let (mut backend, _) = Backend::new("roc".to_string(), CompilerOptions::fpga());
    backend.link.add_block(lever(false), BlockPos::new(0, 0, 0));
    backend.link.add_block(lamp(false), BlockPos::new(5, 0, 0));
    backend.compile();
    backend.programmed(true);
    backend
}

#[test]
fn status_labels() {
    assert_eq!(BackendStatus::Stopped.to_str(), "&cStopped");
    assert_eq!(BackendStatus::Redpiling.to_str(), "&eRedpiling");
    assert_eq!(BackendStatus::Compiling.to_str(), "&eCompiling");
    assert_eq!(BackendStatus::Ready.to_str(), "&2Ready");
    assert_eq!(BackendStatus::Active.to_str(), "&aActive");
}

#[test]
fn lifecycle() {
    let (mut backend, msg) = Backend::new("roc".to_string(), CompilerOptions::fpga());
    match msg {
        BackendMsg::New { backend, options } => {
            assert_eq!(backend, "roc");
            assert_eq!(options, CompilerOptions::fpga());
        }
        other => panic!("unexpected message {:?}", other),
    }
    assert_eq!(backend.status, BackendStatus::Redpiling);
    assert_eq!(backend.backend(), BackendDispatcher::FPGABackend);
    assert_eq!(backend.options(), &CompilerOptions::fpga());
    // not ready yet: run changes nothing
    assert_eq!(status_of(backend.run()), ("roc".to_string(), BackendStatus::Redpiling));
    assert_eq!(status_of(backend.compile()), ("roc".to_string(), BackendStatus::Compiling));
    assert_eq!(status_of(backend.programmed(true)), ("roc".to_string(), BackendStatus::Ready));
    assert_eq!(status_of(backend.run()), ("roc".to_string(), BackendStatus::Active));
    assert_eq!(status_of(backend.stop()), ("roc".to_string(), BackendStatus::Ready));
    assert_eq!(status_of(backend.run()), ("roc".to_string(), BackendStatus::Active));
    assert_eq!(status_of(backend.fail()), ("roc".to_string(), BackendStatus::Stopped));
    assert_eq!(status_of(backend.run()), ("roc".to_string(), BackendStatus::Stopped));
    // stop leads to ready from every state
    assert_eq!(status_of(backend.stop()), ("roc".to_string(), BackendStatus::Ready));
    assert_eq!(status_of(backend.run()), ("roc".to_string(), BackendStatus::Active));
    let (mut fresh, _) = Backend::new("new".to_string(), CompilerOptions::fpga());
    assert_eq!(status_of(fresh.stop()), ("new".to_string(), BackendStatus::Ready));
    fresh.compile();
    assert_eq!(status_of(fresh.stop()), ("new".to_string(), BackendStatus::Ready));
}

#[test]
fn failed_compile_stops_the_backend() {
    let (mut backend, _) = Backend::new("bad".to_string(), CompilerOptions::fpga());
    backend.compile();
    assert_eq!(status_of(backend.programmed(false)), ("bad".to_string(), BackendStatus::Stopped));
}

#[test]
fn resurrected_backend_is_ready() {
    let mut link = Linker::new("kept".to_string());
    link.add_block(lamp(true), BlockPos::new(1, 2, 3));
    let (backend, msg) = Backend::from_data(link, CompilerOptions::fpga());
    assert_eq!(status_of(msg), ("kept".to_string(), BackendStatus::Ready));
    assert_eq!(backend.name, "kept");
    assert_eq!(backend.status, BackendStatus::Ready);
    assert_eq!(backend.link.output_bits, 1);
}

#[test]
fn lever_lights_the_lamp() {
    let mut backend = ready();
    backend.run();
    assert_eq!(backend.on_use_block(BlockPos::new(0, 0, 0)), FPGACommand::SetInputs(0, 0, 1));
    assert_eq!(backend.flush_commands(), [FPGACommand::Capture, FPGACommand::GetOutupts]);
    let (blocks, msg) = backend.flush(Some(vec![0x01]));
    assert!(msg.is_none());
    assert_eq!(
        blocks,
        vec![(BlockPos::new(5, 0, 0), lamp(true)), (BlockPos::new(0, 0, 0), lever(true))]
    );
    assert_eq!(backend.on_use_block(BlockPos::new(0, 0, 0)), FPGACommand::SetInputs(0, 0, 0));
    assert_eq!(backend.on_use_block(BlockPos::new(9, 9, 9)), FPGACommand::SetInputs(0, 0, 0));
    assert_eq!(backend.set_rtps(10), FPGACommand::SetRTPS(10));
}

#[test]
fn repeated_flush_failures_stop_the_backend() {
    let mut backend = ready();
    backend.run();
    for _ in 0..9 {
        let (blocks, msg) = backend.flush(None);
        assert!(blocks.is_empty());
        assert!(msg.is_none());
        assert_eq!(backend.status, BackendStatus::Active);
    }
    let (_, msg) = backend.flush(None);
    assert_eq!(status_of(msg.unwrap()), ("roc".to_string(), BackendStatus::Stopped));
    assert_eq!(backend.status, BackendStatus::Stopped);
}

#[test]
fn a_good_flush_forgives_the_failures() {
    let mut backend = ready();
    backend.run();
    for _ in 0..9 {
        backend.flush(None);
    }
    assert_eq!(backend.failures, 9);
    backend.flush(Some(vec![0]));
    assert_eq!(backend.failures, 0);
    for _ in 0..9 {
        assert!(backend.flush(None).1.is_none());
    }
    assert_eq!(backend.status, BackendStatus::Active);
}

#[test]
fn host_ticks_do_nothing() {
    let mut backend = ready();
    backend.tick();
    backend.tickn(20);
    backend.inspect(BlockPos::new(0, 0, 0));
    backend.set_pressure_plate(BlockPos::new(0, 0, 0), true);
    assert!(!backend.has_pending_ticks());
    assert_eq!(backend.status, BackendStatus::Ready);
    assert_eq!(backend.link.inputs[0].state, 0);
}

#[test]
fn reset_gives_the_default_options() {
    let (mut backend, _) = Backend::new("roc".to_string(), CompilerOptions::parse("-u --fpga"));
    assert!(backend.reset());
    assert_eq!(backend.options(), &CompilerOptions::default());
    assert!(!backend.reset());
    assert_eq!(backend.backend(), BackendDispatcher::DirectBackend);
}

fn pool_of_one() -> FPGAScheduler {
    FPGAScheduler::from_configs(vec![DeviceConfig {
        name: "DE1-SoC".to_string(),
        device: "5CSEMA5F31C6".to_string(),
        family: "Cyclone V".to_string(),
        command_com: "COM3".to_string(),
        program_com: "USB-1".to_string(),
        pin_assignments: PinAssignments {
            i_clk: "AF14".to_string(),
            i_rx: "AC18".to_string(),
            i_rst: None,
            o_tx: "Y17".to_string(),
            o_debug: None,
            o_tick: None,
        },
    }])
}

#[test]
fn a_backend_runs_on_a_free_device_only() {
    let mut pool = pool_of_one();
    let mut first = ready();
    let mut second = ready();
    assert_eq!(status_of(first.run_on(&mut pool, (0, 0)).unwrap()), ("roc".to_string(), BackendStatus::Active));
    assert_eq!(pool.fpgas[0].get_owner(), Some((0, 0)));
    assert!(second.run_on(&mut pool, (1, 1)).is_none());
    assert_eq!(second.status, BackendStatus::Ready);
    assert_eq!(pool.fpgas[0].get_owner(), Some((0, 0)));
    assert_eq!(status_of(first.stop_on(&mut pool, (0, 0))), ("roc".to_string(), BackendStatus::Ready));
    assert_eq!(pool.fpgas[0].get_owner(), None);
    assert!(second.run_on(&mut pool, (1, 1)).is_some());
    assert_eq!(pool.fpgas[0].get_owner(), Some((1, 1)));
    // a backend that is not ready asks for no device
    let (mut fresh, _) = Backend::new("new".to_string(), CompilerOptions::fpga());
    let mut spare = pool_of_one();
    assert!(fresh.run_on(&mut spare, (2, 2)).is_none());
    assert_eq!(spare.fpgas[0].get_owner(), None);
}
