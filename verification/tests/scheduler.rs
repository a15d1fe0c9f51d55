use redstone_fpga::compiler::{
    backend_directory, bitstream_path, link_file_path, BitstreamKind, CompilerResults, CompilerStatus,
    DeviceConfig, PinAssignments,
};
use redstone_fpga::scheduler::FPGAScheduler;

fn config(name: &str) -> DeviceConfig {
    DeviceConfig {
        name: name.to_string(),
        device: "5CSEMA5F31C6".to_string(),
        family: "Cyclone V".to_string(),
        command_com: "COM3".to_string(),
        program_com: "USB-1".to_string(),
        pin_assignments: PinAssignments {
            i_clk: "AF14".to_string(),
            i_rx: "AC18".to_string(),
            i_rst: Some("AA14".to_string()),
            o_tx: "Y17".to_string(),
            o_debug: None,
            o_tick: Some("V16".to_string()),
        },
    }
}

#[test]
fn scheduler_contention() {
    let mut pool = FPGAScheduler::from_configs(vec![config("DE1-SoC")]);
    let a = (0, 0);
    let b = (1, -2);
    assert!(pool.lock(a));
    assert!(!pool.lock(b));
    assert_eq!(pool.fpgas[0].get_owner(), Some(a));
    pool.free(a);
    assert_eq!(pool.fpgas[0].get_owner(), None);
    assert!(pool.lock(b));
    assert_eq!(pool.fpgas[0].get_owner(), Some(b));
}

#[test]
fn lock_is_first_fit_and_never_preempts() {
    let mut pool = FPGAScheduler::from_configs(vec![config("a"), config("b"), config("c")]);
    assert!(pool.lock((1, 1)));
    assert!(pool.lock((2, 2)));
    pool.free((1, 1));
    assert!(pool.lock((3, 3)));
    let owners: Vec<Option<(i32, i32)>> = pool.fpgas.iter().map(|f| f.get_owner()).collect();
    assert_eq!(owners, vec![Some((3, 3)), Some((2, 2)), None]);
    assert!(pool.lock((4, 4)));
    assert!(!pool.lock((5, 5)));
    let owners: Vec<Option<(i32, i32)>> = pool.fpgas.iter().map(|f| f.get_owner()).collect();
    assert_eq!(owners, vec![Some((3, 3)), Some((2, 2)), Some((4, 4))]);
}

#[test]
fn free_releases_every_device_of_the_plot() {
    let mut pool = FPGAScheduler::from_configs(vec![config("a"), config("b"), config("c")]);
    assert!(pool.lock((7, 7)));
    assert!(pool.lock((9, 9)));
    assert!(pool.lock((7, 7)));
    pool.free((8, 8));
    let owners: Vec<Option<(i32, i32)>> = pool.fpgas.iter().map(|f| f.get_owner()).collect();
    assert_eq!(owners, vec![Some((7, 7)), Some((9, 9)), Some((7, 7))]);
    pool.free((7, 7));
    let owners: Vec<Option<(i32, i32)>> = pool.fpgas.iter().map(|f| f.get_owner()).collect();
    assert_eq!(owners, vec![None, Some((9, 9)), None]);
    assert_eq!(pool.fpgas[0].config.name, "a");
    assert_eq!(pool.fpgas[2].config.name, "c");
}

#[test]
fn empty_pool_has_nothing_to_lock() {
    let mut pool = FPGAScheduler::from_configs(Vec::new());
    assert!(!pool.lock((0, 0)));
    pool.free((0, 0));
    assert!(pool.fpgas.is_empty());
}

#[test]
fn config_of_the_first_device() {
    let pool = FPGAScheduler::from_configs(vec![config("first"), config("second")]);
    let got = pool.get_config();
    assert_eq!(got.name, "first");
    assert_eq!(got.pin_assignments.i_rst, Some("AA14".to_string()));
    assert_eq!(got.pin_assignments.o_debug, None);
    assert_eq!(pool.fpgas[1].config.name, "second");
}

#[test]
fn project_file() {
    let tcl = String::from_utf8(config("DE1-SoC").create_project(7, 2)).unwrap();
    let expected = "package require ::quartus::project
project_new -overwrite -revision RoC RoC 
set_global_assignment -name FAMILY \"Cyclone V\"
set_global_assignment -name DEVICE 5CSEMA5F31C6
set_global_assignment -name TOP_LEVEL_ENTITY top
set_global_assignment -name ORIGINAL_QUARTUS_VERSION 23.1STD.1
set_global_assignment -name SYSTEMVERILOG_FILE ../../../../src/top.sv
set_global_assignment -name SYSTEMVERILOG_FILE ../../../../src/interface/uart.sv
set_global_assignment -name SYSTEMVERILOG_FILE ../../../../src/interface/clk_div.sv
set_global_assignment -name SYSTEMVERILOG_FILE ../../../../src/interface/command_controller.sv
set_global_assignment -name SYSTEMVERILOG_FILE ../redstone.sv
set_global_assignment -name SYSTEMVERILOG_FILE ../../../../src/redstone/components.sv
set_global_assignment -name SYSTEMVERILOG_FILE ../../../../src/redstone/tps_clk_div.sv
set_global_assignment -name SOURCE_FILE ../../../../ip/tick_clk.cmp
set_global_assignment -name QIP_FILE ../../../../ip/tick_clk.qip
set_global_assignment -name SIP_FILE ../../../../ip/tick_clk.sip
set_parameter -name ROC_OUTPUTS 7
set_parameter -name ROC_INPUTS 2
set_location_assignment PIN_AC18 -to i_RX
set_location_assignment PIN_Y17 -to o_TX
set_location_assignment PIN_AF14 -to i_clk
set_location_assignment PIN_AA14 -to i_rst
set_location_assignment PIN_V16 -to o_tick
export_assignments
project_close
";
    assert_eq!(tcl, expected);
}

#[test]
fn project_file_without_optional_pins() {
    let mut plain = config("plain");
    plain.pin_assignments.i_rst = None;
    plain.pin_assignments.o_tick = None;
    plain.pin_assignments.o_debug = Some("W15".to_string());
    let tcl = String::from_utf8(plain.create_project(0, 4294967295)).unwrap();
    assert!(tcl.contains("set_parameter -name ROC_OUTPUTS 0\nset_parameter -name ROC_INPUTS 4294967295\n"));
    assert!(tcl.ends_with("set_location_assignment PIN_AF14 -to i_clk\nset_location_assignment PIN_W15 -to o_debug\nexport_assignments\nproject_close\n"));
    assert!(!tcl.contains("i_rst"));
    assert!(!tcl.contains("o_tick"));
}

#[test]
fn compiler_status_labels() {
    assert_eq!(CompilerStatus::Idle.to_str(), "§aIdle");
    assert_eq!(CompilerStatus::Compiling.to_str(), "§eCompiling");
    assert_eq!(CompilerStatus::Programming.to_str(), "§9Programming");
    assert_eq!(CompilerStatus::Failed.to_str(), "§cStopped");
    assert_eq!(CompilerStatus::default(), CompilerStatus::Idle);
    assert!(CompilerResults { state: true }.state);
}

#[test]
fn artefact_paths() {
    assert_eq!(backend_directory((0, 0), "adder"), b"FPGA/bin/0,0/adder".to_vec());
    assert_eq!(bitstream_path((3, -12), "roc", BitstreamKind::Sof), b"FPGA/bin/3,-12/roc/RoC.sof".to_vec());
    assert_eq!(bitstream_path((-1, 7), "roc", BitstreamKind::Bit), b"FPGA/bin/-1,7/roc/RoC.bit".to_vec());
    assert_eq!(link_file_path((i32::MIN, i32::MAX), "x"), b"FPGA/bin/-2147483648,2147483647/x/link.json".to_vec());
}
