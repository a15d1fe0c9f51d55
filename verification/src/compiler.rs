//! Device profiles and the project file that the synthesizer is started with.

use vstd::prelude::*;
use crate::text::{
    chars_text, digits, lemma_append, push_decimal, push_signed, push_text, signed_digits, text,
};

verus! {

/// The pins of a device that the design is bound to.
#[derive(Debug)]
pub struct PinAssignments {
    pub i_clk: String,
    pub i_rx: String,
    pub i_rst: Option<String>,
    pub o_tx: String,
    pub o_debug: Option<String>,
    pub o_tick: Option<String>,
}

/// The profile of one device of the pool.
#[derive(Debug)]
pub struct DeviceConfig {
    pub name: String,
    pub device: String,
    pub family: String,
    /// The serial port that carries the commands.
    pub command_com: String,
    /// The port that the programmer uses.
    pub program_com: String,
    pub pin_assignments: PinAssignments,
}

/// What a run of the synthesizer gave.
#[derive(Clone, Copy, Debug, PartialEq, Eq, Structural)]
pub struct CompilerResults {
    pub state: bool,
}

/// What a run of the programmer gave.
#[derive(Clone, Copy, Debug, PartialEq, Eq, Structural)]
pub struct ProgramResults {
}

/// The state of the toolchain as the user sees it.
#[derive(Clone, Copy, Debug, PartialEq, Eq, Structural)]
pub enum CompilerStatus {
    Idle,
    Compiling,
    Programming,
    Failed,
}

impl Default for CompilerStatus {
    fn default() -> (status: CompilerStatus)
        ensures
            status == CompilerStatus::Idle,
    {
        CompilerStatus::Idle
    }
}

impl CompilerStatus {
    /// The status as coloured text for the scoreboard.
    pub fn to_str(self) -> (label: &'static str)
        ensures
            label@ == match self {
                CompilerStatus::Idle => "§aIdle"@,
                CompilerStatus::Compiling => "§eCompiling"@,
                CompilerStatus::Programming => "§9Programming"@,
                CompilerStatus::Failed => "§cStopped"@,
            },
    {
        match self {
            CompilerStatus::Idle => "§aIdle",
            CompilerStatus::Compiling => "§eCompiling",
            CompilerStatus::Programming => "§9Programming",
            CompilerStatus::Failed => "§cStopped",
        }
    }
}

fn clone_optional(pin: &Option<String>) -> (copy: Option<String>)
    ensures
        copy == *pin,
{
    match pin {
        Some(name) => Some(name.clone()),
        None => None,
    }
}

impl Clone for PinAssignments {
    fn clone(&self) -> (copy: PinAssignments)
        ensures
            copy == *self,
    {
        PinAssignments {
            i_clk: self.i_clk.clone(),
            i_rx: self.i_rx.clone(),
            i_rst: clone_optional(&self.i_rst),
            o_tx: self.o_tx.clone(),
            o_debug: clone_optional(&self.o_debug),
            o_tick: clone_optional(&self.o_tick),
        }
    }
}

impl Clone for DeviceConfig {
    fn clone(&self) -> (copy: DeviceConfig)
        ensures
            copy == *self,
    {
        DeviceConfig {
            name: self.name.clone(),
            device: self.device.clone(),
            family: self.family.clone(),
            command_com: self.command_com.clone(),
            program_com: self.program_com.clone(),
            pin_assignments: self.pin_assignments.clone(),
        }
    }
}

/// The opening of a project file: the project, its family and its device.
pub open spec fn project_head(family: Seq<char>, device: Seq<char>) -> Seq<u8> {
    text("package require ::quartus::project\nproject_new -overwrite -revision RoC RoC \n") + text(
        "set_global_assignment -name FAMILY \"",
    ) + chars_text(family) + text("\"\nset_global_assignment -name DEVICE ") + chars_text(device)
        + text("\n")
}

/// The fixed part of a project file: the top entity and the source modules.
pub open spec fn project_sources() -> Seq<u8> {
    text(
        "set_global_assignment -name TOP_LEVEL_ENTITY top\nset_global_assignment -name ORIGINAL_QUARTUS_VERSION 23.1STD.1\nset_global_assignment -name SYSTEMVERILOG_FILE ../../../../src/top.sv\nset_global_assignment -name SYSTEMVERILOG_FILE ../../../../src/interface/uart.sv\nset_global_assignment -name SYSTEMVERILOG_FILE ../../../../src/interface/clk_div.sv\nset_global_assignment -name SYSTEMVERILOG_FILE ../../../../src/interface/command_controller.sv\nset_global_assignment -name SYSTEMVERILOG_FILE ../redstone.sv\nset_global_assignment -name SYSTEMVERILOG_FILE ../../../../src/redstone/components.sv\nset_global_assignment -name SYSTEMVERILOG_FILE ../../../../src/redstone/tps_clk_div.sv\nset_global_assignment -name SOURCE_FILE ../../../../ip/tick_clk.cmp\nset_global_assignment -name QIP_FILE ../../../../ip/tick_clk.qip\nset_global_assignment -name SIP_FILE ../../../../ip/tick_clk.sip\n",
    )
}

/// The two parameters of the design: the widths of its output and input vectors.
pub open spec fn project_parameters(output_cnt: u32, input_cnt: u32) -> Seq<u8> {
    text("set_parameter -name ROC_OUTPUTS ") + digits(output_cnt as nat) + text(
        "\nset_parameter -name ROC_INPUTS ",
    ) + digits(input_cnt as nat) + text("\n")
}

/// The line that binds a port of the design to a pin.
pub open spec fn pin_line(pin: Seq<char>, port: &str) -> Seq<u8> {
    text("set_location_assignment PIN_") + chars_text(pin) + text(" -to ") + text(port) + text("\n")
}

/// The line of a pin that a device may lack: nothing where it is not assigned.
pub open spec fn optional_pin_line(pin: Option<String>, port: &str) -> Seq<u8> {
    match pin {
        Some(name) => pin_line(name@, port),
        None => Seq::empty(),
    }
}

/// The lines of all pins: receive, transmit and clock, then reset, tick and debug where
/// the device has them.
pub open spec fn project_pins(pins: PinAssignments) -> Seq<u8> {
    pin_line(pins.i_rx@, "i_RX") + pin_line(pins.o_tx@, "o_TX") + pin_line(pins.i_clk@, "i_clk") + optional_pin_line(pins.i_rst, "i_rst") + optional_pin_line(pins.o_tick, "o_tick")
        + optional_pin_line(pins.o_debug, "o_debug")
}

/// The project file of a device for a design with the given vector widths.
pub open spec fn project_text(config: DeviceConfig, output_cnt: u32, input_cnt: u32) -> Seq<u8> {
    project_head(config.family@, config.device@) + project_sources()
        + project_parameters(output_cnt, input_cnt) + project_pins(config.pin_assignments) + text(
        "export_assignments\nproject_close\n",
    )
}

#[verifier::rlimit(40)]
fn push_project_head(out: &mut Vec<u8>, family: &str, device: &str)
    ensures
        final(out)@ == old(out)@ + project_head(family@, device@),
{
    push_text(out, "package require ::quartus::project\nproject_new -overwrite -revision RoC RoC \n");
    push_text(out, "set_global_assignment -name FAMILY \"");
    push_text(out, family);
    push_text(out, "\"\nset_global_assignment -name DEVICE ");
    push_text(out, device);
    push_text(out, "\n");
    assert(out@ =~= old(out)@ + project_head(family@, device@));
}

#[verifier::rlimit(40)]
fn push_project_parameters(out: &mut Vec<u8>, output_cnt: u32, input_cnt: u32)
    ensures
        final(out)@ == old(out)@ + project_parameters(output_cnt, input_cnt),
{
    push_text(out, "set_parameter -name ROC_OUTPUTS ");
    push_decimal(out, output_cnt as u64);
    push_text(out, "\nset_parameter -name ROC_INPUTS ");
    push_decimal(out, input_cnt as u64);
    push_text(out, "\n");
    assert(out@ =~= old(out)@ + project_parameters(output_cnt, input_cnt));
}

#[verifier::rlimit(40)]
fn push_pin_line(out: &mut Vec<u8>, pin: &str, port: &str)
    ensures
        final(out)@ == old(out)@ + pin_line(pin@, port),
{
    push_text(out, "set_location_assignment PIN_");
    push_text(out, pin);
    push_text(out, " -to ");
    push_text(out, port);
    push_text(out, "\n");
    assert(out@ =~= old(out)@ + pin_line(pin@, port));
}

fn push_optional_pin(out: &mut Vec<u8>, pin: &Option<String>, port: &str)
    ensures
        final(out)@ == old(out)@ + optional_pin_line(*pin, port),
{
    match pin {
        Some(name) => push_pin_line(out, name.as_str(), port),
        None => {
            assert(out@ =~= old(out)@ + optional_pin_line(*pin, port));
        },
    }
}

fn push_project_pins(out: &mut Vec<u8>, pins: &PinAssignments)
    ensures
        final(out)@ == old(out)@ + project_pins(*pins),
{
    let ghost t1 = pin_line(pins.i_rx@, "i_RX");
    let ghost t2 = pin_line(pins.o_tx@, "o_TX");
    let ghost t3 = pin_line(pins.i_clk@, "i_clk");
    let ghost t4 = optional_pin_line(pins.i_rst, "i_rst");
    let ghost t5 = optional_pin_line(pins.o_tick, "o_tick");
    let ghost t6 = optional_pin_line(pins.o_debug, "o_debug");
    push_pin_line(out, pins.i_rx.as_str(), "i_RX");
    push_pin_line(out, pins.o_tx.as_str(), "o_TX");
    push_pin_line(out, pins.i_clk.as_str(), "i_clk");
    push_optional_pin(out, &pins.i_rst, "i_rst");
    push_optional_pin(out, &pins.o_tick, "o_tick");
    push_optional_pin(out, &pins.o_debug, "o_debug");
    proof {
        lemma_append(old(out)@, t1, t2);
        lemma_append(old(out)@, t1 + t2, t3);
        lemma_append(old(out)@, t1 + t2 + t3, t4);
        lemma_append(old(out)@, t1 + t2 + t3 + t4, t5);
        lemma_append(old(out)@, t1 + t2 + t3 + t4 + t5, t6);
    }
}

impl DeviceConfig {
    /// Writes the project file for a design with `output_cnt` output bits and `input_cnt`
    /// input bits: family and device, the source modules, the two parameters, and the pins.
    pub fn create_project(&self, output_cnt: u32, input_cnt: u32) -> (tcl: Vec<u8>)
        ensures
            tcl@ == project_text(*self, output_cnt, input_cnt),
    {
        let mut out: Vec<u8> = Vec::new();
        let ghost t1 = project_head(self.family@, self.device@);
        let ghost t2 = project_sources();
        let ghost t3 = project_parameters(output_cnt, input_cnt);
        let ghost t4 = project_pins(self.pin_assignments);
        let ghost t5 = text("export_assignments\nproject_close\n");
        push_project_head(&mut out, self.family.as_str(), self.device.as_str());
        push_text(
            &mut out,
            "set_global_assignment -name TOP_LEVEL_ENTITY top\nset_global_assignment -name ORIGINAL_QUARTUS_VERSION 23.1STD.1\nset_global_assignment -name SYSTEMVERILOG_FILE ../../../../src/top.sv\nset_global_assignment -name SYSTEMVERILOG_FILE ../../../../src/interface/uart.sv\nset_global_assignment -name SYSTEMVERILOG_FILE ../../../../src/interface/clk_div.sv\nset_global_assignment -name SYSTEMVERILOG_FILE ../../../../src/interface/command_controller.sv\nset_global_assignment -name SYSTEMVERILOG_FILE ../redstone.sv\nset_global_assignment -name SYSTEMVERILOG_FILE ../../../../src/redstone/components.sv\nset_global_assignment -name SYSTEMVERILOG_FILE ../../../../src/redstone/tps_clk_div.sv\nset_global_assignment -name SOURCE_FILE ../../../../ip/tick_clk.cmp\nset_global_assignment -name QIP_FILE ../../../../ip/tick_clk.qip\nset_global_assignment -name SIP_FILE ../../../../ip/tick_clk.sip\n",
        );
        push_project_parameters(&mut out, output_cnt, input_cnt);
        push_project_pins(&mut out, &self.pin_assignments);
        push_text(&mut out, "export_assignments\nproject_close\n");
        proof {
            let empty = Seq::<u8>::empty();
            assert(empty + t1 =~= t1);
            lemma_append(empty, t1, t2);
            lemma_append(empty, t1 + t2, t3);
            lemma_append(empty, t1 + t2 + t3, t4);
            lemma_append(empty, t1 + t2 + t3 + t4, t5);
            assert(empty + (t1 + t2 + t3 + t4 + t5) =~= t1 + t2 + t3 + t4 + t5);
        }
        out
    }
}


/// The directory that holds the files of one backend of a plot:
/// `FPGA/bin/{plot_x},{plot_z}/{name}`.
pub open spec fn backend_dir(plot: (i32, i32), name: Seq<char>) -> Seq<u8> {
    text("FPGA/bin/") + signed_digits(plot.0 as int) + text(",") + signed_digits(plot.1 as int) + text(
        "/",
    ) + chars_text(name)
}

/// Writes the directory of a backend.
pub fn backend_directory(plot: (i32, i32), name: &str) -> (path: Vec<u8>)
    ensures
        path@ == backend_dir(plot, name@),
{
    let mut out: Vec<u8> = Vec::new();
    push_text(&mut out, "FPGA/bin/");
    push_signed(&mut out, plot.0);
    push_text(&mut out, ",");
    push_signed(&mut out, plot.1);
    push_text(&mut out, "/");
    push_text(&mut out, name);
    assert(out@ =~= backend_dir(plot, name@));
    out
}

/// The two forms of a bitstream.
#[derive(Clone, Copy, Debug, PartialEq, Eq, Structural)]
pub enum BitstreamKind {
    Sof,
    Bit,
}

/// The path of the bitstream of a backend: `RoC.sof` or `RoC.bit` in its directory.
pub open spec fn bitstream_file(plot: (i32, i32), name: Seq<char>, kind: BitstreamKind) -> Seq<u8> {
    backend_dir(plot, name) + match kind {
        BitstreamKind::Sof => text("/RoC.sof"),
        BitstreamKind::Bit => text("/RoC.bit"),
    }
}

/// Writes the path of the bitstream of a backend.
pub fn bitstream_path(plot: (i32, i32), name: &str, kind: BitstreamKind) -> (path: Vec<u8>)
    ensures
        path@ == bitstream_file(plot, name@, kind),
{
    let mut out = backend_directory(plot, name);
    match kind {
        BitstreamKind::Sof => push_text(&mut out, "/RoC.sof"),
        BitstreamKind::Bit => push_text(&mut out, "/RoC.bit"),
    }
    out
}

/// Writes the path of the link file of a backend: `link.json` in its directory.
pub fn link_file_path(plot: (i32, i32), name: &str) -> (path: Vec<u8>)
    ensures
        path@ == backend_dir(plot, name@) + text("/link.json"),
{
    let mut out = backend_directory(plot, name);
    push_text(&mut out, "/link.json");
    out
}

} // verus!
