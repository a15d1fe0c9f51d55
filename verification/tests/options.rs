use redstone_fpga::options::{BackendVariant, CompilerOptions};

#[test]
fn parse_long_flags() {
    let co = CompilerOptions::parse("--optimize --export --io-only --update --export-dot --wire-dot-out --selection --fpga --compile");
    assert_eq!(
        co,
        CompilerOptions {
            optimize: true,
            export: true,
            io_only: true,
            update: true,
            export_dot_graph: true,
            wire_dot_out: true,
            selection: true,
            compile_verilog: true,
            backend_variant: BackendVariant::FPGA,
        }
    );
}

#[test]
fn parse_clustered_short_flags() {
    let co = CompilerOptions::parse("-iou");
    assert!(co.io_only && co.optimize && co.update);
    assert!(!co.export && !co.selection && !co.wire_dot_out && !co.compile_verilog && !co.export_dot_graph);
    assert_eq!(co.backend_variant, BackendVariant::Direct);
    let co = CompilerOptions::parse("  -E\t-dS \n-Fc ");
    assert!(co.export && co.wire_dot_out && co.selection && co.compile_verilog);
    assert!(!co.optimize && !co.io_only && !co.update);
    assert_eq!(co.backend_variant, BackendVariant::FPGA);
}

#[test]
fn parse_passes_over_unknown_flags() {
    assert_eq!(CompilerOptions::parse(""), CompilerOptions::default());
    assert_eq!(CompilerOptions::parse("   "), CompilerOptions::default());
    assert_eq!(CompilerOptions::parse("--nothing -xyz optimize - --"), CompilerOptions::default());
    assert_eq!(CompilerOptions::parse("--optimized --Optimize --export-dots"), CompilerOptions::default());
    let co = CompilerOptions::parse("-xoz --what --update");
    assert!(co.optimize && co.update);
    assert!(!co.export);
    // a long flag does not read as a cluster
    let co = CompilerOptions::parse("--ou");
    assert_eq!(co, CompilerOptions::default());
}

#[test]
fn fpga_defaults() {
    let co = CompilerOptions::fpga();
    assert_eq!(co.backend_variant, BackendVariant::FPGA);
    assert!(co.compile_verilog && co.io_only && co.optimize && co.selection);
    assert!(!co.export && !co.update && !co.export_dot_graph && !co.wire_dot_out);
    assert_eq!(co, CompilerOptions::parse("-fcios"));
}

#[test]
fn option_lines() {
    let co = CompilerOptions::parse("-o --selection --export-dot");
    assert_eq!(co.to_str_vec(), vec!["    §3- optimize".to_string(), "    §3- selection only".to_string()]);
    let all = CompilerOptions::parse("-oeiuds");
    assert_eq!(
        all.to_str_vec(),
        vec![
            "    §3- optimize".to_string(),
            "    §3- export".to_string(),
            "    §3- io only".to_string(),
            "    §3- update".to_string(),
            "    §3- wire dot out".to_string(),
            "    §3- selection only".to_string(),
        ]
    );
    assert!(CompilerOptions::fpga().to_str_vec().is_empty());
    assert!(CompilerOptions::default().to_str_vec().is_empty());
}

#[test]
fn every_white_space_separates_options() {
    let co = CompilerOptions::parse("--optimize\u{a0}--export\u{2003}-i\u{3000}--update\u{85}-s");
    assert!(co.optimize && co.export && co.io_only && co.update && co.selection);
    assert!(!co.compile_verilog);
    // a zero-width space is no white space: the token is one unknown flag
    let co = CompilerOptions::parse("--optimize\u{200b}--export");
    assert_eq!(co, CompilerOptions::default());
}

#[test]
fn what_was_passed_over_is_reported() {
    let line = "--optimize --what -xoZ plain -- - é--fpga";
    let (co, skipped) = CompilerOptions::parse_reporting(line);
    assert!(co.optimize);
    assert_eq!(co.backend_variant, BackendVariant::Direct);
    let chars: Vec<char> = line.chars().collect();
    let texts: Vec<String> = skipped.iter().map(|&(a, e)| chars[a..e].iter().collect()).collect();
    assert_eq!(texts, vec!["--what", "x", "Z", "plain", "--", "é--fpga"]);
    assert_eq!(skipped[0], (11, 17));
    let (co, skipped) = CompilerOptions::parse_reporting("-iou --compile\t--fpga");
    assert_eq!(co, CompilerOptions::parse("-iou --compile --fpga"));
    assert!(skipped.is_empty());
    assert!(CompilerOptions::parse_reporting("").1.is_empty());
}
