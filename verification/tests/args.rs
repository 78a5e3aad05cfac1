use cpu_instruction_sim::args::{parse_args, AppMode, ArgsOutcome};
use cpu_instruction_sim::cycles_stats::CyclesStat;
use cpu_instruction_sim::text::{push_decimal, push_digits, push_padded, push_signed_decimal};

fn args(list: &[&str]) -> Vec<String> {
    list.iter().map(|s| s.to_string()).collect()
}

#[test]
fn default_is_disassembly_without_debug() {
    match parse_args(&args(&["sim", "prog.bin"])) {
        ArgsOutcome::Run(p) => {
            assert_eq!(p.command, AppMode::Disassembly);
            assert_eq!(p.file_path, "prog.bin");
            assert!(!p.debug);
        },
        _ => panic!("expected a run"),
    }
}

#[test]
fn last_mode_wins_and_debug_is_kept() {
    match parse_args(&args(&["sim", "a", "--dis", "--debug", "--sim"])) {
        ArgsOutcome::Run(p) => {
            assert_eq!(p.command, AppMode::Simulation);
            assert!(p.debug);
        },
        _ => panic!("expected a run"),
    }
    match parse_args(&args(&["sim", "a", "--sim", "--dis"])) {
        ArgsOutcome::Run(p) => assert_eq!(p.command, AppMode::Disassembly),
        _ => panic!("expected a run"),
    }
}

#[test]
fn help_and_unknown_stop_reading() {
    assert!(matches!(parse_args(&args(&["sim", "a", "--help", "--bogus"])), ArgsOutcome::Help));
    match parse_args(&args(&["sim", "a", "--debug", "--bogus", "--help"])) {
        ArgsOutcome::Unknown(a) => assert_eq!(a, "--bogus"),
        _ => panic!("expected an unknown argument"),
    }
}

#[test]
fn cycles_stat_keeps_label_and_count() {
    let c = CyclesStat::new("args read", 42);
    assert_eq!(c.label, "args read");
    assert_eq!(c.cycles, 42);
}

#[test]
fn number_text() {
    let mut s = String::new();
    push_digits(&mut s, 255, 16, false);
    assert_eq!(s, "ff");
    let mut s = String::new();
    push_padded(&mut s, 10, 16, false, 4);
    assert_eq!(s, "000a");
    let mut s = String::new();
    push_padded(&mut s, 5, 2, true, 8);
    assert_eq!(s, "00000101");
    let mut s = String::new();
    push_padded(&mut s, 0x123, 16, true, 2);
    assert_eq!(s, "123");
    let mut s = String::new();
    push_decimal(&mut s, -32768);
    assert_eq!(s, "-32768");
    let mut s = String::new();
    push_decimal(&mut s, 0);
    assert_eq!(s, "0");
    let mut s = String::new();
    push_signed_decimal(&mut s, 0);
    assert_eq!(s, "+0");
    let mut s = String::new();
    push_signed_decimal(&mut s, -7);
    assert_eq!(s, "-7");
}
