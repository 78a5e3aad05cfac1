//! The command line: what to do with the program file, read from the
//! arguments.
use vstd::prelude::*;

verus! {

/// Whether the program is only disassembled, or also run.
#[derive(Clone, Copy, PartialEq, Eq, Structural, Debug)]
pub enum AppMode {
    Simulation,
    Disassembly,
}

/// What to do: the mode, the path of the program file, and whether each
/// instruction's position and bytes are shown too.
pub struct ProgramArgs {
    pub command: AppMode,
    pub file_path: String,
    pub debug: bool,
}

/// The result of reading the arguments: run with the given settings, show
/// the usage (`--help`), or stop at an argument that is not known.
pub enum ArgsOutcome {
    Run(ProgramArgs),
    Help,
    Unknown(String),
}

/// Where reading the options stands after some of them: still going with a
/// mode and a debug setting, stopped at `--help`, or stopped at the unknown
/// option at the given position.
pub enum ArgsState {
    Going { mode: AppMode, debug: bool },
    Help,
    Unknown(int),
}

/// The state after reading the options `args[2..n]` in order: `--sim` and
/// `--dis` set the mode (the last one wins, disassembly by default), `--debug`
/// turns debugging on, `--help` stops, and any other argument stops as unknown.
pub open spec fn scan_args(args: Seq<Seq<char>>, n: int) -> ArgsState
    decreases n,
{
    if n <= 2 {
        ArgsState::Going { mode: AppMode::Disassembly, debug: false }
    } else {
        match scan_args(args, n - 1) {
            ArgsState::Going { mode, debug } => {
                let a = args[n - 1];
                if a == "--sim"@ {
                    ArgsState::Going { mode: AppMode::Simulation, debug }
                } else if a == "--dis"@ {
                    ArgsState::Going { mode: AppMode::Disassembly, debug }
                } else if a == "--help"@ {
                    ArgsState::Help
                } else if a == "--debug"@ {
                    ArgsState::Going { mode, debug: true }
                } else {
                    ArgsState::Unknown(n - 1)
                }
            },
            other => other,
        }
    }
}

/// Once reading the options has stopped, the later options change nothing.
pub proof fn lemma_scan_stays_stopped(args: Seq<Seq<char>>, k: int, n: int)
    requires
        k <= n,
        !(scan_args(args, k) is Going),
    ensures
        scan_args(args, n) == scan_args(args, k),
    decreases n - k,
{
    if k < n {
        lemma_scan_stays_stopped(args, k, n - 1);
    }
}

/// The arguments as character sequences.
pub open spec fn args_view(args: Seq<String>) -> Seq<Seq<char>> {
    args.map_values(|a: String| a@)
}

/// Reads the arguments `program file [options]` (see `scan_args`); the file is
/// the second argument.
pub fn parse_args(args: &Vec<String>) -> (r: ArgsOutcome)
    requires
        args@.len() >= 2,
    ensures
        match scan_args(args_view(args@), args@.len() as int) {
            ArgsState::Going { mode, debug } => r matches ArgsOutcome::Run(p) && p.command == mode
                && p.debug == debug && p.file_path@ == args@[1]@,
            ArgsState::Help => r is Help,
            ArgsState::Unknown(i) => r matches ArgsOutcome::Unknown(a) && 2 <= i < args@.len()
                && a@ == args@[i]@,
        },
{
    let ghost view = args_view(args@);
    let file_path = args[1].clone();
    let mut app_command = AppMode::Disassembly;
    let mut debugging = false;
    let sim = String::from_str("--sim");
    let dis = String::from_str("--dis");
    let help = String::from_str("--help");
    let debug = String::from_str("--debug");
    let mut i: usize = 2;
    while i < args.len()
        invariant
            2 <= i <= args@.len(),
            view == args_view(args@),
            sim@ == "--sim"@,
            dis@ == "--dis"@,
            help@ == "--help"@,
            debug@ == "--debug"@,
            file_path@ == args@[1]@,
            scan_args(view, i as int) == (ArgsState::Going { mode: app_command, debug: debugging }),
        decreases args@.len() - i,
    {
        assert(view[i as int] == args@[i as int]@);
        if args[i] == sim {
            app_command = AppMode::Simulation;
        } else if args[i] == dis {
            app_command = AppMode::Disassembly;
        } else if args[i] == help {
            proof {
                lemma_scan_stays_stopped(view, i + 1, args@.len() as int);
            }
            return ArgsOutcome::Help;
        } else if args[i] == debug {
            debugging = true;
        } else {
            let unknown = args[i].clone();
            proof {
                lemma_scan_stays_stopped(view, i + 1, args@.len() as int);
            }
            return ArgsOutcome::Unknown(unknown);
        }
        i += 1;
    }
    ArgsOutcome::Run(ProgramArgs { command: app_command, file_path, debug: debugging })
}

} // verus!
