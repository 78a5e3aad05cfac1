//! An 8086 instruction decoder and simulator: it turns machine code into
//! assembly text and can run register moves and arithmetic on a model of the
//! processor's registers and flags.

pub mod args;
pub mod cpu_sim;
pub mod cycles_stats;
pub mod decode;
pub mod text;
