# cpu_instruction_sim

An 8086 instruction decoder and simulator, verified with Verus.

- `src/decode.rs`: the register and memory-operand tables, the opcode table,
  the text of each decoded instruction, and one decoding step that can also
  run register moves and arithmetic on the processor model.
- `src/cpu_sim.rs`: the register file and flags, the `mov`, `add`, `sub` and
  `cmp` commands, and the laws of register reads and writes.
- `src/args.rs`: reading the command line options.
- `src/text.rs`: digits, padding and signed decimals.
- `src/cycles_stats.rs`: labelled cycle counts.
- `app/main.rs`: the program: arguments, reading the file, printing, and the
  time-stamp counter.

Usage: `cpu-instruction-sim binary_path [--sim | --dis] [--debug] [--help]`.
