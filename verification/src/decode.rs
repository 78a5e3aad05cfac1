//! Decoding of 8086 machine code: the lookup tables, the opcode patterns,
//! the text of each decoded instruction, and one decoding step that can also
//! run the instruction on a processor.
use std::collections::HashMap;
use vstd::prelude::*;
use crate::args::AppMode;
use crate::cpu_sim::{
    join, AnyCommand, Command, CommandImpl, CpuView, ImmediateOp, Instruction, Register, RegisterOp,
    CPU8086,
};
use crate::text::{
    decimal, push_decimal, push_padded, push_signed_decimal, radix_digits, signed_decimal,
    zero_pad,
};

verus! {

broadcast use vstd::std_specs::hash::group_hash_axioms;

/// `mod` field value (bits 7..6 of the second byte): memory without
/// displacement, or a direct address when `r/m` is 6.
pub const DIRECT_ADDRESS_MOD: u8 = 0x00;

/// `mod` field value: memory with an 8-bit displacement.
pub const D8_MOD: u8 = 0x40;

/// `mod` field value: memory with a 16-bit displacement.
pub const D16_MOD: u8 = 0x80;

/// `mod` field value: register to register.
pub const MOD11: u8 = 0xC0;

/// The register that `mod11_registers_table` gives for a key made of the `w`
/// bit (bit 3) and a 3-bit register field.
pub open spec fn mod11_register(key: u8) -> Register {
    if key == 0x00 { Register::AL }
    else if key == 0x01 { Register::CL }
    else if key == 0x02 { Register::DL }
    else if key == 0x03 { Register::BL }
    else if key == 0x04 { Register::AH }
    else if key == 0x05 { Register::CH }
    else if key == 0x06 { Register::DH }
    else if key == 0x07 { Register::BH }
    else if key == 0x08 { Register::AX }
    else if key == 0x09 { Register::CX }
    else if key == 0x0A { Register::DX }
    else if key == 0x0B { Register::BX }
    else if key == 0x0C { Register::SP }
    else if key == 0x0D { Register::BP }
    else if key == 0x0E { Register::SI }
    else { Register::DI }
}

/// The register table: keys 0 to 15, each mapped by `mod11_register`.
pub open spec fn mod11_table() -> Map<u8, Register> {
    Map::new(|k: u8| k < 16, |k: u8| mod11_register(k))
}

/// Maps `0000 w rrr` (the `w` bit and a 3-bit register field) to the
/// register it names: byte registers for `w = 0`, word registers for `w = 1`.
pub fn mod11_registers_table() -> (table: HashMap<u8, Register>)
    ensures
        table@ == mod11_table(),
{
    let mut table: HashMap<u8, Register> = HashMap::new();

    // W = 0
    table.insert(0x00, Register::AL);
    table.insert(0x01, Register::CL);
    table.insert(0x02, Register::DL);
    table.insert(0x03, Register::BL);
    table.insert(0x04, Register::AH);
    table.insert(0x05, Register::CH);
    table.insert(0x06, Register::DH);
    table.insert(0x07, Register::BH);

    // W = 1
    table.insert(0x08, Register::AX);
    table.insert(0x09, Register::CX);
    table.insert(0x0A, Register::DX);
    table.insert(0x0B, Register::BX);
    table.insert(0x0C, Register::SP);
    table.insert(0x0D, Register::BP);
    table.insert(0x0E, Register::SI);
    table.insert(0x0F, Register::DI);
    assert(table@ =~= mod11_table());
    table
}

/// The keys of the memory-operand table: `mod` (0 to 2) in the high nibble
/// and `r/m` (0 to 7) in the low nibble.
pub open spec fn reg_mem_key(k: u8) -> bool {
    k < 0x08 || (0x10 <= k && k < 0x18) || (0x20 <= k && k < 0x28)
}

/// The address expression for a memory-operand key: the registers that
/// `r/m` adds, with `r/m = 6` a direct address under `mod 00` and `BP` otherwise.
pub open spec fn reg_mem_text(k: u8) -> Seq<char> {
    let rm = k % 8;
    if rm == 0 { "BX + SI"@ }
    else if rm == 1 { "BX + DI"@ }
    else if rm == 2 { "BP + SI"@ }
    else if rm == 3 { "BP + DI"@ }
    else if rm == 4 { "SI"@ }
    else if rm == 5 { "DI"@ }
    else if rm == 6 { if k < 0x10 { "DIRECT ADDRESS"@ } else { "BP"@ } }
    else { "BX"@ }
}

/// `m` is the memory-operand table: exactly the keys of `reg_mem_key`, each
/// holding the text of `reg_mem_text`.
pub open spec fn is_reg_mem_table(m: Map<u8, String>) -> bool {
    &&& forall|k: u8| #[trigger] m.contains_key(k) <==> reg_mem_key(k)
    &&& forall|k: u8| reg_mem_key(k) ==> (#[trigger] m[k])@ == reg_mem_text(k)
}

/// Maps `mod` (0 to 2, high nibble) and `r/m` (low nibble) to the address
/// expression of a memory operand.
pub fn reg_mem_registers_table() -> (table: HashMap<u8, String>)
    ensures
        is_reg_mem_table(table@),
{
    let mut table = HashMap::new();

    // MOD 00
    table.insert(0x00, String::from_str("BX + SI"));
    table.insert(0x01, String::from_str("BX + DI"));
    table.insert(0x02, String::from_str("BP + SI"));
    table.insert(0x03, String::from_str("BP + DI"));
    table.insert(0x04, String::from_str("SI"));
    table.insert(0x05, String::from_str("DI"));
    table.insert(0x06, String::from_str("DIRECT ADDRESS"));
    table.insert(0x07, String::from_str("BX"));

    // MOD 01 + D8
    table.insert(0x10, String::from_str("BX + SI"));
    table.insert(0x11, String::from_str("BX + DI"));
    table.insert(0x12, String::from_str("BP + SI"));
    table.insert(0x13, String::from_str("BP + DI"));
    table.insert(0x14, String::from_str("SI"));
    table.insert(0x15, String::from_str("DI"));
    table.insert(0x16, String::from_str("BP"));
    table.insert(0x17, String::from_str("BX"));

    // MOD 02 + D16
    table.insert(0x20, String::from_str("BX + SI"));
    table.insert(0x21, String::from_str("BX + DI"));
    table.insert(0x22, String::from_str("BP + SI"));
    table.insert(0x23, String::from_str("BP + DI"));
    table.insert(0x24, String::from_str("SI"));
    table.insert(0x25, String::from_str("DI"));
    table.insert(0x26, String::from_str("BP"));
    table.insert(0x27, String::from_str("BX"));

    assert forall|k: u8| #[trigger] table@.contains_key(k) <==> reg_mem_key(k) by {}
    assert forall|k: u8| reg_mem_key(k) implies (#[trigger] table@[k])@ == reg_mem_text(k) by {}
    table
}

/// The little-endian word made of `low` then `high`.
pub fn d16_displacement(low: u8, high: u8) -> (r: u16)
    ensures
        r == join(high, low),
        r == low + 256 * high,
{
    assert(((low as u16) & 0x00FF) ^ ((high as u16) << 8) == join(high, low)) by (bit_vector);
    assert(join(high, low) == low + 256 * high) by (bit_vector);
    ((low as u16) & 0x00FF) ^ ((high as u16) << 8)
}

/// The little-endian word made of `low` then `high`, read as signed.
pub fn d16_signed_displacement(low: u8, high: u8) -> (r: i16)
    ensures
        r == join(high, low) as i16,
{
    d16_displacement(low, high) as i16
}

/// The byte sign-extended to 16 bits: the byte read as a signed value.
pub fn d8_signed_extended(low: u8) -> (r: i16)
    ensures
        r == (low as i8) as int,
{
    (low as i8) as i16
}

/// The encodings that the decoder tells apart.
#[derive(Clone, Copy, PartialEq, Eq, Structural, Hash, Debug)]
pub enum InstType {
    RegMem,
    ImmediateRegMem,
    ImmediateReg,
    MemAcc,
    AccMem,
    ImmediateToAcc,
    ToLabel,
}

/// The opcode patterns of one encoding: the first `(mask, opcode)` pair is
/// tested on the first byte, a second pair, where present, on the second byte.
pub struct InstDecoder {
    pub inst_type: InstType,
    pub patterns: Vec<(u8, u8)>,
}

impl View for InstDecoder {
    type V = (InstType, Seq<(u8, u8)>);

    open spec fn view(&self) -> (InstType, Seq<(u8, u8)>) {
        (self.inst_type, self.patterns@)
    }
}

/// The encodings of one command, in the order in which they are tried.
pub struct CommandDecoders {
    pub command: Command,
    pub decoders: Vec<InstDecoder>,
}

impl View for CommandDecoders {
    type V = (Command, Seq<(InstType, Seq<(u8, u8)>)>);

    open spec fn view(&self) -> (Command, Seq<(InstType, Seq<(u8, u8)>)>) {
        (self.command, self.decoders@.map_values(|d: InstDecoder| d@))
    }
}

/// The commands with their encodings, in the order in which they are tried.
pub struct CommandsMap {
    pub entries: Vec<CommandDecoders>,
}

impl View for CommandsMap {
    type V = Seq<(Command, Seq<(InstType, Seq<(u8, u8)>)>)>;

    open spec fn view(&self) -> Seq<(Command, Seq<(InstType, Seq<(u8, u8)>)>)> {
        self.entries@.map_values(|e: CommandDecoders| e@)
    }
}

/// A command that has only a jump to a label, with its one-byte opcode.
pub open spec fn label_entry(c: Command, opcode: u8) -> (Command, Seq<(InstType, Seq<(u8, u8)>)>) {
    (c, seq![(InstType::ToLabel, seq![(0xFFu8, opcode)])])
}

/// The opcode table of the decoder.
pub open spec fn commands_table() -> Seq<(Command, Seq<(InstType, Seq<(u8, u8)>)>)> {
    seq![
        (Command::MOV, seq![
            (InstType::RegMem, seq![(0xFCu8, 0x88u8)]),
            (InstType::ImmediateRegMem, seq![(0xFEu8, 0xC6u8)]),
            (InstType::ImmediateReg, seq![(0xF0u8, 0xB0u8)]),
            (InstType::MemAcc, seq![(0xFEu8, 0xA0u8)]),
            (InstType::AccMem, seq![(0xFEu8, 0xA2u8)]),
        ]),
        (Command::ADD, seq![
            (InstType::RegMem, seq![(0xFCu8, 0x00u8)]),
            (InstType::ImmediateRegMem, seq![(0xFCu8, 0x80u8), (0x38u8, 0x00u8)]),
            (InstType::ImmediateToAcc, seq![(0xFEu8, 0x04u8)]),
        ]),
        (Command::SUB, seq![
            (InstType::RegMem, seq![(0xFCu8, 0x28u8)]),
            (InstType::ImmediateRegMem, seq![(0xFCu8, 0x80u8), (0x38u8, 0x28u8)]),
            (InstType::ImmediateToAcc, seq![(0xFEu8, 0x2Cu8)]),
        ]),
        (Command::CMP, seq![
            (InstType::RegMem, seq![(0xFCu8, 0x38u8)]),
            (InstType::ImmediateRegMem, seq![(0xFCu8, 0x80u8), (0x38u8, 0x38u8)]),
            (InstType::ImmediateToAcc, seq![(0xFEu8, 0x3Cu8)]),
        ]),
        label_entry(Command::JNZ, 0x75),
        label_entry(Command::JE, 0x74),
        label_entry(Command::JL, 0x7C),
        label_entry(Command::JLE, 0x7E),
        label_entry(Command::JB, 0x72),
        label_entry(Command::JBE, 0x76),
        label_entry(Command::JP, 0x7A),
        label_entry(Command::JO, 0x70),
        label_entry(Command::JS, 0x78),
        label_entry(Command::JNE, 0x75),
        label_entry(Command::JNL, 0x7D),
        label_entry(Command::JG, 0x7F),
        label_entry(Command::JNB, 0x73),
        label_entry(Command::JA, 0x77),
        label_entry(Command::JNP, 0x7B),
        label_entry(Command::JNO, 0x71),
        label_entry(Command::JNS, 0x79),
        label_entry(Command::LOOP, 0xE2),
        label_entry(Command::LOOPZ, 0xE1),
        label_entry(Command::LOOPNZ, 0xE0),
        label_entry(Command::JCXZ, 0xE3),
    ]
}

fn decoder(inst_type: InstType, mask: u8, opcode: u8) -> (d: InstDecoder)
    ensures
        d@ == (inst_type, seq![(mask, opcode)]),
{
    let patterns: Vec<(u8, u8)> = vec![(mask, opcode)];
    assert(patterns@ =~= seq![(mask, opcode)]);
    InstDecoder { inst_type, patterns }
}

fn decoder2(inst_type: InstType, mask: u8, opcode: u8, mask2: u8, opcode2: u8) -> (d: InstDecoder)
    ensures
        d@ == (inst_type, seq![(mask, opcode), (mask2, opcode2)]),
{
    let patterns: Vec<(u8, u8)> = vec![(mask, opcode), (mask2, opcode2)];
    assert(patterns@ =~= seq![(mask, opcode), (mask2, opcode2)]);
    InstDecoder { inst_type, patterns }
}

fn label(command: Command, opcode: u8) -> (e: CommandDecoders)
    ensures
        e@ == label_entry(command, opcode),
{
    let d = decoder(InstType::ToLabel, 0xFF, opcode);
    let e = CommandDecoders { command, decoders: vec![d] };
    assert(e@.1 =~= label_entry(command, opcode).1);
    e
}

/// The opcode table of the decoder (see `commands_table`).
pub fn get_commands_map() -> (commands: CommandsMap)
    ensures
        commands@ == commands_table(),
{
    let mov = CommandDecoders {
        command: Command::MOV,
        decoders: vec![
            decoder(InstType::RegMem, 0xFC, 0x88),  // Reg/mem
            decoder(InstType::ImmediateRegMem, 0xFE, 0xC6),  // Immediate reg/mem
            decoder(InstType::ImmediateReg, 0xF0, 0xB0),  // Immediate reg
            decoder(InstType::MemAcc, 0xFE, 0xA0),  // Mem/acc
            decoder(InstType::AccMem, 0xFE, 0xA2),  // Acc/mem
        ],
    };
    assert(mov@ =~= commands_table()[0]);
    let add = CommandDecoders {
        command: Command::ADD,
        decoders: vec![
            decoder(InstType::RegMem, 0xFC, 0x00),  // Reg/mem
            decoder2(InstType::ImmediateRegMem, 0xFC, 0x80, 0x38, 0x00),  // Immediate reg/mem
            decoder(InstType::ImmediateToAcc, 0xFE, 0x04),  // Immediate acc
        ],
    };
    assert(add@ =~= commands_table()[1]);
    let sub = CommandDecoders {
        command: Command::SUB,
        decoders: vec![
            decoder(InstType::RegMem, 0xFC, 0x28),  // Reg/mem
            decoder2(InstType::ImmediateRegMem, 0xFC, 0x80, 0x38, 0x28),  // Immediate reg/mem
            decoder(InstType::ImmediateToAcc, 0xFE, 0x2C),  // Immediate acc
        ],
    };
    assert(sub@ =~= commands_table()[2]);
    let cmp_ids = CommandDecoders {
        command: Command::CMP,
        decoders: vec![
            decoder(InstType::RegMem, 0xFC, 0x38),  // Reg/mem
            decoder2(InstType::ImmediateRegMem, 0xFC, 0x80, 0x38, 0x38),  // Immediate reg/mem
            decoder(InstType::ImmediateToAcc, 0xFE, 0x3C),  // Immediate acc
        ],
    };
    assert(cmp_ids@ =~= commands_table()[3]);
    let commands = CommandsMap {
        entries: vec![
            mov,
            add,
            sub,
            cmp_ids,
            label(Command::JNZ, 0x75),
            label(Command::JE, 0x74),
            label(Command::JL, 0x7C),
            label(Command::JLE, 0x7E),
            label(Command::JB, 0x72),
            label(Command::JBE, 0x76),
            label(Command::JP, 0x7A),
            label(Command::JO, 0x70),
            label(Command::JS, 0x78),
            label(Command::JNE, 0x75),
            label(Command::JNL, 0x7D),
            label(Command::JG, 0x7F),
            label(Command::JNB, 0x73),
            label(Command::JA, 0x77),
            label(Command::JNP, 0x7B),
            label(Command::JNO, 0x71),
            label(Command::JNS, 0x79),
            label(Command::LOOP, 0xE2),
            label(Command::LOOPZ, 0xE1),
            label(Command::LOOPNZ, 0xE0),
            label(Command::JCXZ, 0xE3),
        ],
    };
    assert(commands@ =~= commands_table());
    commands
}

/// The bytes match a pattern list: the first pair against `byte1`, and the
/// second pair, when there are two, against `byte2`.
pub open spec fn pattern_matches(p: Seq<(u8, u8)>, byte1: u8, byte2: u8) -> bool {
    if p.len() == 2 {
        (byte1 & p[0].0) == p[0].1 && (byte2 & p[1].0) == p[1].1
    } else {
        (byte1 & p[0].0) == p[0].1
    }
}

/// The first encoding in `ds` whose patterns match the bytes.
pub open spec fn first_type_match(ds: Seq<(InstType, Seq<(u8, u8)>)>, byte1: u8, byte2: u8) -> Option<InstType>
    decreases ds.len(),
{
    if ds.len() == 0 {
        None
    } else if pattern_matches(ds[0].1, byte1, byte2) {
        Some(ds[0].0)
    } else {
        first_type_match(ds.drop_first(), byte1, byte2)
    }
}

/// The first command of `t`, in order, with an encoding that matches the
/// bytes, and that encoding.
pub open spec fn first_match(t: Seq<(Command, Seq<(InstType, Seq<(u8, u8)>)>)>, byte1: u8, byte2: u8) -> Option<(InstType, Command)>
    decreases t.len(),
{
    if t.len() == 0 {
        None
    } else {
        match first_type_match(t[0].1, byte1, byte2) {
            Some(it) => Some((it, t[0].0)),
            None => first_match(t.drop_first(), byte1, byte2),
        }
    }
}

/// Every encoding of `t` has one or two patterns.
pub open spec fn table_wf(t: Seq<(Command, Seq<(InstType, Seq<(u8, u8)>)>)>) -> bool {
    forall|i: int, j: int|
        0 <= i < t.len() && 0 <= j < t[i].1.len() ==> 1 <= (#[trigger] t[i].1[j]).1.len() <= 2
}

/// What the decoder's table makes of the first two bytes of an instruction.
pub open spec fn spec_which(byte1: u8, byte2: u8) -> Option<(InstType, Command)> {
    first_match(commands_table(), byte1, byte2)
}

/// The decoder's table is well formed.
pub proof fn lemma_commands_table_wf()
    ensures
        table_wf(commands_table()),
{
    let t = commands_table();
    assert forall|i: int, j: int| 0 <= i < t.len() && 0 <= j < t[i].1.len() implies 1 <= (#[trigger] t[i].1[j]).1.len() <= 2 by {
        if i >= 4 {
            assert(t[i] == label_entry(t[i].0, t[i].1[0].1[0].1));
        }
    }
}

/// Trying the encodings of `ds` in order, each one reached before a match
/// (and the matching one) has one or two patterns.
pub open spec fn decoders_checked(ds: Seq<(InstType, Seq<(u8, u8)>)>, byte1: u8, byte2: u8) -> bool
    decreases ds.len(),
{
    ds.len() == 0 || (1 <= ds[0].1.len() <= 2 && (pattern_matches(ds[0].1, byte1, byte2)
        || decoders_checked(ds.drop_first(), byte1, byte2)))
}

/// Trying the commands of `t` in order, every encoding reached before the
/// first match (and the matching one) has one or two patterns.
pub open spec fn table_checked(t: Seq<(Command, Seq<(InstType, Seq<(u8, u8)>)>)>, byte1: u8, byte2: u8) -> bool
    decreases t.len(),
{
    t.len() == 0 || (decoders_checked(t[0].1, byte1, byte2) && (first_type_match(
        t[0].1,
        byte1,
        byte2,
    ) is Some || table_checked(t.drop_first(), byte1, byte2)))
}

proof fn lemma_wf_decoders_checked(t: Seq<(Command, Seq<(InstType, Seq<(u8, u8)>)>)>, i: int, k: int, byte1: u8, byte2: u8)
    requires
        table_wf(t),
        0 <= i < t.len(),
        0 <= k <= t[i].1.len(),
    ensures
        decoders_checked(t[i].1.skip(k), byte1, byte2),
    decreases t[i].1.len() - k,
{
    let ds = t[i].1.skip(k);
    if k < t[i].1.len() {
        assert(ds[0] == t[i].1[k]);
        assert(ds.drop_first() =~= t[i].1.skip(k + 1));
        lemma_wf_decoders_checked(t, i, k + 1, byte1, byte2);
    }
}

/// A well-formed table is checked whatever the bytes.
pub proof fn lemma_wf_table_checked(t: Seq<(Command, Seq<(InstType, Seq<(u8, u8)>)>)>, byte1: u8, byte2: u8)
    requires
        table_wf(t),
    ensures
        table_checked(t, byte1, byte2),
    decreases t.len(),
{
    if t.len() > 0 {
        lemma_wf_decoders_checked(t, 0, 0, byte1, byte2);
        assert(t[0].1.skip(0) =~= t[0].1);
        let rest = t.drop_first();
        assert forall|i: int, j: int| 0 <= i < rest.len() && 0 <= j < rest[i].1.len() implies 1
            <= (#[trigger] rest[i].1[j]).1.len() <= 2 by {
            assert(rest[i] == t[i + 1]);
        }
        lemma_wf_table_checked(rest, byte1, byte2);
    }
}

/// The first command, in table order, with an encoding whose patterns match
/// the two bytes, with that encoding; `None` when no encoding matches. Each
/// encoding tried must have one or two patterns.
pub fn which_command(byte1: u8, byte2: u8, commands: &CommandsMap) -> (r: Option<(InstType, Command)>)
    requires
        table_checked(commands@, byte1, byte2),
    ensures
        r == first_match(commands@, byte1, byte2),
{
    let ghost t = commands@;
    assert(t.skip(0) =~= t);
    let mut i: usize = 0;
    while i < commands.entries.len()
        invariant
            t == commands@,
            i <= t.len(),
            table_checked(t.skip(i as int), byte1, byte2),
            first_match(t, byte1, byte2) == first_match(t.skip(i as int), byte1, byte2),
        decreases t.len() - i,
    {
        let entry = &commands.entries[i];
        let ghost ds = t[i as int].1;
        assert(entry@ == t[i as int]);
        assert(t.skip(i as int)[0] == t[i as int]);
        assert(t.skip(i as int).drop_first() =~= t.skip(i + 1));
        assert(ds.skip(0) =~= ds);
        let mut j: usize = 0;
        while j < entry.decoders.len()
            invariant
                t == commands@,
                i < t.len(),
                ds == t[i as int].1,
                entry@ == t[i as int],
                t.skip(i as int)[0] == t[i as int],
                t.skip(i as int).drop_first() == t.skip(i + 1),
                first_type_match(ds, byte1, byte2) is None ==> table_checked(t.skip(i + 1), byte1, byte2),
                first_match(t, byte1, byte2) == first_match(t.skip(i as int), byte1, byte2),
                j <= ds.len(),
                decoders_checked(ds.skip(j as int), byte1, byte2),
                first_type_match(ds, byte1, byte2) == first_type_match(ds.skip(j as int), byte1, byte2),
            decreases ds.len() - j,
        {
            let decoder = &entry.decoders[j];
            assert(decoder@ == ds[j as int]);
            assert(ds.skip(j as int)[0] == ds[j as int]);
            assert(ds.skip(j as int).drop_first() =~= ds.skip(j + 1));
            assert(1 <= ds[j as int].1.len() <= 2);
            let (mask, opcode) = decoder.patterns[0];
            if decoder.patterns.len() == 2 {
                let (mask2, opcode2) = decoder.patterns[1];
                if (byte1 & mask) == opcode && (byte2 & mask2) == opcode2 {
                    assert(pattern_matches(ds[j as int].1, byte1, byte2));
                    assert(first_type_match(ds, byte1, byte2) == Some(ds[j as int].0));
                    return Some((decoder.inst_type, entry.command));
                }
            } else {
                if (byte1 & mask) == opcode {
                    assert(pattern_matches(ds[j as int].1, byte1, byte2));
                    assert(first_type_match(ds, byte1, byte2) == Some(ds[j as int].0));
                    return Some((decoder.inst_type, entry.command));
                }
            }
            j += 1;
        }
        assert(ds.skip(j as int) =~= Seq::<(InstType, Seq<(u8, u8)>)>::empty());
        i += 1;
    }
    assert(t.skip(i as int) =~= Seq::<(Command, Seq<(InstType, Seq<(u8, u8)>)>)>::empty());
    None
}

/// Two upper-case hex digits (more when the value needs them).
pub open spec fn hex2(n: nat) -> Seq<char> {
    zero_pad(radix_digits(n, 16, true), 2)
}

/// Eight binary digits.
pub open spec fn bin8(n: nat) -> Seq<char> {
    zero_pad(radix_digits(n, 2, true), 8)
}

/// The position and the first two bytes at `current`, as in
/// `ADDR 00/04 = 89 (10001001) D8 (11011000)`: the position divided by 16 and
/// its remainder in hex, then each byte in hex and in binary.
pub open spec fn current_byte_text(asm_bytes: Seq<u8>, current: int) -> Seq<char> {
    "ADDR "@ + hex2((current / 16) as nat) + "/"@ + hex2((current % 16) as nat) + " = "@
        + hex2(asm_bytes[current] as nat) + " ("@ + bin8(asm_bytes[current] as nat) + ") "@
        + hex2(asm_bytes[current + 1] as nat) + " ("@ + bin8(asm_bytes[current + 1] as nat) + ")"@
}

/// The position and the first two bytes at `current` (see `current_byte_text`).
pub fn format_current_byte(asm_bytes: &Vec<u8>, current: usize) -> (s: String)
    requires
        current + 1 < asm_bytes@.len(),
    ensures
        s@ == current_byte_text(asm_bytes@, current as int),
{
    proof {
        assert(asm_bytes.len() == asm_bytes@.len());
    }
    let mut s = String::new();
    s.append("ADDR ");
    push_padded(&mut s, (current / 16) as u64, 16, true, 2);
    s.append("/");
    push_padded(&mut s, (current % 16) as u64, 16, true, 2);
    s.append(" = ");
    push_padded(&mut s, asm_bytes[current] as u64, 16, true, 2);
    s.append(" (");
    push_padded(&mut s, asm_bytes[current] as u64, 2, true, 8);
    s.append(") ");
    push_padded(&mut s, asm_bytes[current + 1] as u64, 16, true, 2);
    s.append(" (");
    push_padded(&mut s, asm_bytes[current + 1] as u64, 2, true, 8);
    s.append(")");
    assert(s@ =~= current_byte_text(asm_bytes@, current as int));
    s
}

/// The `mod` field of the second byte (bits 7..6, kept in place).
pub open spec fn mod_field(b: u8) -> u8 {
    b & 0xC0
}

/// The `r/m` field of the second byte (bits 2..0).
pub open spec fn rm_field(b: u8) -> u8 {
    b & 0x07
}

/// The `reg` field of the second byte (bits 5..3).
pub open spec fn reg_field(b: u8) -> u8 {
    (b & 0x38) >> 3
}

/// Bit 1 of the first byte: the direction bit `d`, or the sign bit `s`.
pub open spec fn bit1(b: u8) -> u8 {
    (b & 0x02) >> 1
}

/// Bit 0 of the first byte: the width bit `w`.
pub open spec fn bit0(b: u8) -> u8 {
    b & 0x01
}

/// The key of the register table for width bit `w` and register field `r`.
pub open spec fn reg_key(w: u8, r: u8) -> u8 {
    (w << 3) | r
}

/// The key of the memory-operand table for the second byte: `mod` in the
/// high nibble and `r/m` in the low nibble.
pub open spec fn mem_key(b1: u8) -> u8 {
    (mod_field(b1) >> 2) | rm_field(b1)
}

proof fn lemma_fields(b0: u8, b1: u8)
    ensures
        rm_field(b1) < 8,
        reg_field(b1) < 8,
        bit0(b0) < 2,
        bit1(b0) < 2,
        reg_key(bit0(b0), rm_field(b1)) < 16,
        reg_key(bit0(b0), reg_field(b1)) < 16,
        reg_key((b0 & 0x08) >> 3, b0 & 0x07) < 16,
        ((b0 & 0x08) >> 3) < 2,
        mod_field(b1) != MOD11 ==> reg_mem_key(mem_key(b1)),
        mod_field(b1) == DIRECT_ADDRESS_MOD || mod_field(b1) == D8_MOD || mod_field(b1) == D16_MOD
            || mod_field(b1) == MOD11,
{
    assert(rm_field(b1) < 8) by (bit_vector);
    assert(reg_field(b1) < 8) by (bit_vector);
    assert(bit0(b0) < 2) by (bit_vector);
    assert(bit1(b0) < 2) by (bit_vector);
    assert(reg_key(bit0(b0), rm_field(b1)) < 16) by (bit_vector);
    assert(reg_key(bit0(b0), reg_field(b1)) < 16) by (bit_vector);
    assert(reg_key((b0 & 0x08) >> 3, b0 & 0x07) < 16) by (bit_vector);
    assert(((b0 & 0x08) >> 3) < 2) by (bit_vector);
    assert(mod_field(b1) != 0xC0 ==> reg_mem_key(mem_key(b1))) by (bit_vector);
    assert(mod_field(b1) == 0 || mod_field(b1) == 0x40 || mod_field(b1) == 0x80 || mod_field(b1)
        == 0xC0) by (bit_vector);
}

/// A memory operand with a displacement: `[`, the address expression, a
/// space, `+` for a displacement that is not negative, a space, the
/// displacement in decimal, `]`.
pub open spec fn displaced_text(base: Seq<char>, disp: int) -> Seq<char> {
    "["@ + base + " "@ + (if disp < 0 { Seq::empty() } else { "+"@ }) + " "@ + decimal(disp) + "]"@
}

/// The little-endian word at `i` and `i + 1`.
pub open spec fn word_at(bytes: Seq<u8>, i: int) -> u16 {
    join(bytes[i + 1], bytes[i])
}

/// The number of displacement bytes that follow the second byte: one for
/// `mod 01`, two for `mod 10` and for a direct address (`mod 00`, `r/m 110`).
pub open spec fn disp_len(b1: u8) -> int {
    let m = mod_field(b1);
    if m == D8_MOD {
        1
    } else if m == D16_MOD || (m == DIRECT_ADDRESS_MOD && rm_field(b1) == 6) {
        2
    } else {
        0
    }
}

/// The operand that `mod` and `r/m` name, for an instruction at `cur`: with
/// `mod 11` the register of the width bit and `r/m`; a direct address as
/// `[address]`; otherwise the address expression of the memory-operand table
/// under key `mod r/m`, with the signed 8-bit (`mod 01`) or 16-bit (`mod 10`)
/// displacement that follows the second byte.
pub open spec fn rm_operand_text(bytes: Seq<u8>, cur: int, rg: Map<u8, Register>, rgm: Map<u8, String>) -> Seq<char> {
    let b0 = bytes[cur];
    let b1 = bytes[cur + 1];
    let m = mod_field(b1);
    if m == MOD11 {
        rg[reg_key(bit0(b0), rm_field(b1))].name()
    } else if m == DIRECT_ADDRESS_MOD && rm_field(b1) == 6 {
        "["@ + decimal(word_at(bytes, cur + 2) as int) + "]"@
    } else if m == D8_MOD {
        displaced_text(rgm[mem_key(b1)]@, (bytes[cur + 2] as i8) as int)
    } else if m == D16_MOD {
        displaced_text(rgm[mem_key(b1)]@, (word_at(bytes, cur + 2) as i16) as int)
    } else {
        "["@ + rgm[mem_key(b1)]@ + "]"@
    }
}

/// The operand that `mod` and `r/m` name can be looked up: in the register
/// table for `mod 11`, in the memory-operand table for memory other than a
/// direct address.
pub open spec fn rm_operand_found(b0: u8, b1: u8, rg: Map<u8, Register>, rgm: Map<u8, String>) -> bool {
    let m = mod_field(b1);
    if m == MOD11 {
        rg.contains_key(reg_key(bit0(b0), rm_field(b1)))
    } else if m == DIRECT_ADDRESS_MOD && rm_field(b1) == 6 {
        true
    } else {
        rgm.contains_key(mem_key(b1))
    }
}

/// The text of a register/memory with register instruction at `cur`: the
/// `reg` register is the destination (first) when `d = 1`, the source
/// (second) when `d = 0`.
pub open spec fn reg_mem_line(c: Command, bytes: Seq<u8>, cur: int, rg: Map<u8, Register>, rgm: Map<u8, String>) -> Seq<char> {
    let b0 = bytes[cur];
    let b1 = bytes[cur + 1];
    let reg = rg[reg_key(bit0(b0), reg_field(b1))].name();
    let rm_op = rm_operand_text(bytes, cur, rg, rgm);
    if bit1(b0) == 1 {
        c.name() + " "@ + reg + ", "@ + rm_op
    } else {
        c.name() + " "@ + rm_op + ", "@ + reg
    }
}

/// The length of a register/memory with register instruction.
pub open spec fn reg_mem_len(b1: u8) -> int {
    2 + disp_len(b1)
}

/// What a register to register instruction does when run: the command with
/// the source register as first operand and the destination as second; with
/// `d = 1` the `reg` register is the destination, with `d = 0` the `r/m` one.
/// Commands other than `mov`, `add`, `sub`, `cmp` do nothing.
pub open spec fn reg_mem_action(c: Command, b0: u8, b1: u8, rg: Map<u8, Register>) -> Option<AnyCommand> {
    let w = bit0(b0);
    let reg = rg[reg_key(w, reg_field(b1))];
    let reg_m = rg[reg_key(w, rm_field(b1))];
    if mod_field(b1) == MOD11 && c.is_data_command() {
        if bit1(b0) == 1 {
            Some(AnyCommand::of_reg_reg(Instruction { command: c, op1: RegisterOp { register: reg_m }, op2: RegisterOp { register: reg } }))
        } else {
            Some(AnyCommand::of_reg_reg(Instruction { command: c, op1: RegisterOp { register: reg }, op2: RegisterOp { register: reg_m } }))
        }
    } else {
        None
    }
}

/// An immediate to register/memory instruction has a one-byte immediate
/// value: a `mov` to a register, a byte operation, or an operation with the
/// `s` bit set other than `mov` (whose byte is sign-extended).
pub open spec fn imm_data_is_byte(c: Command, b0: u8, b1: u8) -> bool {
    (mod_field(b1) == MOD11 && c == Command::MOV) || bit0(b0) == 0 || (bit1(b0) == 1 && c
        != Command::MOV)
}

/// The length of an immediate to register/memory instruction.
pub open spec fn imm_reg_mem_len(c: Command, b0: u8, b1: u8) -> int {
    2 + disp_len(b1) + if imm_data_is_byte(c, b0, b1) { 1int } else { 2int }
}

/// The text of an immediate to register/memory instruction at `cur`: the
/// destination, then the immediate value that follows the displacement. A
/// byte is shown unsigned, except with the `s` bit set (other than `mov`),
/// where it stands for its sign extension. `mov` names the size before the
/// value; other commands name it before a memory destination.
pub open spec fn imm_reg_mem_line(c: Command, bytes: Seq<u8>, cur: int, rg: Map<u8, Register>, rgm: Map<u8, String>) -> Seq<char> {
    let b0 = bytes[cur];
    let b1 = bytes[cur + 1];
    let m = mod_field(b1);
    let s = bit1(b0);
    let w = bit0(b0);
    let is_mov = c == Command::MOV;
    let data_pos = cur + 2 + disp_len(b1);
    let data = if m == MOD11 && is_mov {
        decimal(bytes[data_pos] as int)
    } else if w == 0 {
        (if is_mov { "byte "@ } else { Seq::empty() }) + decimal(bytes[data_pos] as int)
    } else {
        let word = if is_mov { "word "@ } else { Seq::empty() };
        if s == 1 && !is_mov {
            word + decimal((bytes[data_pos] as i8) as int)
        } else {
            word + decimal(word_at(bytes, data_pos) as int)
        }
    };
    let addr_size = if !is_mov && m != MOD11 {
        if w == 0 {
            "byte "@
        } else {
            "word "@
        }
    } else {
        Seq::empty()
    };
    c.name() + " "@ + addr_size + rm_operand_text(bytes, cur, rg, rgm) + ", "@ + data + " "@
}

/// The register and the immediate value of an immediate to register instruction.
pub open spec fn imm_reg_operands(bytes: Seq<u8>, cur: int, rg: Map<u8, Register>) -> (Register, u16) {
    let b0 = bytes[cur];
    let w = (b0 & 0x08) >> 3;
    let register = rg[reg_key(w, b0 & 0x07)];
    let data = if w == 0 {
        bytes[cur + 1] as u16
    } else {
        word_at(bytes, cur + 1)
    };
    (register, data)
}

/// The length of an immediate to register instruction.
pub open spec fn imm_reg_len(b0: u8) -> int {
    if (b0 & 0x08) >> 3 == 1 {
        3
    } else {
        2
    }
}

/// The text of an immediate to register instruction at `cur`.
pub open spec fn imm_reg_line(c: Command, bytes: Seq<u8>, cur: int, rg: Map<u8, Register>) -> Seq<char> {
    let (register, data) = imm_reg_operands(bytes, cur, rg);
    c.name() + " "@ + register.name() + ", "@ + decimal(data as int)
}

/// The accumulator of width bit `w`: `al` for bytes, `ax` for words.
pub open spec fn acc_name(w: u8) -> Seq<char> {
    if w == 0 {
        "al"@
    } else {
        "ax"@
    }
}

/// The text of a memory to accumulator instruction at `cur`.
pub open spec fn mem_acc_line(c: Command, bytes: Seq<u8>, cur: int) -> Seq<char> {
    c.name() + " "@ + acc_name(bit0(bytes[cur])) + ", ["@ + decimal(
        (word_at(bytes, cur + 1) as i16) as int,
    ) + "]"@
}

/// The text of an accumulator to memory instruction at `cur`.
pub open spec fn acc_mem_line(c: Command, bytes: Seq<u8>, cur: int) -> Seq<char> {
    c.name() + " ["@ + decimal((word_at(bytes, cur + 1) as i16) as int) + "], "@ + acc_name(
        bit0(bytes[cur]),
    )
}

/// The length of an immediate to accumulator instruction.
pub open spec fn imm_acc_len(b0: u8) -> int {
    if bit0(b0) == 1 {
        3
    } else {
        2
    }
}

/// The text of an immediate to accumulator instruction at `cur`.
pub open spec fn imm_acc_line(c: Command, bytes: Seq<u8>, cur: int) -> Seq<char> {
    let w = bit0(bytes[cur]);
    let data = if w == 0 {
        bytes[cur + 1] as u16
    } else {
        word_at(bytes, cur + 1)
    };
    c.name() + " "@ + acc_name(w) + ", "@ + decimal(data as int) + " "@
}

/// The text of a jump to a label at `cur`: the offset byte plus 2, with its
/// sign always shown.
pub open spec fn label_line(c: Command, bytes: Seq<u8>, cur: int) -> Seq<char> {
    c.name() + " $"@ + signed_decimal((bytes[cur + 1] as i8) as int + 2)
}

/// The length of an instruction of encoding `t`.
pub open spec fn inst_len(t: InstType, c: Command, b0: u8, b1: u8) -> int {
    match t {
        InstType::RegMem => reg_mem_len(b1),
        InstType::ImmediateRegMem => imm_reg_mem_len(c, b0, b1),
        InstType::ImmediateReg => imm_reg_len(b0),
        InstType::MemAcc => 3,
        InstType::AccMem => 3,
        InstType::ImmediateToAcc => imm_acc_len(b0),
        InstType::ToLabel => 2,
    }
}

/// The text of an instruction of encoding `t` at `cur`.
pub open spec fn inst_line(t: InstType, c: Command, bytes: Seq<u8>, cur: int, rg: Map<u8, Register>, rgm: Map<u8, String>) -> Seq<char> {
    match t {
        InstType::RegMem => reg_mem_line(c, bytes, cur, rg, rgm),
        InstType::ImmediateRegMem => imm_reg_mem_line(c, bytes, cur, rg, rgm),
        InstType::ImmediateReg => imm_reg_line(c, bytes, cur, rg),
        InstType::MemAcc => mem_acc_line(c, bytes, cur),
        InstType::AccMem => acc_mem_line(c, bytes, cur),
        InstType::ImmediateToAcc => imm_acc_line(c, bytes, cur),
        InstType::ToLabel => label_line(c, bytes, cur),
    }
}

/// The encoding is run by turning it into a command: a register to register
/// instruction, or an immediate to register instruction.
pub open spec fn is_runnable(t: InstType, b1: u8) -> bool {
    (t == InstType::RegMem && mod_field(b1) == MOD11) || t == InstType::ImmediateReg
}

/// What an instruction of encoding `t` at `cur` does to the registers when
/// it is run: register to register and immediate to register `mov`, `add`,
/// `sub` and `cmp`.
pub open spec fn inst_action(t: InstType, c: Command, bytes: Seq<u8>, cur: int, rg: Map<u8, Register>) -> Option<AnyCommand> {
    match t {
        InstType::RegMem => reg_mem_action(c, bytes[cur], bytes[cur + 1], rg),
        InstType::ImmediateReg => if c.is_data_command() {
            let (register, data) = imm_reg_operands(bytes, cur, rg);
            Some(AnyCommand::of_reg_imm(Instruction { command: c, op1: RegisterOp { register }, op2: ImmediateOp { value: data } }))
        } else {
            None
        },
        _ => None,
    }
}

/// The tables hold every entry that decoding an instruction of encoding `t`
/// looks up.
pub open spec fn lookups_found(t: InstType, b0: u8, b1: u8, rg: Map<u8, Register>, rgm: Map<u8, String>) -> bool {
    match t {
        InstType::RegMem => {
            &&& rg.contains_key(reg_key(bit0(b0), reg_field(b1)))
            &&& rg.contains_key(reg_key(bit0(b0), rm_field(b1)))
            &&& rm_operand_found(b0, b1, rg, rgm)
        },
        InstType::ImmediateRegMem => rm_operand_found(b0, b1, rg, rgm),
        InstType::ImmediateReg => rg.contains_key(reg_key((b0 & 0x08) >> 3, b0 & 0x07)),
        _ => true,
    }
}

/// The instruction at `cur` can be decoded with the given tables: the two
/// bytes that select the encoding are there, every encoding tried has one or
/// two patterns, and for a known instruction all its bytes are there, a
/// jump's offset plus 2 fits in a signed byte, and the tables hold what it
/// looks up.
pub open spec fn instruction_fits(bytes: Seq<u8>, cur: int, rg: Map<u8, Register>, rgm: Map<u8, String>, cmds: Seq<(Command, Seq<(InstType, Seq<(u8, u8)>)>)>) -> bool {
    &&& 0 <= cur
    &&& cur + 1 < bytes.len()
    &&& table_checked(cmds, bytes[cur], bytes[cur + 1])
    &&& match first_match(cmds, bytes[cur], bytes[cur + 1]) {
        None => true,
        Some((t, c)) => {
            &&& cur + inst_len(t, c, bytes[cur], bytes[cur + 1]) <= bytes.len()
            &&& (t == InstType::ToLabel ==> (bytes[cur + 1] as i8) < 126)
            &&& lookups_found(t, bytes[cur], bytes[cur + 1], rg, rgm)
        },
    }
}

/// With the tables that the decoder builds, every encoding tried is well
/// formed and every lookup is found, whatever the bytes; and the encodings
/// that are run belong to `mov`, `add`, `sub` and `cmp` (an immediate to
/// register one only to `mov`).
#[verifier::spinoff_prover]
pub proof fn lemma_standard_tables(rgm: Map<u8, String>, b0: u8, b1: u8)
    requires
        is_reg_mem_table(rgm),
    ensures
        table_checked(commands_table(), b0, b1),
        forall|t: InstType| #[trigger] lookups_found(t, b0, b1, mod11_table(), rgm),
        spec_which(b0, b1) matches Some((t, c)) ==> is_runnable(t, b1) ==> c.is_data_command(),
        spec_which(b0, b1) matches Some((t, c)) ==> t == InstType::ImmediateReg ==> c
            == Command::MOV,
{
    lemma_commands_table_wf();
    lemma_wf_table_checked(commands_table(), b0, b1);
    lemma_fields(b0, b1);
    reveal_with_fuel(first_match, 26);
    reveal_with_fuel(first_type_match, 6);
}

fn lookup_register(table: &HashMap<u8, Register>, key: u8) -> (r: Register)
    requires
        table@.contains_key(key),
    ensures
        r == table@[key],
{
    match table.get(&key) {
        Some(r) => *r,
        None => Register::AX,
    }
}

fn push_reg_mem(s: &mut String, table: &HashMap<u8, String>, key: u8)
    requires
        table@.contains_key(key),
    ensures
        final(s)@ == old(s)@ + table@[key]@,
{
    match table.get(&key) {
        Some(text) => s.append(text.as_str()),
        None => {},
    }
}

fn push_displaced(s: &mut String, table: &HashMap<u8, String>, key: u8, disp: i64)
    requires
        table@.contains_key(key),
        disp > i64::MIN,
    ensures
        final(s)@ == old(s)@ + displaced_text(table@[key]@, disp as int),
{
    let ghost s0 = s@;
    s.append("[");
    push_reg_mem(s, table, key);
    s.append(" ");
    if disp >= 0 {
        s.append("+");
    }
    s.append(" ");
    push_decimal(s, disp);
    s.append("]");
    assert(s@ =~= s0 + displaced_text(table@[key]@, disp as int));
}

fn push_register(s: &mut String, r: Register)
    ensures
        final(s)@ == old(s)@ + r.name(),
{
    s.append(r.to_string().as_str());
}

fn is_data_command(c: Command) -> (r: bool)
    ensures
        r == c.is_data_command(),
{
    c == Command::MOV || c == Command::ADD || c == Command::SUB || c == Command::CMP
}

/// The number of displacement bytes that follow the second byte (see `disp_len`).
fn displacement_len(b1: u8) -> (n: usize)
    ensures
        n == disp_len(b1),
{
    let mod_ = b1 & 0xC0;
    let rm = b1 & 0x07;
    if mod_ == D8_MOD {
        1
    } else if mod_ == D16_MOD || (mod_ == DIRECT_ADDRESS_MOD && rm == 6) {
        2
    } else {
        0
    }
}

/// Appends the operand that `mod` and `r/m` name (see `rm_operand_text`).
fn push_rm_operand(
    s: &mut String,
    asm_bytes: &Vec<u8>,
    current: usize,
    rg_table: &HashMap<u8, Register>,
    rg_mem_table: &HashMap<u8, String>,
)
    requires
        current + 1 < asm_bytes@.len(),
        current + 2 + disp_len(asm_bytes@[current + 1]) <= asm_bytes@.len(),
        rm_operand_found(asm_bytes@[current as int], asm_bytes@[current + 1], rg_table@, rg_mem_table@),
    ensures
        final(s)@ == old(s)@ + rm_operand_text(asm_bytes@, current as int, rg_table@, rg_mem_table@),
{
    let ghost s0 = s@;
    proof {
        assert(asm_bytes.len() == asm_bytes@.len());
    }
    let b0 = asm_bytes[current];
    let b1 = asm_bytes[current + 1];
    proof {
        lemma_fields(b0, b1);
    }
    let mod_ = b1 & 0xC0;
    let rm = b1 & 0x07;
    let w = b0 & 0x01;
    if mod_ == MOD11 {
        push_register(s, lookup_register(rg_table, w << 3 | rm));
    } else if mod_ == DIRECT_ADDRESS_MOD && rm == 0x06 {
        // DIRECT ADDRESS
        let disp: u16 = d16_displacement(asm_bytes[current + 2], asm_bytes[current + 3]);
        s.append("[");
        push_decimal(s, disp as i64);
        s.append("]");
    } else if mod_ == D8_MOD {
        let disp: i8 = asm_bytes[current + 2] as i8;
        push_displaced(s, rg_mem_table, (mod_ >> 2) | rm, disp as i64);
    } else if mod_ == D16_MOD {
        let disp: i16 = d16_signed_displacement(asm_bytes[current + 2], asm_bytes[current + 3]);
        push_displaced(s, rg_mem_table, (mod_ >> 2) | rm, disp as i64);
    } else {
        // no displacement
        s.append("[");
        push_reg_mem(s, rg_mem_table, (mod_ >> 2) | rm);
        s.append("]");
    }
    assert(s@ =~= s0 + rm_operand_text(asm_bytes@, current as int, rg_table@, rg_mem_table@));
}

/// An instruction decoded at some position: its encoding and command, its
/// text, the position right after it, and what it does when run.
pub struct DecodedInstruction {
    pub inst_type: InstType,
    pub command: Command,
    pub text: String,
    pub next: usize,
    pub action: Option<AnyCommand>,
}

fn decode_reg_mem(
    command: Command,
    asm_bytes: &Vec<u8>,
    current: usize,
    rg_table: &HashMap<u8, Register>,
    rg_mem_table: &HashMap<u8, String>,
) -> (r: (String, usize, Option<AnyCommand>))
    requires
        current + 1 < asm_bytes@.len(),
        current + reg_mem_len(asm_bytes@[current + 1]) <= asm_bytes@.len(),
        lookups_found(InstType::RegMem, asm_bytes@[current as int], asm_bytes@[current + 1], rg_table@, rg_mem_table@),
    ensures
        r.0@ == reg_mem_line(command, asm_bytes@, current as int, rg_table@, rg_mem_table@),
        r.1 == current + reg_mem_len(asm_bytes@[current + 1]),
        r.2 == reg_mem_action(command, asm_bytes@[current as int], asm_bytes@[current + 1], rg_table@),
{
    proof {
        assert(asm_bytes.len() == asm_bytes@.len());
    }
    let b0 = asm_bytes[current];
    let b1 = asm_bytes[current + 1];
    proof {
        lemma_fields(b0, b1);
    }
    let w_mask: u8 = 0x01;
    let d_mask: u8 = 0x02;
    let mod_mask: u8 = 0xC0;
    let reg_mask: u8 = 0x38;
    let rm_mask: u8 = 0x07;

    let rm = b1 & rm_mask;
    let reg = (b1 & reg_mask) >> 3;
    let mod_ = b1 & mod_mask;
    let d = (b0 & d_mask) >> 1;
    let w = b0 & w_mask;

    let reg = lookup_register(rg_table, w << 3 | reg);
    let reg_m = lookup_register(rg_table, w << 3 | rm);

    let mut rm_op = String::new();
    push_rm_operand(&mut rm_op, asm_bytes, current, rg_table, rg_mem_table);

    let mut line = command.to_string();
    line.append(" ");
    if d == 1 {
        push_register(&mut line, reg);
        line.append(", ");
        line.append(rm_op.as_str());
    } else {
        line.append(rm_op.as_str());
        line.append(", ");
        push_register(&mut line, reg);
    }
    assert(line@ =~= reg_mem_line(command, asm_bytes@, current as int, rg_table@, rg_mem_table@));

    let action = if mod_ == MOD11 && is_data_command(command) {
        if d == 1 {
            Some(
                AnyCommand::from_reg_reg(
                    Instruction {
                        command,
                        op1: RegisterOp { register: reg_m },
                        op2: RegisterOp { register: reg },
                    },
                ),
            )
        } else {
            Some(
                AnyCommand::from_reg_reg(
                    Instruction {
                        command,
                        op1: RegisterOp { register: reg },
                        op2: RegisterOp { register: reg_m },
                    },
                ),
            )
        }
    } else {
        None
    };
    (line, current + 2 + displacement_len(b1), action)
}

fn decode_immediate_reg_mem(
    command: Command,
    asm_bytes: &Vec<u8>,
    current: usize,
    rg_table: &HashMap<u8, Register>,
    rg_mem_table: &HashMap<u8, String>,
) -> (r: (String, usize))
    requires
        current + 1 < asm_bytes@.len(),
        current + imm_reg_mem_len(command, asm_bytes@[current as int], asm_bytes@[current + 1])
            <= asm_bytes@.len(),
        lookups_found(InstType::ImmediateRegMem, asm_bytes@[current as int], asm_bytes@[current + 1], rg_table@, rg_mem_table@),
    ensures
        r.0@ == imm_reg_mem_line(command, asm_bytes@, current as int, rg_table@, rg_mem_table@),
        r.1 == current + imm_reg_mem_len(command, asm_bytes@[current as int], asm_bytes@[current + 1]),
{
    proof {
        assert(asm_bytes.len() == asm_bytes@.len());
    }
    let b0 = asm_bytes[current];
    let b1 = asm_bytes[current + 1];
    proof {
        lemma_fields(b0, b1);
    }
    let mod_mask: u8 = 0xC0;
    let w_mask: u8 = 0x01;
    let s_mask: u8 = 0x02;

    let mod_ = b1 & mod_mask;
    let s = (b0 & s_mask) >> 1;
    let w = b0 & w_mask;

    let is_mov = command == Command::MOV;
    let mut byte_inc: usize = 2;
    let data_pos: usize = 2 + displacement_len(b1);
    let mut data = String::new();
    if mod_ == MOD11 && is_mov {
        byte_inc += 1;
        push_decimal(&mut data, asm_bytes[current + data_pos] as i64);
    } else {
        if w == 0x00 {
            byte_inc += 1;
            if is_mov {
                data.append("byte ");
            }
            push_decimal(&mut data, asm_bytes[current + data_pos] as i64);
        } else {
            if is_mov {
                data.append("word ");
            }
            if s == 1 && !is_mov {
                byte_inc += 1;
                push_decimal(&mut data, d8_signed_extended(asm_bytes[current + data_pos]) as i64);
            } else {
                byte_inc += 2;
                push_decimal(
                    &mut data,
                    d16_displacement(asm_bytes[current + data_pos], asm_bytes[current + data_pos + 1])
                        as i64,
                );
            }
        }
    }
    byte_inc += displacement_len(b1);

    let mut addr = String::new();
    push_rm_operand(&mut addr, asm_bytes, current, rg_table, rg_mem_table);

    let mut line = command.to_string();
    line.append(" ");
    if !is_mov && mod_ != MOD11 {
        if w == 0 {
            line.append("byte ");
        } else {
            line.append("word ");
        }
    }
    line.append(addr.as_str());
    line.append(", ");
    line.append(data.as_str());
    line.append(" ");
    assert(line@ =~= imm_reg_mem_line(command, asm_bytes@, current as int, rg_table@, rg_mem_table@));
    (line, current + byte_inc)
}

fn decode_immediate_reg(
    command: Command,
    asm_bytes: &Vec<u8>,
    current: usize,
    rg_table: &HashMap<u8, Register>,
) -> (r: (String, usize, Option<AnyCommand>))
    requires
        current + 1 < asm_bytes@.len(),
        current + imm_reg_len(asm_bytes@[current as int]) <= asm_bytes@.len(),
        lookups_found(InstType::ImmediateReg, asm_bytes@[current as int], 0, rg_table@, Map::empty()),
    ensures
        r.0@ == imm_reg_line(command, asm_bytes@, current as int, rg_table@),
        r.1 == current + imm_reg_len(asm_bytes@[current as int]),
        r.2 == inst_action(InstType::ImmediateReg, command, asm_bytes@, current as int, rg_table@),
{
    proof {
        assert(asm_bytes.len() == asm_bytes@.len());
    }
    let b0 = asm_bytes[current];
    proof {
        lemma_fields(b0, 0);
    }
    let w_mask: u8 = 0x08;
    let reg_mask: u8 = 0x07;

    let w = (b0 & w_mask) >> 3;
    let reg = b0 & reg_mask;
    let register = lookup_register(rg_table, w << 3 | reg);

    let data: u16 = if w == 0 {
        asm_bytes[current + 1] as u16
    } else {
        d16_displacement(asm_bytes[current + 1], asm_bytes[current + 2])
    };

    let mut line = command.to_string();
    line.append(" ");
    push_register(&mut line, register);
    line.append(", ");
    push_decimal(&mut line, data as i64);
    let action = if is_data_command(command) {
        Some(
            AnyCommand::from_reg_imm(
                Instruction { command, op1: RegisterOp { register }, op2: ImmediateOp { value: data } },
            ),
        )
    } else {
        None
    };
    assert(line@ =~= imm_reg_line(command, asm_bytes@, current as int, rg_table@));
    (line, current + if w == 1 { 3 } else { 2 }, action)
}

fn push_accumulator(s: &mut String, w: u8)
    ensures
        final(s)@ == old(s)@ + acc_name(w),
{
    s.append(if w == 0 { "al" } else { "ax" });
}

/// Decodes the instruction at `current` with the given tables: `None` when
/// its first two bytes match no encoding of the table, and otherwise its
/// encoding, command, text, the position after it and what it does when run.
pub fn decode_instruction(
    asm_bytes: &Vec<u8>,
    current: usize,
    rg_table: &HashMap<u8, Register>,
    rg_mem_table: &HashMap<u8, String>,
    commands: &CommandsMap,
) -> (r: Option<DecodedInstruction>)
    requires
        instruction_fits(asm_bytes@, current as int, rg_table@, rg_mem_table@, commands@),
    ensures
        match first_match(commands@, asm_bytes@[current as int], asm_bytes@[current + 1]) {
            None => r is None,
            Some((t, c)) => r matches Some(d) && d.inst_type == t && d.command == c
                && d.text@ == inst_line(t, c, asm_bytes@, current as int, rg_table@, rg_mem_table@)
                && d.next == current + inst_len(t, c, asm_bytes@[current as int], asm_bytes@[current + 1])
                && d.action == inst_action(t, c, asm_bytes@, current as int, rg_table@),
        },
{
    let ghost bytes = asm_bytes@;
    proof {
        assert(asm_bytes.len() == asm_bytes@.len());
    }
    let b0 = asm_bytes[current];
    let b1 = asm_bytes[current + 1];
    proof {
        lemma_fields(b0, b1);
    }
    let (inst_type, command) = match which_command(b0, b1, commands) {
        None => {
            return None;
        },
        Some(cmd) => cmd,
    };
    match inst_type {
        InstType::RegMem => {
            let (text, next, action) = decode_reg_mem(command, asm_bytes, current, rg_table, rg_mem_table);
            Some(DecodedInstruction { inst_type, command, text, next, action })
        },
        InstType::ImmediateRegMem => {
            let (text, next) = decode_immediate_reg_mem(command, asm_bytes, current, rg_table, rg_mem_table);
            Some(DecodedInstruction { inst_type, command, text, next, action: None })
        },
        InstType::ImmediateReg => {
            let (text, next, action) = decode_immediate_reg(command, asm_bytes, current, rg_table);
            Some(DecodedInstruction { inst_type, command, text, next, action })
        },
        InstType::MemAcc => {
            let w = b0 & 0x01;
            let disp: i16 = d16_signed_displacement(asm_bytes[current + 1], asm_bytes[current + 2]);
            let mut text = command.to_string();
            text.append(" ");
            push_accumulator(&mut text, w);
            text.append(", [");
            push_decimal(&mut text, disp as i64);
            text.append("]");
            assert(text@ =~= mem_acc_line(command, bytes, current as int));
            Some(DecodedInstruction { inst_type, command, text, next: current + 3, action: None })
        },
        InstType::AccMem => {
            let w = b0 & 0x01;
            let disp: i16 = d16_signed_displacement(asm_bytes[current + 1], asm_bytes[current + 2]);
            let mut text = command.to_string();
            text.append(" [");
            push_decimal(&mut text, disp as i64);
            text.append("], ");
            push_accumulator(&mut text, w);
            assert(text@ =~= acc_mem_line(command, bytes, current as int));
            Some(DecodedInstruction { inst_type, command, text, next: current + 3, action: None })
        },
        InstType::ImmediateToAcc => {
            let w_mask: u8 = 0x01;
            let w = b0 & w_mask;
            let data: u16 = if w == 0 {
                b1 as u16
            } else {
                d16_displacement(asm_bytes[current + 1], asm_bytes[current + 2])
            };
            let mut text = command.to_string();
            text.append(" ");
            push_accumulator(&mut text, w);
            text.append(", ");
            push_decimal(&mut text, data as i64);
            text.append(" ");
            assert(text@ =~= imm_acc_line(command, bytes, current as int));
            Some(
                DecodedInstruction {
                    inst_type,
                    command,
                    text,
                    next: current + if w == 1 { 3 } else { 2 },
                    action: None,
                },
            )
        },
        InstType::ToLabel => {
            let jump = b1 as i8;
            let target: i8 = jump + 2;
            let mut text = command.to_string();
            text.append(" $");
            push_signed_decimal(&mut text, target as i64);
            assert(text@ =~= label_line(command, bytes, current as int));
            Some(DecodedInstruction { inst_type, command, text, next: current + 2, action: None })
        },
    }
}

/// Runs `cmd` on the processor when there is one.
pub fn cpu_exec(cpu: &mut Option<CPU8086>, cmd: &mut AnyCommand)
    requires
        (*old(cpu)) matches Some(c) ==> old(cmd).can_execute(c@),
    ensures
        *final(cmd) == *old(cmd),
        (*final(cpu)) is Some <==> (*old(cpu)) is Some,
        (*old(cpu)) matches Some(c) ==> final(cpu).unwrap()@ == old(cmd).spec_execute(c@),
{
    match cpu {
        Some(c) => cmd.execute(c),
        None => {},
    }
}

/// The length of an instruction of encoding `t` (see `inst_len`).
pub fn instruction_length(t: InstType, c: Command, b0: u8, b1: u8) -> (n: usize)
    ensures
        n == inst_len(t, c, b0, b1),
{
    proof {
        lemma_fields(b0, b1);
    }
    match t {
        InstType::RegMem => 2 + displacement_len(b1),
        InstType::ImmediateRegMem => {
            let byte_data = (b1 & 0xC0 == MOD11 && c == Command::MOV) || b0 & 0x01 == 0 || ((b0
                & 0x02) >> 1 == 1 && c != Command::MOV);
            2 + displacement_len(b1) + if byte_data { 1 } else { 2 }
        },
        InstType::ImmediateReg => {
            if (b0 & 0x08) >> 3 == 1 {
                3
            } else {
                2
            }
        },
        InstType::MemAcc => 3,
        InstType::AccMem => 3,
        InstType::ImmediateToAcc => {
            if b0 & 0x01 == 1 {
                3
            } else {
                2
            }
        },
        InstType::ToLabel => 2,
    }
}

/// Whether every encoding tried for the two bytes has one or two patterns
/// (see `table_checked`).
pub fn table_checked_at(byte1: u8, byte2: u8, commands: &CommandsMap) -> (r: bool)
    ensures
        r == table_checked(commands@, byte1, byte2),
{
    let ghost t = commands@;
    assert(t.skip(0) =~= t);
    let mut i: usize = 0;
    while i < commands.entries.len()
        invariant
            t == commands@,
            i <= t.len(),
            table_checked(t, byte1, byte2) == table_checked(t.skip(i as int), byte1, byte2),
        decreases t.len() - i,
    {
        let entry = &commands.entries[i];
        let ghost ds = t[i as int].1;
        assert(entry@ == t[i as int]);
        assert(t.skip(i as int)[0] == t[i as int]);
        assert(t.skip(i as int).drop_first() =~= t.skip(i + 1));
        assert(ds.skip(0) =~= ds);
        let mut j: usize = 0;
        while j < entry.decoders.len()
            invariant
                t == commands@,
                i < t.len(),
                ds == t[i as int].1,
                entry@ == t[i as int],
                t.skip(i as int)[0] == t[i as int],
                t.skip(i as int).drop_first() == t.skip(i + 1),
                table_checked(t, byte1, byte2) == table_checked(t.skip(i as int), byte1, byte2),
                j <= ds.len(),
                decoders_checked(ds, byte1, byte2) == decoders_checked(ds.skip(j as int), byte1, byte2),
                first_type_match(ds, byte1, byte2) == first_type_match(ds.skip(j as int), byte1, byte2),
            decreases ds.len() - j,
        {
            let decoder = &entry.decoders[j];
            assert(decoder@ == ds[j as int]);
            assert(ds.skip(j as int)[0] == ds[j as int]);
            assert(ds.skip(j as int).drop_first() =~= ds.skip(j + 1));
            let len = decoder.patterns.len();
            if len == 0 || len > 2 {
                return false;
            }
            let (mask, opcode) = decoder.patterns[0];
            let matched = if len == 2 {
                let (mask2, opcode2) = decoder.patterns[1];
                (byte1 & mask) == opcode && (byte2 & mask2) == opcode2
            } else {
                (byte1 & mask) == opcode
            };
            if matched {
                assert(pattern_matches(ds[j as int].1, byte1, byte2));
                return true;
            }
            j += 1;
        }
        assert(ds.skip(j as int) =~= Seq::<(InstType, Seq<(u8, u8)>)>::empty());
        i += 1;
    }
    assert(t.skip(i as int) =~= Seq::<(Command, Seq<(InstType, Seq<(u8, u8)>)>)>::empty());
    true
}

fn contains_register(table: &HashMap<u8, Register>, key: u8) -> (r: bool)
    ensures
        r == table@.contains_key(key),
{
    table.contains_key(&key)
}

fn contains_reg_mem(table: &HashMap<u8, String>, key: u8) -> (r: bool)
    ensures
        r == table@.contains_key(key),
{
    table.contains_key(&key)
}

/// Whether the tables hold every entry that decoding an instruction of
/// encoding `t` looks up (see `lookups_found`).
pub fn lookups_found_at(
    t: InstType,
    b0: u8,
    b1: u8,
    rg_table: &HashMap<u8, Register>,
    rg_mem_table: &HashMap<u8, String>,
) -> (r: bool)
    ensures
        r == lookups_found(t, b0, b1, rg_table@, rg_mem_table@),
{
    let mod_ = b1 & 0xC0;
    let rm = b1 & 0x07;
    let w = b0 & 0x01;
    let rm_found = if mod_ == MOD11 {
        contains_register(rg_table, w << 3 | rm)
    } else if mod_ == DIRECT_ADDRESS_MOD && rm == 6 {
        true
    } else {
        contains_reg_mem(rg_mem_table, (mod_ >> 2) | rm)
    };
    match t {
        InstType::RegMem => {
            contains_register(rg_table, w << 3 | ((b1 & 0x38) >> 3)) && contains_register(
                rg_table,
                w << 3 | rm,
            ) && rm_found
        },
        InstType::ImmediateRegMem => rm_found,
        InstType::ImmediateReg => contains_register(rg_table, ((b0 & 0x08) >> 3) << 3 | (b0 & 0x07)),
        _ => true,
    }
}

/// Whether the instruction at `current` can be decoded with the given tables
/// (see `instruction_fits`).
pub fn instruction_fits_at(
    asm_bytes: &Vec<u8>,
    current: usize,
    rg_table: &HashMap<u8, Register>,
    rg_mem_table: &HashMap<u8, String>,
    commands: &CommandsMap,
) -> (r: bool)
    ensures
        r == instruction_fits(asm_bytes@, current as int, rg_table@, rg_mem_table@, commands@),
{
    let n = asm_bytes.len();
    if n < 2 || current > n - 2 {
        return false;
    }
    let b0 = asm_bytes[current];
    let b1 = asm_bytes[current + 1];
    if !table_checked_at(b0, b1, commands) {
        return false;
    }
    match which_command(b0, b1, commands) {
        None => true,
        Some((t, c)) => {
            let len = instruction_length(t, c, b0, b1);
            len <= n - current && (t != InstType::ToLabel || (b1 as i8) < 126) && lookups_found_at(
                t,
                b0,
                b1,
                rg_table,
                rg_mem_table,
            )
        },
    }
}

/// Processing the instruction at `cur` in `app_mode` does not stop with a
/// panic: in simulation an instruction that is run must name `mov`, `add`,
/// `sub` or `cmp`, and its action must stay within 16-bit arithmetic on the
/// processor, if there is one.
pub open spec fn step_can_run(app_mode: AppMode, bytes: Seq<u8>, cur: int, cpu: Option<CPU8086>, rg: Map<u8, Register>, cmds: Seq<(Command, Seq<(InstType, Seq<(u8, u8)>)>)>) -> bool {
    match first_match(cmds, bytes[cur], bytes[cur + 1]) {
        None => true,
        Some((t, c)) => app_mode == AppMode::Simulation ==> {
            &&& is_runnable(t, bytes[cur + 1]) ==> c.is_data_command()
            &&& (cpu is Some && inst_action(t, c, bytes, cur, rg) is Some) ==> inst_action(
                t,
                c,
                bytes,
                cur,
                rg,
            ).unwrap().can_execute(cpu.unwrap()@)
        },
    }
}

/// The processor after one step: in simulation mode the action, if there is
/// one, runs on it.
pub open spec fn step_cpu(app_mode: AppMode, action: Option<AnyCommand>, cpu: CpuView) -> CpuView {
    if app_mode == AppMode::Simulation && action is Some {
        action.unwrap().spec_execute(cpu)
    } else {
        cpu
    }
}

/// Whether processing the instruction at `current` stops without a panic
/// (see `step_can_run`).
pub fn step_can_run_at(
    app_mode: &AppMode,
    asm_bytes: &Vec<u8>,
    current: usize,
    cpu: &Option<CPU8086>,
    rg_table: &HashMap<u8, Register>,
    rg_mem_table: &HashMap<u8, String>,
    commands: &CommandsMap,
) -> (r: bool)
    requires
        instruction_fits(asm_bytes@, current as int, rg_table@, rg_mem_table@, commands@),
    ensures
        r == step_can_run(*app_mode, asm_bytes@, current as int, *cpu, rg_table@, commands@),
{
    if *app_mode != AppMode::Simulation {
        return true;
    }
    match decode_instruction(asm_bytes, current, rg_table, rg_mem_table, commands) {
        None => true,
        Some(d) => {
            let b1 = asm_bytes[current + 1];
            let runnable = (d.inst_type == InstType::RegMem && b1 & 0xC0 == MOD11) || d.inst_type
                == InstType::ImmediateReg;
            if runnable && !is_data_command(d.command) {
                return false;
            }
            match d.action {
                Some(a) => match cpu {
                    Some(c) => a.can_run(c),
                    None => true,
                },
                None => true,
            }
        },
    }
}

/// The text that is shown for bytes that match no encoding.
pub open spec fn no_such_instruction_text(bytes: Seq<u8>, cur: int) -> Seq<char> {
    "No such instruction. "@ + current_byte_text(bytes, cur)
}

/// Lines of text as character sequences.
pub open spec fn lines_view(lines: Seq<String>) -> Seq<Seq<char>> {
    lines.map_values(|l: String| l@)
}

/// One decoding step at `current_byte`. When the first two bytes match no
/// encoding the result is the error line that says so. Otherwise the result
/// is the position after the instruction with the lines to show (the position
/// and bytes first when `debug`, then the instruction's text), and in
/// simulation mode the instruction's action has run on the processor, if
/// there is one.
pub fn process_instruction(
    app_mode: &AppMode,
    debug: bool,
    asm_bytes: &Vec<u8>,
    current_byte: usize,
    cpu: &mut Option<CPU8086>,
    rg_table: &HashMap<u8, Register>,
    rg_mem_table: &HashMap<u8, String>,
    commands: &CommandsMap,
) -> (r: Result<(usize, Vec<String>), String>)
    requires
        instruction_fits(asm_bytes@, current_byte as int, rg_table@, rg_mem_table@, commands@),
        step_can_run(*app_mode, asm_bytes@, current_byte as int, *old(cpu), rg_table@, commands@),
    ensures
        match first_match(commands@, asm_bytes@[current_byte as int], asm_bytes@[current_byte + 1]) {
            None => r matches Err(msg) && msg@ == no_such_instruction_text(asm_bytes@, current_byte as int)
                && *final(cpu) == *old(cpu),
            Some((t, c)) => r matches Ok((next, lines))
                && next == current_byte + inst_len(t, c, asm_bytes@[current_byte as int], asm_bytes@[current_byte + 1])
                && lines_view(lines@) == (if debug {
                    seq![current_byte_text(asm_bytes@, current_byte as int), inst_line(t, c, asm_bytes@, current_byte as int, rg_table@, rg_mem_table@)]
                } else {
                    seq![inst_line(t, c, asm_bytes@, current_byte as int, rg_table@, rg_mem_table@)]
                })
                && ((*final(cpu)) is Some <==> (*old(cpu)) is Some)
                && ((*old(cpu)) matches Some(c0) ==> final(cpu).unwrap()@ == step_cpu(
                    *app_mode,
                    inst_action(t, c, asm_bytes@, current_byte as int, rg_table@),
                    c0@,
                )),
        },
{
    let current: usize = current_byte;
    let decoded = match decode_instruction(asm_bytes, current, rg_table, rg_mem_table, commands) {
        None => {
            let mut msg = String::from_str("No such instruction. ");
            msg.append(format_current_byte(asm_bytes, current).as_str());
            return Err(msg);
        },
        Some(d) => d,
    };
    let mut lines: Vec<String> = Vec::new();
    if debug {
        lines.push(format_current_byte(asm_bytes, current));
    }
    let DecodedInstruction { inst_type, command, text, next, action } = decoded;
    lines.push(text);
    if *app_mode == AppMode::Simulation {
        match action {
            Some(cmd) => {
                let mut cmd = cmd;
                cpu_exec(cpu, &mut cmd);
            },
            None => {},
        }
    }
    assert(lines_view(lines@) =~= (if debug {
        seq![current_byte_text(asm_bytes@, current_byte as int), inst_line(inst_type, command, asm_bytes@, current_byte as int, rg_table@, rg_mem_table@)]
    } else {
        seq![inst_line(inst_type, command, asm_bytes@, current_byte as int, rg_table@, rg_mem_table@)]
    }));
    Ok((next, lines))
}

/// Each decoding step moves forward: the next position is past the current one.
pub proof fn lemma_step_moves_forward(bytes: Seq<u8>, cur: int, rg: Map<u8, Register>, rgm: Map<u8, String>, cmds: Seq<(Command, Seq<(InstType, Seq<(u8, u8)>)>)>)
    requires
        instruction_fits(bytes, cur, rg, rgm, cmds),
        first_match(cmds, bytes[cur], bytes[cur + 1]) is Some,
    ensures
        ({
            let (t, c) = first_match(cmds, bytes[cur], bytes[cur + 1]).unwrap();
            &&& 2 <= inst_len(t, c, bytes[cur], bytes[cur + 1]) <= 6
            &&& cur < cur + inst_len(t, c, bytes[cur], bytes[cur + 1]) <= bytes.len()
        }),
{
}

/// No register name holds a `[`.
pub proof fn lemma_register_name_has_no_bracket(r: Register)
    ensures
        !r.name().contains('['),
{
    reveal_strlit("ax");
    reveal_strlit("al");
    reveal_strlit("ah");
    reveal_strlit("bx");
    reveal_strlit("bl");
    reveal_strlit("bh");
    reveal_strlit("cx");
    reveal_strlit("cl");
    reveal_strlit("ch");
    reveal_strlit("dx");
    reveal_strlit("dl");
    reveal_strlit("dh");
    reveal_strlit("bp");
    reveal_strlit("sp");
    reveal_strlit("di");
    reveal_strlit("si");
    if r.name().contains('[') {
        let i = choose|i: int| 0 <= i < r.name().len() && r.name()[i] == '[';
        assert(r.name()[i] == '[');
    }
}

/// The operand that `mod` and `r/m` name holds a `[` exactly when it is in
/// memory, that is, when `mod` is not `11`; so an immediate to register/memory
/// line names the operand size exactly for a memory destination (other than
/// with `mov`).
pub proof fn lemma_imm_addr_bracket(bytes: Seq<u8>, cur: int, rg: Map<u8, Register>, rgm: Map<u8, String>)
    requires
        0 <= cur,
        cur + 1 < bytes.len(),
    ensures
        rm_operand_text(bytes, cur, rg, rgm).contains('[') <==> mod_field(bytes[cur + 1]) != MOD11,
{
    let b1 = bytes[cur + 1];
    let m = mod_field(b1);
    let a = rm_operand_text(bytes, cur, rg, rgm);
    reveal_strlit("[");
    if m == MOD11 {
        lemma_register_name_has_no_bracket(rg[reg_key(bit0(bytes[cur]), rm_field(b1))]);
    } else {
        assert(a[0] == '[');
    }
}

/// The register table gives a word register exactly for keys with the `w`
/// bit (8) set, and a byte register for the others.
pub proof fn lemma_mod11_width(key: u8)
    requires
        key < 16,
    ensures
        mod11_register(key).is_word() <==> key >= 8,
{
}

/// The decoder recognises each encoding of the instruction table of the
/// documentation: `mov` (register/memory with register, immediate to
/// register/memory, immediate to register, memory to accumulator,
/// accumulator to memory), and `add`, `sub`, `cmp` (register/memory with
/// register, immediate to register/memory with the `reg` field 000, 101, 111,
/// immediate to accumulator).
pub proof fn lemma_documented_encodings(b0: u8, b1: u8)
    ensures
        b0 & 0xFC == 0x88 ==> spec_which(b0, b1) == Some((InstType::RegMem, Command::MOV)),
        b0 & 0xFE == 0xC6 && b1 & 0x38 == 0x00 ==> spec_which(b0, b1) == Some((InstType::ImmediateRegMem, Command::MOV)),
        b0 & 0xF0 == 0xB0 ==> spec_which(b0, b1) == Some((InstType::ImmediateReg, Command::MOV)),
        b0 & 0xFE == 0xA0 ==> spec_which(b0, b1) == Some((InstType::MemAcc, Command::MOV)),
        b0 & 0xFE == 0xA2 ==> spec_which(b0, b1) == Some((InstType::AccMem, Command::MOV)),
        b0 & 0xFC == 0x00 ==> spec_which(b0, b1) == Some((InstType::RegMem, Command::ADD)),
        b0 & 0xFC == 0x80 && b1 & 0x38 == 0x00 ==> spec_which(b0, b1) == Some((InstType::ImmediateRegMem, Command::ADD)),
        b0 & 0xFE == 0x04 ==> spec_which(b0, b1) == Some((InstType::ImmediateToAcc, Command::ADD)),
        b0 & 0xFC == 0x28 ==> spec_which(b0, b1) == Some((InstType::RegMem, Command::SUB)),
        b0 & 0xFC == 0x80 && b1 & 0x38 == 0x28 ==> spec_which(b0, b1) == Some((InstType::ImmediateRegMem, Command::SUB)),
        b0 & 0xFE == 0x2C ==> spec_which(b0, b1) == Some((InstType::ImmediateToAcc, Command::SUB)),
        b0 & 0xFC == 0x38 ==> spec_which(b0, b1) == Some((InstType::RegMem, Command::CMP)),
        b0 & 0xFC == 0x80 && b1 & 0x38 == 0x38 ==> spec_which(b0, b1) == Some((InstType::ImmediateRegMem, Command::CMP)),
        b0 & 0xFE == 0x3C ==> spec_which(b0, b1) == Some((InstType::ImmediateToAcc, Command::CMP)),
{
    reveal_with_fuel(first_match, 5);
    reveal_with_fuel(first_type_match, 6);
    assert(b0 & 0xFC == 0x88 ==> b0 & 0xFE != 0xC6 && b0 & 0xF0 != 0xB0) by (bit_vector);
    assert(b0 & 0xFE == 0xC6 ==> b0 & 0xFC != 0x88) by (bit_vector);
    assert(b0 & 0xF0 == 0xB0 ==> b0 & 0xFC != 0x88 && b0 & 0xFE != 0xC6) by (bit_vector);
    assert(b0 & 0xFE == 0xA0 ==> b0 & 0xFC != 0x88 && b0 & 0xFE != 0xC6 && b0 & 0xF0 != 0xB0) by (bit_vector);
    assert(b0 & 0xFE == 0xA2 ==> b0 & 0xFC != 0x88 && b0 & 0xFE != 0xC6 && b0 & 0xF0 != 0xB0 && b0 & 0xFE != 0xA0) by (bit_vector);
    assert(b0 & 0xFC == 0x00 ==> b0 & 0xFC != 0x88 && b0 & 0xFE != 0xC6 && b0 & 0xF0 != 0xB0 && b0 & 0xFE != 0xA0 && b0 & 0xFE != 0xA2) by (bit_vector);
    assert(b0 & 0xFC == 0x80 ==> b0 & 0xFC != 0x88 && b0 & 0xFE != 0xC6 && b0 & 0xF0 != 0xB0 && b0 & 0xFE != 0xA0 && b0 & 0xFE != 0xA2 && b0 & 0xFC != 0x00) by (bit_vector);
    assert(b0 & 0xFE == 0x04 ==> b0 & 0xFC != 0x88 && b0 & 0xFE != 0xC6 && b0 & 0xF0 != 0xB0 && b0 & 0xFE != 0xA0 && b0 & 0xFE != 0xA2 && b0 & 0xFC != 0x00 && b0 & 0xFC != 0x80) by (bit_vector);
    assert(b0 & 0xFC == 0x28 ==> b0 & 0xFC != 0x88 && b0 & 0xFE != 0xC6 && b0 & 0xF0 != 0xB0 && b0 & 0xFE != 0xA0 && b0 & 0xFE != 0xA2 && b0 & 0xFC != 0x00 && b0 & 0xFC != 0x80 && b0 & 0xFE != 0x04) by (bit_vector);
    assert(b0 & 0xFE == 0x2C ==> b0 & 0xFC != 0x88 && b0 & 0xFE != 0xC6 && b0 & 0xF0 != 0xB0 && b0 & 0xFE != 0xA0 && b0 & 0xFE != 0xA2 && b0 & 0xFC != 0x00 && b0 & 0xFC != 0x80 && b0 & 0xFE != 0x04 && b0 & 0xFC != 0x28) by (bit_vector);
    assert(b0 & 0xFC == 0x38 ==> b0 & 0xFC != 0x88 && b0 & 0xFE != 0xC6 && b0 & 0xF0 != 0xB0 && b0 & 0xFE != 0xA0 && b0 & 0xFE != 0xA2 && b0 & 0xFC != 0x00 && b0 & 0xFC != 0x80 && b0 & 0xFE != 0x04 && b0 & 0xFC != 0x28 && b0 & 0xFE != 0x2C) by (bit_vector);
    assert(b0 & 0xFE == 0x3C ==> b0 & 0xFC != 0x88 && b0 & 0xFE != 0xC6 && b0 & 0xF0 != 0xB0 && b0 & 0xFE != 0xA0 && b0 & 0xFE != 0xA2 && b0 & 0xFC != 0x00 && b0 & 0xFC != 0x80 && b0 & 0xFE != 0x04 && b0 & 0xFC != 0x28 && b0 & 0xFE != 0x2C && b0 & 0xFC != 0x38) by (bit_vector);
}

/// The `reg` register of a register/memory with register instruction stands
/// where the direction bit `d` (bit 1 of the first byte) puts it, whatever
/// the `mod` field: with `d = 0` it is the source, so the text ends with
/// `, ` and its name; with `d = 1` it is the destination, so the text starts
/// with the command, a space, its name and `, `.
pub proof fn lemma_reg_mem_operand_order(c: Command, bytes: Seq<u8>, cur: int, rg: Map<u8, Register>, rgm: Map<u8, String>)
    requires
        0 <= cur,
        cur + 1 < bytes.len(),
    ensures
        ({
            let b0 = bytes[cur];
            let reg = rg[reg_key(bit0(b0), reg_field(bytes[cur + 1]))].name();
            let line = inst_line(InstType::RegMem, c, bytes, cur, rg, rgm);
            &&& bit1(b0) == 0 ==> (", "@ + reg).is_suffix_of(line)
            &&& bit1(b0) == 1 ==> (c.name() + " "@ + reg + ", "@).is_prefix_of(line)
        }),
{
    let b0 = bytes[cur];
    let reg = rg[reg_key(bit0(b0), reg_field(bytes[cur + 1]))].name();
    let rm_op = rm_operand_text(bytes, cur, rg, rgm);
    let line = inst_line(InstType::RegMem, c, bytes, cur, rg, rgm);
    lemma_fields(b0, bytes[cur + 1]);
    if bit1(b0) == 0 {
        let head = c.name() + " "@ + rm_op;
        let tail = ", "@ + reg;
        assert(line =~= head + tail);
        assert(line.subrange(line.len() - tail.len(), line.len() as int) =~= tail);
    } else {
        let head = c.name() + " "@ + reg + ", "@;
        assert(line =~= head + rm_op);
        assert(line.subrange(0, head.len() as int) =~= head);
    }
}

/// The decoder names each jump of the 8086 by its documented opcode: 0x70
/// `jo`, 0x71 `jno`, 0x72 `jb`, 0x73 `jnb`, 0x74 `je`, 0x75 `jnz` (0x75 is
/// listed for `jne` too; `jnz` comes first in the table), 0x76 `jbe`, 0x77
/// `ja`, 0x78 `js`, 0x79 `jns`, 0x7A `jp`, 0x7B `jnp`, 0x7C `jl`, 0x7D
/// `jnl`, 0x7E `jle`, 0x7F `jg`, 0xE0 `loopnz`, 0xE1 `loopz`, 0xE2 `loop`,
/// 0xE3 `jcxz`; each a jump to a label, whatever the second byte.
pub proof fn lemma_jump_opcodes(b0: u8, b1: u8)
    ensures
        b0 == 0x70 ==> spec_which(b0, b1) == Some((InstType::ToLabel, Command::JO)),
        b0 == 0x71 ==> spec_which(b0, b1) == Some((InstType::ToLabel, Command::JNO)),
        b0 == 0x72 ==> spec_which(b0, b1) == Some((InstType::ToLabel, Command::JB)),
        b0 == 0x73 ==> spec_which(b0, b1) == Some((InstType::ToLabel, Command::JNB)),
        b0 == 0x74 ==> spec_which(b0, b1) == Some((InstType::ToLabel, Command::JE)),
        b0 == 0x75 ==> spec_which(b0, b1) == Some((InstType::ToLabel, Command::JNZ)),
        b0 == 0x76 ==> spec_which(b0, b1) == Some((InstType::ToLabel, Command::JBE)),
        b0 == 0x77 ==> spec_which(b0, b1) == Some((InstType::ToLabel, Command::JA)),
        b0 == 0x78 ==> spec_which(b0, b1) == Some((InstType::ToLabel, Command::JS)),
        b0 == 0x79 ==> spec_which(b0, b1) == Some((InstType::ToLabel, Command::JNS)),
        b0 == 0x7A ==> spec_which(b0, b1) == Some((InstType::ToLabel, Command::JP)),
        b0 == 0x7B ==> spec_which(b0, b1) == Some((InstType::ToLabel, Command::JNP)),
        b0 == 0x7C ==> spec_which(b0, b1) == Some((InstType::ToLabel, Command::JL)),
        b0 == 0x7D ==> spec_which(b0, b1) == Some((InstType::ToLabel, Command::JNL)),
        b0 == 0x7E ==> spec_which(b0, b1) == Some((InstType::ToLabel, Command::JLE)),
        b0 == 0x7F ==> spec_which(b0, b1) == Some((InstType::ToLabel, Command::JG)),
        b0 == 0xE0 ==> spec_which(b0, b1) == Some((InstType::ToLabel, Command::LOOPNZ)),
        b0 == 0xE1 ==> spec_which(b0, b1) == Some((InstType::ToLabel, Command::LOOPZ)),
        b0 == 0xE2 ==> spec_which(b0, b1) == Some((InstType::ToLabel, Command::LOOP)),
        b0 == 0xE3 ==> spec_which(b0, b1) == Some((InstType::ToLabel, Command::JCXZ)),
{
    reveal_with_fuel(first_match, 26);
    reveal_with_fuel(first_type_match, 6);
    assert((0x70 <= b0 <= 0x7F || 0xE0 <= b0 <= 0xE3) ==> b0 & 0xFC != 0x88 && b0 & 0xFE != 0xC6
        && b0 & 0xF0 != 0xB0 && b0 & 0xFE != 0xA0 && b0 & 0xFE != 0xA2 && b0 & 0xFC != 0x00
        && b0 & 0xFC != 0x80 && b0 & 0xFE != 0x04 && b0 & 0xFC != 0x28 && b0 & 0xFE != 0x2C
        && b0 & 0xFC != 0x38 && b0 & 0xFE != 0x3C && b0 & 0xFF == b0) by (bit_vector);
}

} // verus!
