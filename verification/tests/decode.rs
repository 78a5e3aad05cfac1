use cpu_instruction_sim::args::AppMode;
use cpu_instruction_sim::cpu_sim::{Command, Register, CPU8086};
use cpu_instruction_sim::decode::{
    lookups_found_at, table_checked_at, CommandDecoders, CommandsMap, InstDecoder,
    d16_displacement, d16_signed_displacement, d8_signed_extended, decode_instruction,
    format_current_byte, get_commands_map, instruction_fits_at, instruction_length,
    mod11_registers_table, process_instruction, reg_mem_registers_table, step_can_run_at,
    which_command, InstType,
};

fn disassemble_one(bytes: &[u8]) -> (String, usize) {
    let bytes: Vec<u8> = bytes.to_vec();
    let rg = mod11_registers_table();
    let rgm = reg_mem_registers_table();
    let commands = get_commands_map();
    assert!(instruction_fits_at(&bytes, 0, &rg, &rgm, &commands));
    let d = decode_instruction(&bytes, 0, &rg, &rgm, &commands).expect("known instruction");
    (d.text, d.next)
}

#[test]
fn displacements() {
    assert_eq!(d16_displacement(0x34, 0x12), 0x1234);
    assert_eq!(d16_displacement(0xFF, 0x00), 0x00FF);
    assert_eq!(d16_signed_displacement(0xFC, 0xFF), -4);
    assert_eq!(d16_signed_displacement(0x00, 0x80), -32768);
    assert_eq!(d8_signed_extended(0xFF), -1);
    assert_eq!(d8_signed_extended(0x80), -128);
    assert_eq!(d8_signed_extended(0x05), 5);
}

#[test]
fn register_tables() {
    let rg = mod11_registers_table();
    assert_eq!(rg.len(), 16);
    assert_eq!(rg[&0x00], Register::AL);
    assert_eq!(rg[&0x07], Register::BH);
    assert_eq!(rg[&0x08], Register::AX);
    assert_eq!(rg[&0x0C], Register::SP);
    assert_eq!(rg[&0x0F], Register::DI);
    let rgm = reg_mem_registers_table();
    assert_eq!(rgm.len(), 24);
    assert_eq!(rgm[&0x06], "DIRECT ADDRESS");
    assert_eq!(rgm[&0x16], "BP");
    assert_eq!(rgm[&0x20], "BX + SI");
    assert_eq!(rgm[&0x27], "BX");
}

#[test]
fn which_command_follows_the_documented_table() {
    let commands = get_commands_map();
    assert_eq!(commands.entries.len(), 25);
    assert_eq!(which_command(0x89, 0xD8, &commands), Some((InstType::RegMem, Command::MOV)));
    assert_eq!(which_command(0xC7, 0x06, &commands), Some((InstType::ImmediateRegMem, Command::MOV)));
    assert_eq!(which_command(0xB9, 0x00, &commands), Some((InstType::ImmediateReg, Command::MOV)));
    assert_eq!(which_command(0xA1, 0x00, &commands), Some((InstType::MemAcc, Command::MOV)));
    assert_eq!(which_command(0xA3, 0x00, &commands), Some((InstType::AccMem, Command::MOV)));
    assert_eq!(which_command(0x01, 0xD8, &commands), Some((InstType::RegMem, Command::ADD)));
    assert_eq!(which_command(0x83, 0xC6, &commands), Some((InstType::ImmediateRegMem, Command::ADD)));
    assert_eq!(which_command(0x05, 0x00, &commands), Some((InstType::ImmediateToAcc, Command::ADD)));
    assert_eq!(which_command(0x29, 0xD8, &commands), Some((InstType::RegMem, Command::SUB)));
    assert_eq!(which_command(0x83, 0xEE, &commands), Some((InstType::ImmediateRegMem, Command::SUB)));
    assert_eq!(which_command(0x2C, 0x00, &commands), Some((InstType::ImmediateToAcc, Command::SUB)));
    assert_eq!(which_command(0x39, 0xD8, &commands), Some((InstType::RegMem, Command::CMP)));
    assert_eq!(which_command(0x83, 0xFE, &commands), Some((InstType::ImmediateRegMem, Command::CMP)));
    assert_eq!(which_command(0x3D, 0x00, &commands), Some((InstType::ImmediateToAcc, Command::CMP)));
    assert_eq!(which_command(0x74, 0x00, &commands), Some((InstType::ToLabel, Command::JE)));
    assert_eq!(which_command(0xE2, 0x00, &commands), Some((InstType::ToLabel, Command::LOOP)));
    assert_eq!(which_command(0xE3, 0x00, &commands), Some((InstType::ToLabel, Command::JCXZ)));
    // 0x75 is both jnz and jne; the table lists jnz first
    assert_eq!(which_command(0x75, 0x00, &commands), Some((InstType::ToLabel, Command::JNZ)));
    // immediate to register/memory with reg field 001 is none of add, sub, cmp
    assert_eq!(which_command(0x83, 0xC8, &commands), None);
    assert_eq!(which_command(0x0F, 0x00, &commands), None);
}

#[test]
fn reg_mem_forms() {
    assert_eq!(disassemble_one(&[0x89, 0xD8]), ("mov ax, bx".to_string(), 2));
    assert_eq!(disassemble_one(&[0x8B, 0xD8]), ("mov bx, ax".to_string(), 2));
    assert_eq!(disassemble_one(&[0x88, 0xE5]), ("mov ch, ah".to_string(), 2));
    assert_eq!(disassemble_one(&[0x8A, 0x00]), ("mov al, [BX + SI]".to_string(), 2));
    assert_eq!(disassemble_one(&[0x89, 0x0F]), ("mov [BX], cx".to_string(), 2));
    assert_eq!(disassemble_one(&[0x8B, 0x56, 0xFC]), ("mov dx, [BP  -4]".to_string(), 3));
    assert_eq!(disassemble_one(&[0x8B, 0x41, 0x05]), ("mov ax, [BX + DI + 5]".to_string(), 3));
    assert_eq!(disassemble_one(&[0x89, 0x86, 0x88, 0x13]), ("mov [BP + 5000], ax".to_string(), 4));
    assert_eq!(disassemble_one(&[0x8B, 0x86, 0x00, 0x01]), ("mov ax, [BP + 256]".to_string(), 4));
    assert_eq!(disassemble_one(&[0x8B, 0x87, 0xFE, 0xFF]), ("mov ax, [BX  -2]".to_string(), 4));
    assert_eq!(disassemble_one(&[0x89, 0x0E, 0x00, 0x01]), ("mov [256], cx".to_string(), 4));
    assert_eq!(disassemble_one(&[0x8B, 0x0E, 0x00, 0x01]), ("mov cx, [256]".to_string(), 4));
    assert_eq!(disassemble_one(&[0x8B, 0x1E, 0x82, 0x0D]), ("mov bx, [3458]".to_string(), 4));
    assert_eq!(disassemble_one(&[0x01, 0xD8]), ("add ax, bx".to_string(), 2));
    assert_eq!(disassemble_one(&[0x29, 0xD8]), ("sub ax, bx".to_string(), 2));
    assert_eq!(disassemble_one(&[0x39, 0xD8]), ("cmp ax, bx".to_string(), 2));
}

#[test]
fn immediate_reg_mem_forms() {
    assert_eq!(disassemble_one(&[0xC6, 0x03, 0x07]), ("mov [BP + DI], byte 7 ".to_string(), 3));
    assert_eq!(disassemble_one(&[0xC7, 0x85, 0x85, 0x03, 0x5B, 0x01]), ("mov [DI + 901], word 347 ".to_string(), 6));
    assert_eq!(disassemble_one(&[0xC7, 0xC0, 0x05]), ("mov ax, 5 ".to_string(), 3));
    assert_eq!(disassemble_one(&[0x83, 0xC6, 0x02]), ("add si, 2 ".to_string(), 3));
    assert_eq!(disassemble_one(&[0x83, 0xC3, 0xFF]), ("add bx, -1 ".to_string(), 3));
    assert_eq!(disassemble_one(&[0x83, 0x2F, 0x80]), ("sub word [BX], -128 ".to_string(), 3));
    assert_eq!(disassemble_one(&[0x80, 0xC3, 0xFF]), ("add bl, 255 ".to_string(), 3));
    assert_eq!(disassemble_one(&[0x80, 0x07, 0x22]), ("add byte [BX], 34 ".to_string(), 3));
    assert_eq!(disassemble_one(&[0x81, 0x06, 0xE8, 0x03, 0x10, 0x27]), ("add word [1000], 10000 ".to_string(), 6));
    assert_eq!(disassemble_one(&[0x83, 0x6E, 0x02, 0x05]), ("sub word [BP + 2], 5 ".to_string(), 4));
    assert_eq!(disassemble_one(&[0x81, 0xFE, 0x10, 0x27]), ("cmp si, 10000 ".to_string(), 4));
    assert_eq!(disassemble_one(&[0x83, 0xBE, 0x00, 0x10, 0x01]), ("cmp word [BP + 4096], 1 ".to_string(), 5));
}

#[test]
fn other_forms() {
    assert_eq!(disassemble_one(&[0xB9, 0x0C, 0x00]), ("mov cx, 12".to_string(), 3));
    assert_eq!(disassemble_one(&[0xB1, 0xF4]), ("mov cl, 244".to_string(), 2));
    assert_eq!(disassemble_one(&[0xA1, 0xFB, 0x09]), ("mov ax, [2555]".to_string(), 3));
    assert_eq!(disassemble_one(&[0xA3, 0xFA, 0x09]), ("mov [2554], ax".to_string(), 3));
    assert_eq!(disassemble_one(&[0xA0, 0x10, 0x00]), ("mov al, [16]".to_string(), 3));
    assert_eq!(disassemble_one(&[0xA2, 0x10, 0x00]), ("mov [16], al".to_string(), 3));
    assert_eq!(disassemble_one(&[0x05, 0xE8, 0x03]), ("add ax, 1000 ".to_string(), 3));
    assert_eq!(disassemble_one(&[0x2C, 0x05]), ("sub al, 5 ".to_string(), 2));
    assert_eq!(disassemble_one(&[0x3C, 0xE2]), ("cmp al, 226 ".to_string(), 2));
    assert_eq!(disassemble_one(&[0x75, 0xFC]), ("jnz $-2".to_string(), 2));
    assert_eq!(disassemble_one(&[0x74, 0xFE]), ("je $+0".to_string(), 2));
    assert_eq!(disassemble_one(&[0xE2, 0x05]), ("loop $+7".to_string(), 2));
}

#[test]
fn instruction_lengths() {
    assert_eq!(instruction_length(InstType::RegMem, Command::MOV, 0x89, 0xD8), 2);
    assert_eq!(instruction_length(InstType::RegMem, Command::MOV, 0x8B, 0x1E), 4);
    assert_eq!(instruction_length(InstType::ImmediateRegMem, Command::ADD, 0x81, 0x06), 6);
    assert_eq!(instruction_length(InstType::ImmediateReg, Command::MOV, 0xB1, 0x00), 2);
    assert_eq!(instruction_length(InstType::ToLabel, Command::JE, 0x74, 0x00), 2);
}

#[test]
fn fits_checks_bounds_and_jump_offset() {
    let rg = mod11_registers_table();
    let rgm = reg_mem_registers_table();
    let commands = get_commands_map();
    assert!(!instruction_fits_at(&vec![0x89], 0, &rg, &rgm, &commands));
    assert!(!instruction_fits_at(&vec![0x8B, 0x1E, 0x82], 0, &rg, &rgm, &commands));
    assert!(instruction_fits_at(&vec![0x8B, 0x1E, 0x82, 0x0D], 0, &rg, &rgm, &commands));
    assert!(!instruction_fits_at(&vec![0x75, 0x7E], 0, &rg, &rgm, &commands));
    assert!(instruction_fits_at(&vec![0x75, 0x7D], 0, &rg, &rgm, &commands));
    assert!(instruction_fits_at(&vec![0x0F, 0x00], 0, &rg, &rgm, &commands));
    assert!(!instruction_fits_at(&vec![0x89, 0xD8], 1, &rg, &rgm, &commands));
}

#[test]
fn current_byte_text() {
    let bytes = vec![0x89, 0xD8];
    assert_eq!(format_current_byte(&bytes, 0), "ADDR 00/00 = 89 (10001001) D8 (11011000)");
    let mut long = vec![0u8; 0x1234];
    long.push(0x0F);
    long.push(0x01);
    assert_eq!(format_current_byte(&long, 0x1234), "ADDR 123/04 = 0F (00001111) 01 (00000001)");
}

#[test]
fn process_unknown_instruction() {
    let bytes = vec![0x0F, 0x00];
    let rg = mod11_registers_table();
    let rgm = reg_mem_registers_table();
    let commands = get_commands_map();
    let mut cpu = None;
    let r = process_instruction(&AppMode::Disassembly, false, &bytes, 0, &mut cpu, &rg, &rgm, &commands);
    assert_eq!(r, Err("No such instruction. ADDR 00/00 = 0F (00001111) 00 (00000000)".to_string()));
}

#[test]
fn process_with_debug_and_simulation() {
    // mov cx, 5 ; mov bx, cx ; sub bx, cx ; add cx, 3 (imm, not run)
    let bytes = vec![0xB9, 0x05, 0x00, 0x89, 0xCB, 0x29, 0xCB, 0x83, 0xC1, 0x03];
    let rg = mod11_registers_table();
    let rgm = reg_mem_registers_table();
    let commands = get_commands_map();
    let mut cpu = Some(CPU8086::new());
    let mode = AppMode::Simulation;
    let mut current = 0;
    let mut lines = vec![];
    while current < bytes.len() {
        assert!(instruction_fits_at(&bytes, current, &rg, &rgm, &commands));
        assert!(step_can_run_at(&mode, &bytes, current, &cpu, &rg, &rgm, &commands));
        let (next, out) = process_instruction(&mode, current == 0, &bytes, current, &mut cpu, &rg, &rgm, &commands).unwrap();
        assert!(next > current);
        lines.extend(out);
        current = next;
    }
    assert_eq!(
        lines,
        vec![
            "ADDR 00/00 = B9 (10111001) 05 (00000101)".to_string(),
            "mov cx, 5".to_string(),
            "mov bx, cx".to_string(),
            "sub bx, cx".to_string(),
            "add cx, 3 ".to_string(),
        ]
    );
    assert_eq!(cpu.unwrap().to_string(), "\n      cx: 0x0005 (5)\n   flags: PZ");
}

#[test]
fn disassembly_leaves_processor_alone() {
    let bytes = vec![0xB9, 0x05, 0x00];
    let rg = mod11_registers_table();
    let rgm = reg_mem_registers_table();
    let commands = get_commands_map();
    let mut cpu = Some(CPU8086::new());
    let (next, out) = process_instruction(&AppMode::Disassembly, false, &bytes, 0, &mut cpu, &rg, &rgm, &commands).unwrap();
    assert_eq!(next, 3);
    assert_eq!(out, vec!["mov cx, 5".to_string()]);
    assert_eq!(cpu.unwrap().to_string(), "");
}

#[test]
fn add_registers_runs_on_the_rm_operand() {
    // add bx, cx with d = 1: the r/m register (cx) is the one written
    let bytes = vec![0xB9, 0x02, 0x00, 0xBB, 0x03, 0x00, 0x03, 0xD9];
    let rg = mod11_registers_table();
    let rgm = reg_mem_registers_table();
    let commands = get_commands_map();
    let mut cpu = Some(CPU8086::new());
    let mode = AppMode::Simulation;
    let mut current = 0;
    let mut lines = vec![];
    while current < bytes.len() {
        let (next, out) = process_instruction(&mode, false, &bytes, current, &mut cpu, &rg, &rgm, &commands).unwrap();
        lines.extend(out);
        current = next;
    }
    assert_eq!(lines[2], "add bx, cx");
    let cpu = cpu.unwrap();
    assert_eq!(cpu.bx(), 3);
    assert_eq!(cpu.cx(), 5);
}

#[test]
fn overflowing_step_is_reported() {
    // mov ax, 0xFFFF ; mov bx, 1 ; add ax, bx
    let bytes = vec![0xB8, 0xFF, 0xFF, 0xBB, 0x01, 0x00, 0x01, 0xD8];
    let rg = mod11_registers_table();
    let rgm = reg_mem_registers_table();
    let commands = get_commands_map();
    let mut cpu = Some(CPU8086::new());
    let mode = AppMode::Simulation;
    let (next, _) = process_instruction(&mode, false, &bytes, 0, &mut cpu, &rg, &rgm, &commands).unwrap();
    let (next, _) = process_instruction(&mode, false, &bytes, next, &mut cpu, &rg, &rgm, &commands).unwrap();
    assert_eq!(next, 6);
    assert!(!step_can_run_at(&mode, &bytes, next, &cpu, &rg, &rgm, &commands));
    assert!(step_can_run_at(&AppMode::Disassembly, &bytes, next, &cpu, &rg, &rgm, &commands));
}

#[test]
fn process_mod10_bp_and_direct_address_destination() {
    let rg = mod11_registers_table();
    let rgm = reg_mem_registers_table();
    let commands = get_commands_map();
    let mut cpu = None;
    let bytes = vec![0x8B, 0x86, 0x00, 0x01];
    let r = process_instruction(&AppMode::Disassembly, false, &bytes, 0, &mut cpu, &rg, &rgm, &commands);
    assert_eq!(r, Ok((4, vec!["mov ax, [BP + 256]".to_string()])));
    let bytes = vec![0x89, 0x0E, 0x00, 0x01];
    let r = process_instruction(&AppMode::Disassembly, false, &bytes, 0, &mut cpu, &rg, &rgm, &commands);
    assert_eq!(r, Ok((4, vec!["mov [256], cx".to_string()])));
}

#[test]
fn tables_with_missing_entries_do_not_fit() {
    let commands = get_commands_map();
    let mut rg = mod11_registers_table();
    let mut rgm = reg_mem_registers_table();
    rg.remove(&0x0B);
    rgm.remove(&0x26);
    // mov bx, ax needs key 0x0B
    assert!(!lookups_found_at(InstType::RegMem, 0x8B, 0xD8, &rg, &rgm));
    assert!(!instruction_fits_at(&vec![0x8B, 0xD8], 0, &rg, &rgm, &commands));
    // mov ax, [BP + 256] needs key 0x26
    assert!(!instruction_fits_at(&vec![0x8B, 0x86, 0x00, 0x01], 0, &rg, &rgm, &commands));
    // a direct address needs no memory-operand entry
    assert!(instruction_fits_at(&vec![0x8B, 0x06, 0x00, 0x01], 0, &rg, &rgm, &commands));
    // a jump looks nothing up
    assert!(instruction_fits_at(&vec![0x74, 0x00], 0, &rg, &rgm, &commands));
}

#[test]
fn malformed_encodings_matter_only_when_reached() {
    let table = CommandsMap {
        entries: vec![
            CommandDecoders {
                command: Command::MOV,
                decoders: vec![InstDecoder { inst_type: InstType::RegMem, patterns: vec![(0xFC, 0x88)] }],
            },
            CommandDecoders {
                command: Command::ADD,
                decoders: vec![InstDecoder { inst_type: InstType::RegMem, patterns: vec![] }],
            },
        ],
    };
    assert!(table_checked_at(0x89, 0xD8, &table));
    assert!(!table_checked_at(0x01, 0xD8, &table));
    assert_eq!(which_command(0x89, 0xD8, &table), Some((InstType::RegMem, Command::MOV)));
}

#[test]
fn simulation_of_a_non_data_register_encoding_cannot_run() {
    let table = CommandsMap {
        entries: vec![CommandDecoders {
            command: Command::JE,
            decoders: vec![InstDecoder { inst_type: InstType::RegMem, patterns: vec![(0xFC, 0x88)] }],
        }],
    };
    let rg = mod11_registers_table();
    let rgm = reg_mem_registers_table();
    let bytes = vec![0x89, 0xD8];
    let cpu = Some(CPU8086::new());
    assert!(instruction_fits_at(&bytes, 0, &rg, &rgm, &table));
    assert!(!step_can_run_at(&AppMode::Simulation, &bytes, 0, &cpu, &rg, &rgm, &table));
    assert!(step_can_run_at(&AppMode::Disassembly, &bytes, 0, &cpu, &rg, &rgm, &table));
    let d = decode_instruction(&bytes, 0, &rg, &rgm, &table).unwrap();
    assert_eq!(d.text, "je ax, bx");
    assert!(d.action.is_none());
}
