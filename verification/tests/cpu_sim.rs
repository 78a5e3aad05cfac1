use cpu_instruction_sim::cpu_sim::{
    Add, AnyCommand, Cmp, Command, CommandImpl, ImmediateOp, Instruction, Mov, Register, RegisterOp,
    Sub, CPU8086,
};

#[test]
fn test_cpu_register_access() {
    // A
    let mut cpu = CPU8086::new();
    cpu.set_al(0x0001);
    assert_eq!(cpu.ax(), 0x0001);
    cpu.set_al(0);
    cpu.set_ah(0x01);
    assert_eq!(cpu.ax(), 0x0100);
    cpu.set_ah(0);
    cpu.set_al(0);
    cpu.set_ax(0x01);
    assert_eq!(cpu.ax(), 0x0001);
    // B
    let mut cpu = CPU8086::new();
    cpu.set_bl(0x02);
    assert_eq!(cpu.bx(), 2);
    cpu.set_bl(0);
    cpu.set_bh(0x02);
    assert_eq!(cpu.bx(), 512);
    cpu.set_bh(0);
    cpu.set_bl(0);
    cpu.set_bx(0x02);
    assert_eq!(cpu.bx(), 0x0002);
    // C
    let mut cpu = CPU8086::new();
    cpu.set_cl(0x04);
    assert_eq!(cpu.cx(), 4);
    cpu.set_cl(0);
    cpu.set_ch(0x04);
    assert_eq!(cpu.cx(), 1024);
    cpu.set_ch(0);
    cpu.set_cl(0);
    cpu.set_cx(0x03);
    assert_eq!(cpu.cx(), 0x0003);
    // D
    let mut cpu = CPU8086::new();
    cpu.set_dl(0x08);
    assert_eq!(cpu.dx(), 8);
    cpu.set_dl(0);
    cpu.set_dh(0x08);
    assert_eq!(cpu.dx(), 2048);
    cpu.set_dh(0);
    cpu.set_dl(0);
    cpu.set_dx(0x04);
    assert_eq!(cpu.dx(), 0x0004);
    // BP
    let mut cpu = CPU8086::new();
    cpu.set_bp(0x11);
    assert_eq!(cpu.bp(), 0x11);
    // SP
    let mut cpu = CPU8086::new();
    cpu.set_sp(0x22);
    assert_eq!(cpu.sp(), 0x22);
    // DI
    let mut cpu = CPU8086::new();
    cpu.set_di(0x33);
    assert_eq!(cpu.di(), 0x33);
    // SI
    let mut cpu = CPU8086::new();
    cpu.set_si(0x44);
    assert_eq!(cpu.si(), 0x44);
}

fn reg(register: Register) -> RegisterOp {
    RegisterOp { register }
}

#[test]
fn read_after_write_on_every_register() {
    let all = [
        Register::AX, Register::AL, Register::AH, Register::BX, Register::BL, Register::BH,
        Register::CX, Register::CL, Register::CH, Register::DX, Register::DL, Register::DH,
        Register::BP, Register::SP, Register::DI, Register::SI,
    ];
    for r in all {
        let mut cpu = CPU8086::new();
        cpu.set(r, 0x1234);
        let expected = match r {
            Register::AL | Register::AH | Register::BL | Register::BH | Register::CL
            | Register::CH | Register::DL | Register::DH => 0x34,
            _ => 0x1234,
        };
        assert_eq!(cpu.get(r), expected);
    }
}

#[test]
fn low_byte_write_xors_with_high_byte_and_moves_low_byte_up() {
    let mut cpu = CPU8086::new();
    cpu.set_ax(0x1234);
    cpu.set_al(0x0F);
    // the new al is 0x0F ^ 0x12, the new ah is the old al
    assert_eq!(cpu.al(), 0x1D);
    assert_eq!(cpu.ah(), 0x34);
    assert_eq!(cpu.ax(), 0x341D);
}

#[test]
fn high_byte_write_keeps_low_byte() {
    let mut cpu = CPU8086::new();
    cpu.set_cx(0xBEEF);
    cpu.set_ch(0x01);
    assert_eq!(cpu.cl(), 0xEF);
    assert_eq!(cpu.cx(), 0x01EF);
}

#[test]
fn word_write_sets_both_bytes() {
    let mut cpu = CPU8086::new();
    cpu.set_dx(0xA1B2);
    assert_eq!(cpu.dh(), 0xA1);
    assert_eq!(cpu.dl(), 0xB2);
    assert_eq!(cpu.get(Register::DH), 0xA1);
    assert_eq!(cpu.get(Register::DL), 0xB2);
}

#[test]
fn writes_leave_other_words_alone() {
    let mut cpu = CPU8086::new();
    cpu.set_ax(1);
    cpu.set_bx(2);
    cpu.set_cx(3);
    cpu.set_dx(4);
    cpu.set_bp(5);
    cpu.set_sp(6);
    cpu.set_di(7);
    cpu.set_si(8);
    cpu.set(Register::BL, 0xFF);
    assert_eq!(cpu.ax(), 1);
    assert_eq!(cpu.cx(), 3);
    assert_eq!(cpu.dx(), 4);
    assert_eq!(cpu.bp(), 5);
    assert_eq!(cpu.sp(), 6);
    assert_eq!(cpu.di(), 7);
    assert_eq!(cpu.si(), 8);
}

#[test]
fn parity_test_looks_at_bit_zero_only() {
    let cpu = CPU8086::new();
    assert!(cpu.check_parity(0));
    assert!(!cpu.check_parity(1));
    assert!(cpu.check_parity(2));
    assert!(!cpu.check_parity(3));
    assert!(cpu.check_parity(0xFE));
    assert!(!cpu.check_parity(0xFF));
}

#[test]
fn flags_setters() {
    let mut cpu = CPU8086::new();
    cpu.set_zero_flag(0);
    assert_eq!(cpu.to_string(), "\n   flags: Z");
    cpu.set_zero_flag(5);
    cpu.set_sign_flag(-1);
    assert_eq!(cpu.to_string(), "\n   flags: S");
    cpu.set_sign_flag(1);
    cpu.set_parity_flag(0x0202);
    assert_eq!(cpu.to_string(), "\n   flags: P");
    cpu.set_parity_flag(0x0201);
    assert_eq!(cpu.to_string(), "");
}

#[test]
fn display_of_processor() {
    let mut cpu = CPU8086::new();
    assert_eq!(cpu.to_string(), "");
    cpu.set_bx(0x1234);
    cpu.set_di(10);
    assert_eq!(cpu.to_string(), "\n      bx: 0x1234 (4660)\n      di: 0x000a (10)");
}

#[test]
fn register_and_command_names() {
    assert_eq!(Register::AX.to_string(), "ax");
    assert_eq!(Register::DH.to_string(), "dh");
    assert_eq!(Register::SI.to_string(), "si");
    assert_eq!(Command::MOV.to_string(), "mov");
    assert_eq!(Command::LOOPNZ.to_string(), "loopnz");
    assert_eq!(Command::JCXZ.to_string(), "jcxz");
}

#[test]
fn mov_immediate_and_register() {
    let mut cpu = CPU8086::new();
    let mut m = Mov { instruction: Instruction { command: Command::MOV, op1: reg(Register::AX), op2: ImmediateOp { value: 7 } } };
    m.execute(&mut cpu);
    assert_eq!(cpu.ax(), 7);
    let mut m = Mov { instruction: Instruction { command: Command::MOV, op1: reg(Register::AX), op2: reg(Register::BX) } };
    assert_eq!(m.debug(&cpu), "bx (0) <- ax (7)");
    m.execute(&mut cpu);
    assert_eq!(cpu.bx(), 7);
    assert_eq!(cpu.to_string(), "\n      ax: 0x0007 (7)\n      bx: 0x0007 (7)");
}

#[test]
fn add_sets_flags_and_writes_first_operand() {
    let mut cpu = CPU8086::new();
    cpu.set_ax(0x7FFF);
    let mut a = Add { instruction: Instruction { command: Command::ADD, op1: reg(Register::AX), op2: ImmediateOp { value: 1 } } };
    assert_eq!(a.debug(&cpu), "ax (32767) <- ax (32767) + 1");
    a.execute(&mut cpu);
    assert_eq!(cpu.ax(), 0x8000);
    // sign set, parity: both bytes even
    assert_eq!(cpu.to_string(), "\n      ax: 0x8000 (32768)\n   flags: SP");
    cpu.set_bx(3);
    let mut a = Add { instruction: Instruction { command: Command::ADD, op1: reg(Register::BX), op2: reg(Register::AX) } };
    a.execute(&mut cpu);
    assert_eq!(cpu.bx(), 0x8003);
    assert_eq!(cpu.to_string(), "\n      ax: 0x8000 (32768)\n      bx: 0x8003 (32771)\n   flags: S");
}

#[test]
fn sub_writes_difference() {
    let mut cpu = CPU8086::new();
    cpu.set_cx(10);
    cpu.set_dx(4);
    let mut s = Sub { instruction: Instruction { command: Command::SUB, op1: reg(Register::DX), op2: reg(Register::CX) } };
    assert_eq!(s.debug(&cpu), "cx (10) <- cx (10) - dx (4)");
    s.execute(&mut cpu);
    assert_eq!(cpu.cx(), 6);
    let mut s = Sub { instruction: Instruction { command: Command::SUB, op1: reg(Register::CX), op2: ImmediateOp { value: 6 } } };
    s.execute(&mut cpu);
    assert_eq!(cpu.cx(), 0);
    assert_eq!(cpu.to_string(), "\n      dx: 0x0004 (4)\n   flags: PZ");
}

#[test]
fn cmp_sets_flags_like_sub_without_writing() {
    let mut with_cmp = CPU8086::new();
    let mut with_sub = CPU8086::new();
    with_cmp.set_si(9);
    with_sub.set_si(9);
    let mut c = Cmp { instruction: Instruction { command: Command::CMP, op1: reg(Register::SI), op2: ImmediateOp { value: 9 } } };
    let mut s = Sub { instruction: Instruction { command: Command::SUB, op1: reg(Register::SI), op2: ImmediateOp { value: 9 } } };
    assert_eq!(c.debug(&with_cmp), "si (9) > 9");
    c.execute(&mut with_cmp);
    s.execute(&mut with_sub);
    assert_eq!(with_cmp.si(), 9);
    assert_eq!(with_sub.si(), 0);
    assert_eq!(with_cmp.to_string(), "\n      si: 0x0009 (9)\n   flags: PZ");
    assert_eq!(with_sub.to_string(), "\n   flags: PZ");
}

#[test]
fn cmp_registers_debug() {
    let mut cpu = CPU8086::new();
    cpu.set_ax(1);
    cpu.set_bx(0x9000);
    let c = Cmp { instruction: Instruction { command: Command::CMP, op1: reg(Register::AX), op2: reg(Register::BX) } };
    assert_eq!(c.debug(&cpu), "bx (36864) < ax (1)");
}

#[test]
fn mov_keeps_flags() {
    let mut cpu = CPU8086::new();
    cpu.set_zero_flag(0);
    let mut m = Mov { instruction: Instruction { command: Command::MOV, op1: reg(Register::SP), op2: ImmediateOp { value: 3 } } };
    m.execute(&mut cpu);
    assert_eq!(cpu.to_string(), "\n      sp: 0x0003 (3)\n   flags: Z");
}

#[test]
fn any_command_dispatch_and_overflow_check() {
    let mut cpu = CPU8086::new();
    cpu.set_ax(0xFFFF);
    let add = AnyCommand::from_reg_imm(Instruction { command: Command::ADD, op1: reg(Register::AX), op2: ImmediateOp { value: 1 } });
    assert!(!add.can_run(&cpu));
    let sub = AnyCommand::from_reg_reg(Instruction { command: Command::SUB, op1: reg(Register::AX), op2: reg(Register::BX) });
    assert!(!sub.can_run(&cpu));
    let mut mov = AnyCommand::from_reg_reg(Instruction { command: Command::MOV, op1: reg(Register::AX), op2: reg(Register::BX) });
    assert!(mov.can_run(&cpu));
    mov.execute(&mut cpu);
    assert_eq!(cpu.bx(), 0xFFFF);
    let mut cmp = AnyCommand::from_reg_imm(Instruction { command: Command::CMP, op1: reg(Register::BL), op2: ImmediateOp { value: 0xFF } });
    assert!(cmp.can_run(&cpu));
    cmp.execute(&mut cpu);
    assert_eq!(cpu.to_string(), "\n      ax: 0xffff (65535)\n      bx: 0xffff (65535)\n   flags: PZ");
}
