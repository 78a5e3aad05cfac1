//! The 8086 register file, its flags, and the commands that act on them.
use vstd::prelude::*;
use crate::text::{decimal, push_char, push_decimal, push_padded, radix_digits, zero_pad};

verus! {

/// The low byte of a word.
pub open spec fn lo(w: u16) -> u8 {
    (w & 0xff) as u8
}

/// The high byte of a word.
pub open spec fn hi(w: u16) -> u8 {
    (w >> 8) as u8
}

/// The word whose high byte is `h` and low byte is `l`.
pub open spec fn join(h: u8, l: u8) -> u16 {
    ((h as u16) << 8) | (l as u16)
}

/// The word with its two bytes exchanged.
pub open spec fn swap(w: u16) -> u16 {
    join(lo(w), hi(w))
}

proof fn lemma_swap_forms(w: u16)
    ensures
        swap((w << 8) ^ (w >> 8)) == w,
        (((w >> 8) as u8) as u16 ^ (((w as u8) as u16) << 8)) == swap(w),
        ((w >> 8) as u8) == lo(swap(w)),
        (w as u8) == hi(swap(w)),
        swap(swap(w)) == w,
{
    assert(swap((w << 8) ^ (w >> 8)) == w) by (bit_vector);
    assert((((w >> 8) as u8) as u16 ^ (((w as u8) as u16) << 8)) == swap(w)) by (bit_vector);
    assert(((w >> 8) as u8) == lo(swap(w))) by (bit_vector);
    assert((w as u8) == hi(swap(w))) by (bit_vector);
    assert(swap(swap(w)) == w) by (bit_vector);
}

proof fn lemma_set_low_form(v: u8, a: u16)
    ensures
        swap(((v as u16) << 8) ^ a) == join(lo(a), ((v as u16) as u8) ^ hi(a)),
{
    assert(swap(((v as u16) << 8) ^ a) == join(lo(a), ((v as u16) as u8) ^ hi(a))) by (bit_vector);
}

proof fn lemma_set_high_form(v: u8, l: u8)
    ensures
        swap(((l as u16) << 8) ^ (v as u16)) == join((v as u16) as u8, l),
{
    assert(swap(((l as u16) << 8) ^ (v as u16)) == join((v as u16) as u8, l)) by (bit_vector);
}

/// The registers of the 8086 that commands name: the four general word
/// registers with their byte halves, and the pointer and index registers.
#[derive(Clone, Copy, PartialEq, Eq, Structural, Debug)]
pub enum Register {
    AX,
    AL,
    AH,
    BX,
    BL,
    BH,
    CX,
    CL,
    CH,
    DX,
    DL,
    DH,
    BP,
    SP,
    DI,
    SI,
}

impl Register {
    /// Which of the eight words the register lives in: `ax`, `bx`, `cx`, `dx`,
    /// `bp`, `sp`, `di`, `si` in that order.
    pub open spec fn word_index(self) -> int {
        match self {
            Register::AX | Register::AL | Register::AH => 0,
            Register::BX | Register::BL | Register::BH => 1,
            Register::CX | Register::CL | Register::CH => 2,
            Register::DX | Register::DL | Register::DH => 3,
            Register::BP => 4,
            Register::SP => 5,
            Register::DI => 6,
            Register::SI => 7,
        }
    }

    /// The register is the low byte of its word (`al`, `bl`, `cl`, `dl`).
    pub open spec fn is_low_byte(self) -> bool {
        self is AL || self is BL || self is CL || self is DL
    }

    /// The register is the high byte of its word (`ah`, `bh`, `ch`, `dh`).
    pub open spec fn is_high_byte(self) -> bool {
        self is AH || self is BH || self is CH || self is DH
    }

    /// The register is a whole word.
    pub open spec fn is_word(self) -> bool {
        !self.is_low_byte() && !self.is_high_byte()
    }

    /// The value that a write of `v` to this register is meant to leave there:
    /// `v` itself for a word, its low byte for a byte register.
    pub open spec fn fit(self, v: u16) -> u16 {
        if self.is_word() {
            v
        } else {
            (v as u8) as u16
        }
    }

    /// The register's name in lower case, as it is printed.
    pub open spec fn name(self) -> Seq<char> {
        match self {
            Register::AX => "ax"@,
            Register::AL => "al"@,
            Register::AH => "ah"@,
            Register::BX => "bx"@,
            Register::BL => "bl"@,
            Register::BH => "bh"@,
            Register::CX => "cx"@,
            Register::CL => "cl"@,
            Register::CH => "ch"@,
            Register::DX => "dx"@,
            Register::DL => "dl"@,
            Register::DH => "dh"@,
            Register::BP => "bp"@,
            Register::SP => "sp"@,
            Register::DI => "di"@,
            Register::SI => "si"@,
        }
    }

    /// The register's name in lower case.
    pub fn to_string(&self) -> (s: String)
        ensures
            s@ == self.name(),
    {
        let lit = match self {
            Register::AX => "ax",
            Register::AL => "al",
            Register::AH => "ah",
            Register::BX => "bx",
            Register::BL => "bl",
            Register::BH => "bh",
            Register::CX => "cx",
            Register::CL => "cl",
            Register::CH => "ch",
            Register::DX => "dx",
            Register::DL => "dl",
            Register::DH => "dh",
            Register::BP => "bp",
            Register::SP => "sp",
            Register::DI => "di",
            Register::SI => "si",
        };
        String::from_str(lit)
    }
}

/// What a program can observe of the processor: the eight 16-bit words
/// (`ax`, `bx`, `cx`, `dx`, `bp`, `sp`, `di`, `si`, by `Register::word_index`)
/// and the zero, sign and parity flags.
pub struct CpuView {
    pub regs: Seq<u16>,
    pub zero_flag: bool,
    pub sign_flag: bool,
    pub parity_flag: bool,
}

/// The parity test applied to one byte. Each of the eight single-bit masks is
/// and-ed with the byte and the result compared with 1, so only the lowest bit
/// can ever count: the test holds exactly when bit 0 of the byte is clear.
pub open spec fn byte_parity(val: u8) -> bool {
    val % 2 == 0
}

/// The parity flag for a 16-bit result: the byte test holds for both bytes.
pub open spec fn word_parity(val: u16) -> bool {
    byte_parity(hi(val)) && byte_parity(lo(val))
}

impl CpuView {
    /// The processor right after reset: all words zero, all flags clear.
    pub open spec fn initial() -> CpuView {
        CpuView {
            regs: Seq::new(8, |_i: int| 0u16),
            zero_flag: false,
            sign_flag: false,
            parity_flag: false,
        }
    }

    /// There are eight words.
    pub open spec fn wf(self) -> bool {
        self.regs.len() == 8
    }

    /// The value read from a register: the whole word, or one of its bytes.
    pub open spec fn read(self, r: Register) -> u16 {
        let w = self.regs[r.word_index()];
        if r.is_low_byte() {
            lo(w) as u16
        } else if r.is_high_byte() {
            hi(w) as u16
        } else {
            w
        }
    }

    /// The processor after writing `v` to register `r`. A word register takes
    /// `v`; a high-byte register takes the low byte of `v` and keeps the low
    /// byte of its word. A low-byte register write stores the low byte of `v`
    /// xor-ed with the old high byte into the low byte, and moves the old low
    /// byte into the high byte.
    pub open spec fn write(self, r: Register, v: u16) -> CpuView {
        let w = self.regs[r.word_index()];
        let nw = if r.is_low_byte() {
            join(lo(w), (v as u8) ^ hi(w))
        } else if r.is_high_byte() {
            join(v as u8, lo(w))
        } else {
            v
        };
        CpuView { regs: self.regs.update(r.word_index(), nw), ..self }
    }

    /// The processor after setting the flags from a 16-bit result: zero when
    /// the result is 0, sign when it is negative as a signed word, parity by
    /// `word_parity`.
    pub open spec fn set_flags(self, val: u16) -> CpuView {
        CpuView {
            zero_flag: val == 0,
            sign_flag: (val as i16) < 0,
            parity_flag: word_parity(val),
            ..self
        }
    }
}

/// The processor state: eight 16-bit words and three flags.
///
/// The general registers keep their two bytes exchanged in storage (the low
/// byte in the upper half); `CpuView` shows each word as read.
pub struct CPU8086 {
    regs: [u16; 8],
    zero_flag: bool,
    sign_flag: bool,
    parity_flag: bool,
    ax: usize,
    bx: usize,
    cx: usize,
    dx: usize,
    bp: usize,
    sp: usize,
    di: usize,
    si: usize,
}

impl CPU8086 {
    #[verifier::type_invariant]
    spec fn inv(self) -> bool {
        &&& self.ax == 0
        &&& self.bx == 1
        &&& self.cx == 2
        &&& self.dx == 3
        &&& self.bp == 4
        &&& self.sp == 5
        &&& self.di == 6
        &&& self.si == 7
    }
}

impl View for CPU8086 {
    type V = CpuView;

    closed spec fn view(&self) -> CpuView {
        CpuView {
            regs: seq![
                swap(self.regs@[0]),
                swap(self.regs@[1]),
                swap(self.regs@[2]),
                swap(self.regs@[3]),
                self.regs@[4],
                self.regs@[5],
                self.regs@[6],
                self.regs@[7],
            ],
            zero_flag: self.zero_flag,
            sign_flag: self.sign_flag,
            parity_flag: self.parity_flag,
        }
    }
}

impl CPU8086 {
    /// A processor with every register zero and every flag clear.
    pub fn new() -> (cpu: Self)
        ensures
            cpu@ == CpuView::initial(),
    {
        let cpu = CPU8086 {
            regs: [0, 0, 0, 0, 0, 0, 0, 0],
            ax: 0,
            bx: 1,
            cx: 2,
            dx: 3,
            bp: 4,
            sp: 5,
            di: 6,
            si: 7,
            zero_flag: false,
            sign_flag: false,
            parity_flag: false,
        };
        assert(swap(0) == 0) by (bit_vector);
        assert(cpu@.regs =~= CpuView::initial().regs);
        cpu
    }

    /// There are always eight words.
    pub proof fn lemma_wf(&self)
        ensures
            self@.wf(),
    {
    }

    /// Sets the sign flag when `val` is negative.
    pub fn set_sign_flag(&mut self, val: i16)
        ensures
            final(self)@ == (CpuView { sign_flag: val < 0, ..old(self)@ }),
    {
        proof {
            use_type_invariant(&*self);
        }
        self.sign_flag = val < 0;
    }

    /// Sets the zero flag when `val` is zero.
    pub fn set_zero_flag(&mut self, val: u16)
        ensures
            final(self)@ == (CpuView { zero_flag: val == 0, ..old(self)@ }),
    {
        proof {
            use_type_invariant(&*self);
        }
        self.zero_flag = val == 0;
    }

    /// Sets the parity flag from both bytes of `val` (see `word_parity`).
    pub fn set_parity_flag(&mut self, val: u16)
        ensures
            final(self)@ == (CpuView { parity_flag: word_parity(val), ..old(self)@ }),
    {
        proof {
            use_type_invariant(&*self);
            assert((val & 0x00FF) as u8 == crate::cpu_sim::lo(val)) by (bit_vector);
        }
        let hi: u8 = (val >> 8) as u8;
        let lo: u8 = (val & 0x00FF) as u8;
        self.parity_flag = self.check_parity(hi) && self.check_parity(lo);
    }

    /// Counts the masks among the eight single-bit masks for which
    /// `val & mask == 1`, and reports whether that count is even
    /// (see `byte_parity`).
    pub fn check_parity(&self, val: u8) -> (r: bool)
        ensures
            r == byte_parity(val),
    {
        let mut count_ones: u8 = 0;
        let masks: [u8; 8] = [0x1, 0x2, 0x4, 0x8, 0x10, 0x20, 0x40, 0x80];
        let mut i: usize = 0;
        while i < 8
            invariant
                i <= 8,
                masks@ == seq![0x1u8, 0x2, 0x4, 0x8, 0x10, 0x20, 0x40, 0x80],
                count_ones == (if i > 0 && val & 1 == 1 { 1u8 } else { 0u8 }),
            decreases 8 - i,
        {
            let mask = masks[i];
            if i > 0 {
                assert(val & 2 != 1 && val & 4 != 1 && val & 8 != 1 && val & 0x10 != 1
                    && val & 0x20 != 1 && val & 0x40 != 1 && val & 0x80 != 1) by (bit_vector);
            }
            if val & mask == 1 {
                count_ones += 1;
            }
            i += 1;
        }
        assert((val & 1 == 1) == (val % 2 == 1)) by (bit_vector);
        count_ones.is_multiple_of(2)
    }

    /// The value of register `reg`.
    pub fn get(&self, reg: Register) -> (r: u16)
        ensures
            r == self@.read(reg),
    {
        match reg {
            Register::AX => self.ax(),
            Register::AL => self.al() as u16,
            Register::AH => self.ah() as u16,
            Register::BX => self.bx(),
            Register::BL => self.bl() as u16,
            Register::BH => self.bh() as u16,
            Register::CX => self.cx(),
            Register::CL => self.cl() as u16,
            Register::CH => self.ch() as u16,
            Register::DX => self.dx(),
            Register::DL => self.dl() as u16,
            Register::DH => self.dh() as u16,
            Register::BP => self.bp(),
            Register::SP => self.sp(),
            Register::DI => self.di(),
            Register::SI => self.si(),
        }
    }

    /// Writes `val` to register `reg`; a byte register takes the low byte of
    /// `val` (see `CpuView::write`).
    pub fn set(&mut self, reg: Register, val: u16)
        ensures
            final(self)@ == old(self)@.write(reg, val),
    {
        proof {
            assert(((val as u8) as u16) as u8 == val as u8) by (bit_vector);
        }
        match reg {
            Register::AX => self.set_ax(val),
            Register::AL => self.set_al(val as u8),
            Register::AH => self.set_ah(val as u8),
            Register::BX => self.set_bx(val),
            Register::BL => self.set_bl(val as u8),
            Register::BH => self.set_bh(val as u8),
            Register::CX => self.set_cx(val),
            Register::CL => self.set_cl(val as u8),
            Register::CH => self.set_ch(val as u8),
            Register::DX => self.set_dx(val),
            Register::DL => self.set_dl(val as u8),
            Register::DH => self.set_dh(val as u8),
            Register::BP => self.set_bp(val),
            Register::SP => self.set_sp(val),
            Register::DI => self.set_di(val),
            Register::SI => self.set_si(val),
        }
    }

    /// Sets `ax` to `val`.
    pub fn set_ax(&mut self, val: u16)
        ensures
            final(self)@ == old(self)@.write(Register::AX, val),
    {
        proof {
            use_type_invariant(&*self);
            lemma_swap_forms(val);
        }
        let low = val << 8;
        let high = val >> 8;
        self.regs[self.ax] = low ^ high;
        assert(self@.regs =~= old(self)@.regs.update(0, val));
    }

    /// The 16-bit value of `ax`.
    pub fn ax(&self) -> (r: u16)
        ensures
            r == self@.read(Register::AX),
    {
        proof {
            use_type_invariant(self);
            lemma_swap_forms(self.regs@[0]);
        }
        self.al() as u16 ^ ((self.ah() as u16) << 8)
    }

    /// Writes `val` into `al`, the way the register pair is updated here:
    /// the new `al` is `val` xor the old `ah`, and the new `ah` is the old `al`
    /// (see `CpuView::write`).
    pub fn set_al(&mut self, val: u8)
        ensures
            final(self)@ == old(self)@.write(Register::AL, val as u16),
    {
        proof {
            use_type_invariant(&*self);
            lemma_swap_forms(self.regs@[0]);
            lemma_set_low_form(val, swap(self.regs@[0]));
        }
        self.regs[self.ax] = ((val as u16) << 8) ^ self.ax();
        assert(self@.regs =~= old(self)@.regs.update(0, old(self)@.write(Register::AL, val as u16).regs[0]));
    }

    /// The low byte `al`.
    pub fn al(&self) -> (r: u8)
        ensures
            r as u16 == self@.read(Register::AL),
    {
        proof {
            use_type_invariant(self);
            lemma_swap_forms(self.regs@[0]);
        }
        (self.regs[self.ax] >> 8) as u8
    }

    /// Writes `val` into `ah`, keeping `al`.
    pub fn set_ah(&mut self, val: u8)
        ensures
            final(self)@ == old(self)@.write(Register::AH, val as u16),
    {
        proof {
            use_type_invariant(&*self);
            lemma_swap_forms(self.regs@[0]);
            lemma_set_high_form(val, hi(self.regs@[0]));
        }
        self.regs[self.ax] = ((self.al() as u16) << 8) ^ val as u16;
        assert(self@.regs =~= old(self)@.regs.update(0, old(self)@.write(Register::AH, val as u16).regs[0]));
    }

    /// The high byte `ah`.
    pub fn ah(&self) -> (r: u8)
        ensures
            r as u16 == self@.read(Register::AH),
    {
        proof {
            use_type_invariant(self);
            lemma_swap_forms(self.regs@[0]);
        }
        self.regs[self.ax] as u8
    }

    /// Sets `bx` to `val`.
    pub fn set_bx(&mut self, val: u16)
        ensures
            final(self)@ == old(self)@.write(Register::BX, val),
    {
        proof {
            use_type_invariant(&*self);
            lemma_swap_forms(val);
        }
        let low = val << 8;
        let high = val >> 8;
        self.regs[self.bx] = low ^ high;
        assert(self@.regs =~= old(self)@.regs.update(1, val));
    }

    /// The 16-bit value of `bx`.
    pub fn bx(&self) -> (r: u16)
        ensures
            r == self@.read(Register::BX),
    {
        proof {
            use_type_invariant(self);
            lemma_swap_forms(self.regs@[1]);
        }
        self.bl() as u16 ^ ((self.bh() as u16) << 8)
    }

    /// Writes `val` into `bl`, the way the register pair is updated here:
    /// the new `bl` is `val` xor the old `bh`, and the new `bh` is the old `bl`
    /// (see `CpuView::write`).
    pub fn set_bl(&mut self, val: u8)
        ensures
            final(self)@ == old(self)@.write(Register::BL, val as u16),
    {
        proof {
            use_type_invariant(&*self);
            lemma_swap_forms(self.regs@[1]);
            lemma_set_low_form(val, swap(self.regs@[1]));
        }
        self.regs[self.bx] = ((val as u16) << 8) ^ self.bx();
        assert(self@.regs =~= old(self)@.regs.update(1, old(self)@.write(Register::BL, val as u16).regs[1]));
    }

    /// The low byte `bl`.
    pub fn bl(&self) -> (r: u8)
        ensures
            r as u16 == self@.read(Register::BL),
    {
        proof {
            use_type_invariant(self);
            lemma_swap_forms(self.regs@[1]);
        }
        (self.regs[self.bx] >> 8) as u8
    }

    /// Writes `val` into `bh`, keeping `bl`.
    pub fn set_bh(&mut self, val: u8)
        ensures
            final(self)@ == old(self)@.write(Register::BH, val as u16),
    {
        proof {
            use_type_invariant(&*self);
            lemma_swap_forms(self.regs@[1]);
            lemma_set_high_form(val, hi(self.regs@[1]));
        }
        self.regs[self.bx] = ((self.bl() as u16) << 8) ^ val as u16;
        assert(self@.regs =~= old(self)@.regs.update(1, old(self)@.write(Register::BH, val as u16).regs[1]));
    }

    /// The high byte `bh`.
    pub fn bh(&self) -> (r: u8)
        ensures
            r as u16 == self@.read(Register::BH),
    {
        proof {
            use_type_invariant(self);
            lemma_swap_forms(self.regs@[1]);
        }
        self.regs[self.bx] as u8
    }

    /// Sets `cx` to `val`.
    pub fn set_cx(&mut self, val: u16)
        ensures
            final(self)@ == old(self)@.write(Register::CX, val),
    {
        proof {
            use_type_invariant(&*self);
            lemma_swap_forms(val);
        }
        let low = val << 8;
        let high = val >> 8;
        self.regs[self.cx] = low ^ high;
        assert(self@.regs =~= old(self)@.regs.update(2, val));
    }

    /// The 16-bit value of `cx`.
    pub fn cx(&self) -> (r: u16)
        ensures
            r == self@.read(Register::CX),
    {
        proof {
            use_type_invariant(self);
            lemma_swap_forms(self.regs@[2]);
        }
        self.cl() as u16 ^ ((self.ch() as u16) << 8)
    }

    /// Writes `val` into `cl`, the way the register pair is updated here:
    /// the new `cl` is `val` xor the old `ch`, and the new `ch` is the old `cl`
    /// (see `CpuView::write`).
    pub fn set_cl(&mut self, val: u8)
        ensures
            final(self)@ == old(self)@.write(Register::CL, val as u16),
    {
        proof {
            use_type_invariant(&*self);
            lemma_swap_forms(self.regs@[2]);
            lemma_set_low_form(val, swap(self.regs@[2]));
        }
        self.regs[self.cx] = ((val as u16) << 8) ^ self.cx();
        assert(self@.regs =~= old(self)@.regs.update(2, old(self)@.write(Register::CL, val as u16).regs[2]));
    }

    /// The low byte `cl`.
    pub fn cl(&self) -> (r: u8)
        ensures
            r as u16 == self@.read(Register::CL),
    {
        proof {
            use_type_invariant(self);
            lemma_swap_forms(self.regs@[2]);
        }
        (self.regs[self.cx] >> 8) as u8
    }

    /// Writes `val` into `ch`, keeping `cl`.
    pub fn set_ch(&mut self, val: u8)
        ensures
            final(self)@ == old(self)@.write(Register::CH, val as u16),
    {
        proof {
            use_type_invariant(&*self);
            lemma_swap_forms(self.regs@[2]);
            lemma_set_high_form(val, hi(self.regs@[2]));
        }
        self.regs[self.cx] = ((self.cl() as u16) << 8) ^ val as u16;
        assert(self@.regs =~= old(self)@.regs.update(2, old(self)@.write(Register::CH, val as u16).regs[2]));
    }

    /// The high byte `ch`.
    pub fn ch(&self) -> (r: u8)
        ensures
            r as u16 == self@.read(Register::CH),
    {
        proof {
            use_type_invariant(self);
            lemma_swap_forms(self.regs@[2]);
        }
        self.regs[self.cx] as u8
    }

    /// Sets `dx` to `val`.
    pub fn set_dx(&mut self, val: u16)
        ensures
            final(self)@ == old(self)@.write(Register::DX, val),
    {
        proof {
            use_type_invariant(&*self);
            lemma_swap_forms(val);
        }
        let low = val << 8;
        let high = val >> 8;
        self.regs[self.dx] = low ^ high;
        assert(self@.regs =~= old(self)@.regs.update(3, val));
    }

    /// The 16-bit value of `dx`.
    pub fn dx(&self) -> (r: u16)
        ensures
            r == self@.read(Register::DX),
    {
        proof {
            use_type_invariant(self);
            lemma_swap_forms(self.regs@[3]);
        }
        self.dl() as u16 ^ ((self.dh() as u16) << 8)
    }

    /// Writes `val` into `dl`, the way the register pair is updated here:
    /// the new `dl` is `val` xor the old `dh`, and the new `dh` is the old `dl`
    /// (see `CpuView::write`).
    pub fn set_dl(&mut self, val: u8)
        ensures
            final(self)@ == old(self)@.write(Register::DL, val as u16),
    {
        proof {
            use_type_invariant(&*self);
            lemma_swap_forms(self.regs@[3]);
            lemma_set_low_form(val, swap(self.regs@[3]));
        }
        self.regs[self.dx] = ((val as u16) << 8) ^ self.dx();
        assert(self@.regs =~= old(self)@.regs.update(3, old(self)@.write(Register::DL, val as u16).regs[3]));
    }

    /// The low byte `dl`.
    pub fn dl(&self) -> (r: u8)
        ensures
            r as u16 == self@.read(Register::DL),
    {
        proof {
            use_type_invariant(self);
            lemma_swap_forms(self.regs@[3]);
        }
        (self.regs[self.dx] >> 8) as u8
    }

    /// Writes `val` into `dh`, keeping `dl`.
    pub fn set_dh(&mut self, val: u8)
        ensures
            final(self)@ == old(self)@.write(Register::DH, val as u16),
    {
        proof {
            use_type_invariant(&*self);
            lemma_swap_forms(self.regs@[3]);
            lemma_set_high_form(val, hi(self.regs@[3]));
        }
        self.regs[self.dx] = ((self.dl() as u16) << 8) ^ val as u16;
        assert(self@.regs =~= old(self)@.regs.update(3, old(self)@.write(Register::DH, val as u16).regs[3]));
    }

    /// The high byte `dh`.
    pub fn dh(&self) -> (r: u8)
        ensures
            r as u16 == self@.read(Register::DH),
    {
        proof {
            use_type_invariant(self);
            lemma_swap_forms(self.regs@[3]);
        }
        self.regs[self.dx] as u8
    }

    /// Sets `bp` to `val`.
    pub fn set_bp(&mut self, val: u16)
        ensures
            final(self)@ == old(self)@.write(Register::BP, val),
    {
        proof {
            use_type_invariant(&*self);
        }
        self.regs[self.bp] = val;
        assert(self@.regs =~= old(self)@.regs.update(4, val));
    }

    /// The value of `bp`.
    pub fn bp(&self) -> (r: u16)
        ensures
            r == self@.read(Register::BP),
    {
        proof {
            use_type_invariant(self);
        }
        self.regs[self.bp]
    }

    /// Sets `sp` to `val`.
    pub fn set_sp(&mut self, val: u16)
        ensures
            final(self)@ == old(self)@.write(Register::SP, val),
    {
        proof {
            use_type_invariant(&*self);
        }
        self.regs[self.sp] = val;
        assert(self@.regs =~= old(self)@.regs.update(5, val));
    }

    /// The value of `sp`.
    pub fn sp(&self) -> (r: u16)
        ensures
            r == self@.read(Register::SP),
    {
        proof {
            use_type_invariant(self);
        }
        self.regs[self.sp]
    }

    /// Sets `di` to `val`.
    pub fn set_di(&mut self, val: u16)
        ensures
            final(self)@ == old(self)@.write(Register::DI, val),
    {
        proof {
            use_type_invariant(&*self);
        }
        self.regs[self.di] = val;
        assert(self@.regs =~= old(self)@.regs.update(6, val));
    }

    /// The value of `di`.
    pub fn di(&self) -> (r: u16)
        ensures
            r == self@.read(Register::DI),
    {
        proof {
            use_type_invariant(self);
        }
        self.regs[self.di]
    }

    /// Sets `si` to `val`.
    pub fn set_si(&mut self, val: u16)
        ensures
            final(self)@ == old(self)@.write(Register::SI, val),
    {
        proof {
            use_type_invariant(&*self);
        }
        self.regs[self.si] = val;
        assert(self@.regs =~= old(self)@.regs.update(7, val));
    }

    /// The value of `si`.
    pub fn si(&self) -> (r: u16)
        ensures
            r == self@.read(Register::SI),
    {
        proof {
            use_type_invariant(self);
        }
        self.regs[self.si]
    }
}

/// The order in which registers are listed when the processor is shown.
pub open spec fn display_order() -> Seq<Register> {
    seq![
        Register::AX,
        Register::BX,
        Register::CX,
        Register::DX,
        Register::SP,
        Register::BP,
        Register::SI,
        Register::DI,
    ]
}

/// The line that shows register `r` holding `v`: its name, the value in
/// four lower-case hex digits after `0x`, and the value in decimal.
pub open spec fn register_line(r: Register, v: u16) -> Seq<char> {
    "\n      "@ + r.name() + ": 0x"@ + zero_pad(radix_digits(v as nat, 16, false), 4)
        + " ("@ + decimal(v as int) + ")"@
}

/// The lines for the registers of `regs` that hold a non-zero value, in order.
pub open spec fn registers_text(cpu: CpuView, regs: Seq<Register>) -> Seq<char>
    decreases regs.len(),
{
    if regs.len() == 0 {
        Seq::empty()
    } else {
        let r = regs.last();
        let v = cpu.read(r);
        registers_text(cpu, regs.drop_last()) + if v != 0 {
            register_line(r, v)
        } else {
            Seq::empty()
        }
    }
}

/// The letters of the set flags: `S` for sign, `P` for parity, `Z` for zero.
pub open spec fn flag_letters(cpu: CpuView) -> Seq<char> {
    (if cpu.sign_flag { seq!['S'] } else { Seq::empty() })
        + (if cpu.parity_flag { seq!['P'] } else { Seq::empty() })
        + (if cpu.zero_flag { seq!['Z'] } else { Seq::empty() })
}

/// How the processor is shown: one line per non-zero register in
/// `display_order`, then a line with the set flags when any is set.
pub open spec fn cpu_text(cpu: CpuView) -> Seq<char> {
    registers_text(cpu, display_order()) + if flag_letters(cpu).len() == 0 {
        Seq::empty()
    } else {
        "\n   flags: "@ + flag_letters(cpu)
    }
}

impl CPU8086 {
    /// The processor shown as text (see `cpu_text`).
    pub fn to_string(&self) -> (s: String)
        ensures
            s@ == cpu_text(self@),
    {
        let mut output = String::new();
        let order: [Register; 8] = [
            Register::AX,
            Register::BX,
            Register::CX,
            Register::DX,
            Register::SP,
            Register::BP,
            Register::SI,
            Register::DI,
        ];
        let mut i: usize = 0;
        while i < 8
            invariant
                i <= 8,
                order@ == display_order(),
                output@ == registers_text(self@, display_order().take(i as int)),
            decreases 8 - i,
        {
            let r = order[i];
            let value = self.get(r);
            let ghost before = output@;
            if value != 0 {
                output.append("\n      ");
                output.append(r.to_string().as_str());
                output.append(": 0x");
                push_padded(&mut output, value as u64, 16, false, 4);
                output.append(" (");
                push_decimal(&mut output, value as i64);
                output.append(")");
                assert(output@ =~= before + register_line(r, value));
            }
            assert(display_order().take(i + 1).drop_last() =~= display_order().take(i as int));
            i += 1;
        }
        assert(display_order().take(8) =~= display_order());
        let ghost regs_part = output@;
        let mut flags = String::new();
        if self.sign_flag {
            push_char(&mut flags, 'S');
        }
        if self.parity_flag {
            push_char(&mut flags, 'P');
        }
        if self.zero_flag {
            push_char(&mut flags, 'Z');
        }
        assert(flags@ =~= flag_letters(self@));
        if self.sign_flag || self.parity_flag || self.zero_flag {
            output.append("\n   flags: ");
            output.append(flags.as_str());
        }
        assert(output@ =~= cpu_text(self@));
        output
    }
}

/// The commands that the decoder knows.
#[derive(Clone, Copy, PartialEq, Eq, Structural, Hash, Debug)]
pub enum Command {
    MOV,
    ADD,
    SUB,
    CMP,
    JNZ,
    JE,
    JL,
    JLE,
    JB,
    JBE,
    JP,
    JO,
    JS,
    JNE,
    JNL,
    JG,
    JNB,
    JA,
    JNP,
    JNO,
    JNS,
    LOOP,
    LOOPZ,
    LOOPNZ,
    JCXZ,
}

impl Command {
    /// The mnemonic in lower case, as it is printed.
    pub open spec fn name(self) -> Seq<char> {
        match self {
            Command::MOV => "mov"@,
            Command::ADD => "add"@,
            Command::SUB => "sub"@,
            Command::CMP => "cmp"@,
            Command::JNZ => "jnz"@,
            Command::JE => "je"@,
            Command::JL => "jl"@,
            Command::JLE => "jle"@,
            Command::JB => "jb"@,
            Command::JBE => "jbe"@,
            Command::JP => "jp"@,
            Command::JO => "jo"@,
            Command::JS => "js"@,
            Command::JNE => "jne"@,
            Command::JNL => "jnl"@,
            Command::JG => "jg"@,
            Command::JNB => "jnb"@,
            Command::JA => "ja"@,
            Command::JNP => "jnp"@,
            Command::JNO => "jno"@,
            Command::JNS => "jns"@,
            Command::LOOP => "loop"@,
            Command::LOOPZ => "loopz"@,
            Command::LOOPNZ => "loopnz"@,
            Command::JCXZ => "jcxz"@,
        }
    }

    /// The command moves or computes on registers: `mov`, `add`, `sub` or `cmp`.
    pub open spec fn is_data_command(self) -> bool {
        self is MOV || self is ADD || self is SUB || self is CMP
    }

    /// The mnemonic in lower case.
    pub fn to_string(&self) -> (s: String)
        ensures
            s@ == self.name(),
    {
        let lit = match self {
            Command::MOV => "mov",
            Command::ADD => "add",
            Command::SUB => "sub",
            Command::CMP => "cmp",
            Command::JNZ => "jnz",
            Command::JE => "je",
            Command::JL => "jl",
            Command::JLE => "jle",
            Command::JB => "jb",
            Command::JBE => "jbe",
            Command::JP => "jp",
            Command::JO => "jo",
            Command::JS => "js",
            Command::JNE => "jne",
            Command::JNL => "jnl",
            Command::JG => "jg",
            Command::JNB => "jnb",
            Command::JA => "ja",
            Command::JNP => "jnp",
            Command::JNO => "jno",
            Command::JNS => "jns",
            Command::LOOP => "loop",
            Command::LOOPZ => "loopz",
            Command::LOOPNZ => "loopnz",
            Command::JCXZ => "jcxz",
        };
        String::from_str(lit)
    }
}

/// A kind of operand: a register or an immediate value.
pub trait Operand {}

/// An operand that names a register.
#[derive(Clone, Copy, PartialEq, Eq, Structural, Debug)]
pub struct RegisterOp {
    pub register: Register,
}

impl Operand for RegisterOp {}

/// An operand that is a value written in the instruction.
#[derive(Clone, Copy, PartialEq, Eq, Structural, Debug)]
pub struct ImmediateOp {
    pub value: u16,
}

impl Operand for ImmediateOp {}

/// A command with its two operands.
#[derive(Debug)]
pub struct Instruction<T: Operand, E: Operand> {
    pub command: Command,
    pub op1: T,
    pub op2: E,
}

/// Something that can run on the processor and describe what it does.
pub trait CommandImpl: Sized {
    /// Running on `cpu` stays within 16-bit arithmetic.
    spec fn can_execute(&self, cpu: CpuView) -> bool;

    /// The processor after running on `cpu`.
    spec fn spec_execute(&self, cpu: CpuView) -> CpuView;

    /// Describing the run on `cpu` stays within 16-bit arithmetic.
    spec fn can_debug(&self, cpu: CpuView) -> bool;

    /// The description of the run on `cpu`.
    spec fn spec_debug(&self, cpu: CpuView) -> Seq<char>;

    /// Runs on `cpu`.
    fn execute(&mut self, cpu: &mut CPU8086)
        requires
            old(self).can_execute(old(cpu)@),
        ensures
            final(cpu)@ == old(self).spec_execute(old(cpu)@),
            *final(self) == *old(self),
    ;

    /// Describes the run on `cpu` with the registers' current values.
    fn debug(&self, cpu: &CPU8086) -> (line: String)
        requires
            self.can_debug(cpu@),
        ensures
            line@ == self.spec_debug(cpu@),
    ;
}

/// The register name followed by its value in brackets, as in `ax (5)`.
pub open spec fn reg_with_value(r: Register, cpu: CpuView) -> Seq<char> {
    r.name() + " ("@ + decimal(cpu.read(r) as int) + ")"@
}

fn push_reg_with_value(s: &mut String, r: Register, cpu: &CPU8086)
    ensures
        final(s)@ == old(s)@ + reg_with_value(r, cpu@),
{
    let ghost s0 = s@;
    s.append(r.to_string().as_str());
    s.append(" (");
    push_decimal(s, cpu.get(r) as i64);
    s.append(")");
    assert(s@ =~= s0 + reg_with_value(r, cpu@));
}

/// `mov`: copies a value into a register.
#[derive(Debug)]
pub struct Mov<T: Operand, E: Operand> {
    pub instruction: Instruction<T, E>,
}

impl CommandImpl for Mov<RegisterOp, ImmediateOp> {
    /// Moving never overflows.
    open spec fn can_execute(&self, cpu: CpuView) -> bool {
        true
    }

    /// The first operand takes the immediate value.
    open spec fn spec_execute(&self, cpu: CpuView) -> CpuView {
        cpu.write(self.instruction.op1.register, self.instruction.op2.value)
    }

    open spec fn can_debug(&self, cpu: CpuView) -> bool {
        true
    }

    /// `reg (value) <- immediate`.
    open spec fn spec_debug(&self, cpu: CpuView) -> Seq<char> {
        reg_with_value(self.instruction.op1.register, cpu) + " <- "@ + decimal(
            self.instruction.op2.value as int,
        )
    }

    fn execute(&mut self, cpu: &mut CPU8086) {
        cpu.set(self.instruction.op1.register, self.instruction.op2.value);
    }

    fn debug(&self, cpu: &CPU8086) -> (line: String) {
        let mut line = String::new();
        push_reg_with_value(&mut line, self.instruction.op1.register, cpu);
        line.append(" <- ");
        push_decimal(&mut line, self.instruction.op2.value as i64);
        line
    }
}

impl CommandImpl for Mov<RegisterOp, RegisterOp> {
    /// Moving never overflows.
    open spec fn can_execute(&self, cpu: CpuView) -> bool {
        true
    }

    /// The second operand takes the value of the first.
    open spec fn spec_execute(&self, cpu: CpuView) -> CpuView {
        cpu.write(self.instruction.op2.register, cpu.read(self.instruction.op1.register))
    }

    open spec fn can_debug(&self, cpu: CpuView) -> bool {
        true
    }

    /// `dst (value) <- src (value)`.
    open spec fn spec_debug(&self, cpu: CpuView) -> Seq<char> {
        reg_with_value(self.instruction.op2.register, cpu) + " <- "@ + reg_with_value(
            self.instruction.op1.register,
            cpu,
        )
    }

    fn execute(&mut self, cpu: &mut CPU8086) {
        let v = cpu.get(self.instruction.op1.register);
        cpu.set(self.instruction.op2.register, v);
    }

    fn debug(&self, cpu: &CPU8086) -> (line: String) {
        let mut line = String::new();
        push_reg_with_value(&mut line, self.instruction.op2.register, cpu);
        line.append(" <- ");
        push_reg_with_value(&mut line, self.instruction.op1.register, cpu);
        line
    }
}

/// `add`: adds into a register and sets the flags from the sum.
#[derive(Debug)]
pub struct Add<T: Operand, E: Operand> {
    pub instruction: Instruction<T, E>,
}

impl CommandImpl for Add<RegisterOp, ImmediateOp> {
    /// The sum fits in 16 bits.
    open spec fn can_execute(&self, cpu: CpuView) -> bool {
        cpu.read(self.instruction.op1.register) + self.instruction.op2.value <= u16::MAX
    }

    /// The flags are set from the sum, which the first operand then takes.
    open spec fn spec_execute(&self, cpu: CpuView) -> CpuView {
        let val = (cpu.read(self.instruction.op1.register) + self.instruction.op2.value) as u16;
        cpu.set_flags(val).write(self.instruction.op1.register, val)
    }

    open spec fn can_debug(&self, cpu: CpuView) -> bool {
        true
    }

    /// `reg (value) <- reg (value) + immediate`.
    open spec fn spec_debug(&self, cpu: CpuView) -> Seq<char> {
        reg_with_value(self.instruction.op1.register, cpu) + " <- "@ + reg_with_value(
            self.instruction.op1.register,
            cpu,
        ) + " + "@ + decimal(self.instruction.op2.value as int)
    }

    fn execute(&mut self, cpu: &mut CPU8086) {
        let val = cpu.get(self.instruction.op1.register) + self.instruction.op2.value;
        cpu.set_zero_flag(val);
        cpu.set_sign_flag(val as i16);
        cpu.set_parity_flag(val);
        cpu.set(self.instruction.op1.register, val);
        assert(cpu@.regs =~= old(self).spec_execute(old(cpu)@).regs);
    }

    fn debug(&self, cpu: &CPU8086) -> (line: String) {
        let mut line = String::new();
        push_reg_with_value(&mut line, self.instruction.op1.register, cpu);
        line.append(" <- ");
        push_reg_with_value(&mut line, self.instruction.op1.register, cpu);
        line.append(" + ");
        push_decimal(&mut line, self.instruction.op2.value as i64);
        line
    }
}

impl CommandImpl for Add<RegisterOp, RegisterOp> {
    /// The sum fits in 16 bits.
    open spec fn can_execute(&self, cpu: CpuView) -> bool {
        cpu.read(self.instruction.op1.register) + cpu.read(self.instruction.op2.register)
            <= u16::MAX
    }

    /// The flags are set from the sum, which the first operand then takes.
    open spec fn spec_execute(&self, cpu: CpuView) -> CpuView {
        let val = (cpu.read(self.instruction.op1.register) + cpu.read(
            self.instruction.op2.register,
        )) as u16;
        cpu.set_flags(val).write(self.instruction.op1.register, val)
    }

    open spec fn can_debug(&self, cpu: CpuView) -> bool {
        true
    }

    /// `dst (value) <- dst (value) + src (value)`, the first operand as `dst`.
    open spec fn spec_debug(&self, cpu: CpuView) -> Seq<char> {
        reg_with_value(self.instruction.op1.register, cpu) + " <- "@ + reg_with_value(
            self.instruction.op1.register,
            cpu,
        ) + " + "@ + reg_with_value(self.instruction.op2.register, cpu)
    }

    fn execute(&mut self, cpu: &mut CPU8086) {
        let val = cpu.get(self.instruction.op1.register) + cpu.get(self.instruction.op2.register);
        cpu.set_zero_flag(val);
        cpu.set_sign_flag(val as i16);
        cpu.set_parity_flag(val);
        cpu.set(self.instruction.op1.register, val);
        assert(cpu@.regs =~= old(self).spec_execute(old(cpu)@).regs);
    }

    fn debug(&self, cpu: &CPU8086) -> (line: String) {
        let mut line = String::new();
        push_reg_with_value(&mut line, self.instruction.op1.register, cpu);
        line.append(" <- ");
        push_reg_with_value(&mut line, self.instruction.op1.register, cpu);
        line.append(" + ");
        push_reg_with_value(&mut line, self.instruction.op2.register, cpu);
        line
    }
}

/// `sub`: subtracts in a register and sets the flags from the difference.
#[derive(Debug)]
pub struct Sub<T: Operand, E: Operand> {
    pub instruction: Instruction<T, E>,
}

impl CommandImpl for Sub<RegisterOp, ImmediateOp> {
    /// The immediate value is not larger than the register's.
    open spec fn can_execute(&self, cpu: CpuView) -> bool {
        cpu.read(self.instruction.op1.register) >= self.instruction.op2.value
    }

    /// The flags are set from the difference, which the first operand then takes.
    open spec fn spec_execute(&self, cpu: CpuView) -> CpuView {
        let val = (cpu.read(self.instruction.op1.register) - self.instruction.op2.value) as u16;
        cpu.set_flags(val).write(self.instruction.op1.register, val)
    }

    open spec fn can_debug(&self, cpu: CpuView) -> bool {
        true
    }

    /// `reg (value) <- reg (value) - immediate`.
    open spec fn spec_debug(&self, cpu: CpuView) -> Seq<char> {
        reg_with_value(self.instruction.op1.register, cpu) + " <- "@ + reg_with_value(
            self.instruction.op1.register,
            cpu,
        ) + " - "@ + decimal(self.instruction.op2.value as int)
    }

    fn execute(&mut self, cpu: &mut CPU8086) {
        let val = cpu.get(self.instruction.op1.register) - self.instruction.op2.value;
        cpu.set_zero_flag(val);
        cpu.set_sign_flag(val as i16);
        cpu.set_parity_flag(val);
        cpu.set(self.instruction.op1.register, val);
        assert(cpu@.regs =~= old(self).spec_execute(old(cpu)@).regs);
    }

    fn debug(&self, cpu: &CPU8086) -> (line: String) {
        let mut line = String::new();
        push_reg_with_value(&mut line, self.instruction.op1.register, cpu);
        line.append(" <- ");
        push_reg_with_value(&mut line, self.instruction.op1.register, cpu);
        line.append(" - ");
        push_decimal(&mut line, self.instruction.op2.value as i64);
        line
    }
}

impl CommandImpl for Sub<RegisterOp, RegisterOp> {
    /// The first operand's value is not larger than the second's.
    open spec fn can_execute(&self, cpu: CpuView) -> bool {
        cpu.read(self.instruction.op2.register) >= cpu.read(self.instruction.op1.register)
    }

    /// The flags are set from the second operand minus the first, which the
    /// second operand then takes.
    open spec fn spec_execute(&self, cpu: CpuView) -> CpuView {
        let val = (cpu.read(self.instruction.op2.register) - cpu.read(
            self.instruction.op1.register,
        )) as u16;
        cpu.set_flags(val).write(self.instruction.op2.register, val)
    }

    open spec fn can_debug(&self, cpu: CpuView) -> bool {
        true
    }

    /// `dst (value) <- dst (value) - src (value)`, the second operand as `dst`.
    open spec fn spec_debug(&self, cpu: CpuView) -> Seq<char> {
        reg_with_value(self.instruction.op2.register, cpu) + " <- "@ + reg_with_value(
            self.instruction.op2.register,
            cpu,
        ) + " - "@ + reg_with_value(self.instruction.op1.register, cpu)
    }

    fn execute(&mut self, cpu: &mut CPU8086) {
        let val = cpu.get(self.instruction.op2.register) - cpu.get(self.instruction.op1.register);
        cpu.set_zero_flag(val);
        cpu.set_sign_flag(val as i16);
        cpu.set_parity_flag(val);
        cpu.set(self.instruction.op2.register, val);
        assert(cpu@.regs =~= old(self).spec_execute(old(cpu)@).regs);
    }

    fn debug(&self, cpu: &CPU8086) -> (line: String) {
        let mut line = String::new();
        push_reg_with_value(&mut line, self.instruction.op2.register, cpu);
        line.append(" <- ");
        push_reg_with_value(&mut line, self.instruction.op2.register, cpu);
        line.append(" - ");
        push_reg_with_value(&mut line, self.instruction.op1.register, cpu);
        line
    }
}

/// The relation shown for a comparison: `<` when the difference is negative
/// as a signed word, `>` otherwise.
pub open spec fn relation(diff: u16) -> Seq<char> {
    if (diff as i16) < 0 {
        "<"@
    } else {
        ">"@
    }
}

/// `cmp`: sets the flags from a difference without changing any register.
#[derive(Debug)]
pub struct Cmp<T: Operand, E: Operand> {
    pub instruction: Instruction<T, E>,
}

impl CommandImpl for Cmp<RegisterOp, ImmediateOp> {
    /// The immediate value is not larger than the register's.
    open spec fn can_execute(&self, cpu: CpuView) -> bool {
        cpu.read(self.instruction.op1.register) >= self.instruction.op2.value
    }

    /// The flags are set from the register minus the immediate value.
    open spec fn spec_execute(&self, cpu: CpuView) -> CpuView {
        cpu.set_flags((cpu.read(self.instruction.op1.register) - self.instruction.op2.value) as u16)
    }

    /// The immediate value is not larger than the register's.
    open spec fn can_debug(&self, cpu: CpuView) -> bool {
        cpu.read(self.instruction.op1.register) >= self.instruction.op2.value
    }

    /// `reg (value) < immediate` or `reg (value) > immediate` (see `relation`).
    open spec fn spec_debug(&self, cpu: CpuView) -> Seq<char> {
        let diff = (cpu.read(self.instruction.op1.register) - self.instruction.op2.value) as u16;
        reg_with_value(self.instruction.op1.register, cpu) + " "@ + relation(diff) + " "@
            + decimal(self.instruction.op2.value as int)
    }

    fn execute(&mut self, cpu: &mut CPU8086) {
        let diff: u16 = cpu.get(self.instruction.op1.register) - self.instruction.op2.value;
        cpu.set_sign_flag(diff as i16);
        cpu.set_zero_flag(diff);
        cpu.set_parity_flag(diff);
        assert(cpu@.regs =~= old(self).spec_execute(old(cpu)@).regs);
    }

    fn debug(&self, cpu: &CPU8086) -> (line: String) {
        let diff: u16 = cpu.get(self.instruction.op1.register) - self.instruction.op2.value;
        let diff: i16 = diff as i16;
        let mut line = String::new();
        push_reg_with_value(&mut line, self.instruction.op1.register, cpu);
        line.append(if diff < 0 { " < " } else { " > " });
        push_decimal(&mut line, self.instruction.op2.value as i64);
        proof {
            reveal_strlit(" < ");
            reveal_strlit(" > ");
            reveal_strlit(" ");
            reveal_strlit("<");
            reveal_strlit(">");
        }
        assert(line@ =~= self.spec_debug(cpu@));
        line
    }
}

impl CommandImpl for Cmp<RegisterOp, RegisterOp> {
    /// The first operand's value is not larger than the second's.
    open spec fn can_execute(&self, cpu: CpuView) -> bool {
        cpu.read(self.instruction.op2.register) >= cpu.read(self.instruction.op1.register)
    }

    /// The flags are set from the second operand minus the first.
    open spec fn spec_execute(&self, cpu: CpuView) -> CpuView {
        cpu.set_flags(
            (cpu.read(self.instruction.op2.register) - cpu.read(self.instruction.op1.register)) as u16,
        )
    }

    /// The first operand's value is not larger than the second's.
    open spec fn can_debug(&self, cpu: CpuView) -> bool {
        cpu.read(self.instruction.op2.register) >= cpu.read(self.instruction.op1.register)
    }

    /// `dst (value) < src (value)` or with `>`, the second operand first.
    open spec fn spec_debug(&self, cpu: CpuView) -> Seq<char> {
        let diff = (cpu.read(self.instruction.op2.register) - cpu.read(
            self.instruction.op1.register,
        )) as u16;
        reg_with_value(self.instruction.op2.register, cpu) + " "@ + relation(diff) + " "@
            + reg_with_value(self.instruction.op1.register, cpu)
    }

    fn execute(&mut self, cpu: &mut CPU8086) {
        let diff: u16 = cpu.get(self.instruction.op2.register) - cpu.get(self.instruction.op1.register);
        cpu.set_sign_flag(diff as i16);
        cpu.set_zero_flag(diff);
        cpu.set_parity_flag(diff);
        assert(cpu@.regs =~= old(self).spec_execute(old(cpu)@).regs);
    }

    fn debug(&self, cpu: &CPU8086) -> (line: String) {
        let diff: u16 = cpu.get(self.instruction.op2.register) - cpu.get(self.instruction.op1.register);
        let diff: i16 = diff as i16;
        let mut line = String::new();
        push_reg_with_value(&mut line, self.instruction.op2.register, cpu);
        line.append(if diff < 0 { " < " } else { " > " });
        push_reg_with_value(&mut line, self.instruction.op1.register, cpu);
        proof {
            reveal_strlit(" < ");
            reveal_strlit(" > ");
            reveal_strlit(" ");
            reveal_strlit("<");
            reveal_strlit(">");
        }
        assert(line@ =~= self.spec_debug(cpu@));
        line
    }
}

/// Reading a register right after writing `v` to it gives `v` (its low byte for
/// a byte register). For a low-byte register this needs the high byte of its
/// word to be zero, since the low-byte write xors with it.
pub proof fn lemma_read_after_write(cpu: CpuView, r: Register, v: u16)
    requires
        cpu.wf(),
        r.is_low_byte() ==> hi(cpu.regs[r.word_index()]) == 0,
    ensures
        cpu.write(r, v).read(r) == r.fit(v),
{
    let w = cpu.regs[r.word_index()];
    assert(lo(join(lo(w), (v as u8) ^ 0)) as u16 == (v as u8) as u16) by (bit_vector);
    assert(hi(join(v as u8, lo(w))) as u16 == (v as u8) as u16) by (bit_vector);
}

/// Writing a register leaves every register of another word, and all flags,
/// as they were.
pub proof fn lemma_write_keeps_other_words(cpu: CpuView, r: Register, other: Register, v: u16)
    requires
        cpu.wf(),
        r.word_index() != other.word_index(),
    ensures
        cpu.write(r, v).read(other) == cpu.read(other),
        cpu.write(r, v).zero_flag == cpu.zero_flag,
        cpu.write(r, v).sign_flag == cpu.sign_flag,
        cpu.write(r, v).parity_flag == cpu.parity_flag,
{
}

/// Writing the high byte of a word leaves its low byte as it was.
pub proof fn lemma_high_write_keeps_low(cpu: CpuView, high: Register, low: Register, v: u16)
    requires
        cpu.wf(),
        high.is_high_byte(),
        low.is_low_byte(),
        high.word_index() == low.word_index(),
    ensures
        cpu.write(high, v).read(low) == cpu.read(low),
{
    let w = cpu.regs[high.word_index()];
    assert(lo(join(v as u8, lo(w))) == lo(w)) by (bit_vector);
}

/// Writing a whole word sets its low and high bytes to those of the value.
pub proof fn lemma_word_write_sets_bytes(cpu: CpuView, word: Register, byte: Register, v: u16)
    requires
        cpu.wf(),
        word.is_word(),
        !byte.is_word(),
        word.word_index() == byte.word_index(),
    ensures
        byte.is_low_byte() ==> cpu.write(word, v).read(byte) == lo(v) as u16,
        byte.is_high_byte() ==> cpu.write(word, v).read(byte) == hi(v) as u16,
{
}

/// `cmp` sets the flags exactly as `sub` with the same operands would, and
/// leaves every register as it was.
pub proof fn lemma_cmp_is_sub_without_write(cpu: CpuView, reg: Register, value: u16, src: Register)
    requires
        cpu.wf(),
    ensures
        ({
            let ri = Instruction { command: Command::CMP, op1: RegisterOp { register: reg }, op2: ImmediateOp { value } };
            let si = Instruction { command: Command::SUB, op1: RegisterOp { register: reg }, op2: ImmediateOp { value } };
            let c = Cmp { instruction: ri }.spec_execute(cpu);
            let s = Sub { instruction: si }.spec_execute(cpu);
            &&& c.regs == cpu.regs
            &&& c.zero_flag == s.zero_flag
            &&& c.sign_flag == s.sign_flag
            &&& c.parity_flag == s.parity_flag
        }),
        ({
            let ri = Instruction { command: Command::CMP, op1: RegisterOp { register: src }, op2: RegisterOp { register: reg } };
            let si = Instruction { command: Command::SUB, op1: RegisterOp { register: src }, op2: RegisterOp { register: reg } };
            let c = Cmp { instruction: ri }.spec_execute(cpu);
            let s = Sub { instruction: si }.spec_execute(cpu);
            &&& c.regs == cpu.regs
            &&& c.zero_flag == s.zero_flag
            &&& c.sign_flag == s.sign_flag
            &&& c.parity_flag == s.parity_flag
        }),
{
}

/// `mov` never changes a flag.
pub proof fn lemma_mov_keeps_flags(cpu: CpuView, dst: Register, value: u16, src: Register)
    requires
        cpu.wf(),
    ensures
        ({
            let m = Mov { instruction: Instruction { command: Command::MOV, op1: RegisterOp { register: dst }, op2: ImmediateOp { value } } }.spec_execute(cpu);
            &&& m.zero_flag == cpu.zero_flag
            &&& m.sign_flag == cpu.sign_flag
            &&& m.parity_flag == cpu.parity_flag
        }),
        ({
            let m = Mov { instruction: Instruction { command: Command::MOV, op1: RegisterOp { register: src }, op2: RegisterOp { register: dst } } }.spec_execute(cpu);
            &&& m.zero_flag == cpu.zero_flag
            &&& m.sign_flag == cpu.sign_flag
            &&& m.parity_flag == cpu.parity_flag
        }),
{
}

/// After `mov` from register `src` to register `dst`, reading `dst` gives
/// the value that `src` held before the move (the byte itself for a byte
/// register, so `mov ch, ah` copies `ah` and not `ax`; a word moved into a
/// byte register leaves its low byte there); after `mov` of an
/// immediate value, reading `dst` gives that value (its low byte for a byte
/// register). A low-byte destination is read back this way when the high
/// byte of its word is zero (see `CpuView::write`).
pub proof fn lemma_mov_moves_value(cpu: CpuView, src: Register, dst: Register, value: u16)
    requires
        cpu.wf(),
        dst.is_low_byte() ==> hi(cpu.regs[dst.word_index()]) == 0,
    ensures
        ({
            let m = Mov { instruction: Instruction { command: Command::MOV, op1: RegisterOp { register: src }, op2: RegisterOp { register: dst } } };
            &&& m.spec_execute(cpu).read(dst) == dst.fit(cpu.read(src))
            &&& src.is_word() == dst.is_word() ==> m.spec_execute(cpu).read(dst) == cpu.read(src)
        }),
        ({
            let m = Mov { instruction: Instruction { command: Command::MOV, op1: RegisterOp { register: dst }, op2: ImmediateOp { value } } };
            m.spec_execute(cpu).read(dst) == dst.fit(value)
        }),
{
    lemma_read_after_write(cpu, dst, cpu.read(src));
    lemma_read_after_write(cpu, dst, value);
    let w = cpu.regs[src.word_index()];
    assert(lo(w) as u16 == ((lo(w) as u16) as u8) as u16) by (bit_vector);
    assert(hi(w) as u16 == ((hi(w) as u16) as u8) as u16) by (bit_vector);
}

/// The flags that a 16-bit result sets, read off its value: zero when it is
/// 0, sign when it is negative as a signed word, that is when it is at least
/// 0x8000, and parity when bit 0 of each of its two bytes is clear.
proof fn lemma_result_flags(cpu: CpuView, val: u16)
    ensures
        ((val as i16) < 0) == (val >= 0x8000),
        cpu.set_flags(val).zero_flag == (val == 0),
        cpu.set_flags(val).sign_flag == (val >= 0x8000),
        cpu.set_flags(val).parity_flag == (val % 2 == 0 && (val / 256) % 2 == 0),
{
    assert(((val as i16) < 0) == (val >= 0x8000)) by (bit_vector);
    assert(word_parity(val) == (val % 2 == 0 && (val / 256) % 2 == 0)) by (bit_vector);
}

/// `add` sets the flags from the sum of its operands and writes the sum to
/// its first operand: zero when the sum is 0, sign when it is at least
/// 0x8000 (so exactly when the word written is negative as a signed word),
/// parity when bit 0 of each byte of the sum is clear. A low-byte
/// destination is read back when the high byte of its word is zero (see
/// `CpuView::write`).
pub proof fn lemma_add_result(cpu: CpuView, dst: Register, src: Register, value: u16)
    requires
        cpu.wf(),
    ensures
        ({
            let a = Add { instruction: Instruction { command: Command::ADD, op1: RegisterOp { register: dst }, op2: ImmediateOp { value } } };
            let sum = cpu.read(dst) + value;
            let after = a.spec_execute(cpu);
            a.can_execute(cpu) ==> {
                &&& after.zero_flag == (sum == 0)
                &&& after.sign_flag == (sum >= 0x8000)
                &&& after.parity_flag == (sum % 2 == 0 && (sum / 256) % 2 == 0)
                &&& (dst.is_low_byte() ==> hi(cpu.regs[dst.word_index()]) == 0) ==> after.read(dst) == dst.fit(sum as u16)
                &&& dst.is_word() ==> after.read(dst) == sum
                &&& dst.is_word() ==> after.sign_flag == ((after.read(dst) as i16) < 0)
            }
        }),
        ({
            let a = Add { instruction: Instruction { command: Command::ADD, op1: RegisterOp { register: dst }, op2: RegisterOp { register: src } } };
            let sum = cpu.read(dst) + cpu.read(src);
            let after = a.spec_execute(cpu);
            a.can_execute(cpu) ==> {
                &&& after.zero_flag == (sum == 0)
                &&& after.sign_flag == (sum >= 0x8000)
                &&& after.parity_flag == (sum % 2 == 0 && (sum / 256) % 2 == 0)
                &&& (dst.is_low_byte() ==> hi(cpu.regs[dst.word_index()]) == 0) ==> after.read(dst) == dst.fit(sum as u16)
                &&& dst.is_word() ==> after.read(dst) == sum
                &&& dst.is_word() ==> after.sign_flag == ((after.read(dst) as i16) < 0)
            }
        }),
{
    let v1 = (cpu.read(dst) + value) as u16;
    let v2 = (cpu.read(dst) + cpu.read(src)) as u16;
    lemma_result_flags(cpu, v1);
    lemma_result_flags(cpu, v2);
    if !dst.is_low_byte() || hi(cpu.regs[dst.word_index()]) == 0 {
        lemma_read_after_write(cpu.set_flags(v1), dst, v1);
        lemma_read_after_write(cpu.set_flags(v2), dst, v2);
    }
}

/// `sub` sets the flags from the difference of its operands and writes it
/// to its destination: the first operand minus the immediate value, or the
/// second operand minus the first (written to the second). Zero when the
/// difference is 0, sign when it is at least 0x8000 (so exactly when the
/// word written is negative as a signed word), parity when bit 0 of each
/// byte of the difference is clear.
pub proof fn lemma_sub_result(cpu: CpuView, dst: Register, src: Register, value: u16)
    requires
        cpu.wf(),
    ensures
        ({
            let s = Sub { instruction: Instruction { command: Command::SUB, op1: RegisterOp { register: dst }, op2: ImmediateOp { value } } };
            let diff = cpu.read(dst) - value;
            let after = s.spec_execute(cpu);
            s.can_execute(cpu) ==> {
                &&& after.zero_flag == (diff == 0)
                &&& after.sign_flag == (diff >= 0x8000)
                &&& after.parity_flag == (diff % 2 == 0 && (diff / 256) % 2 == 0)
                &&& (dst.is_low_byte() ==> hi(cpu.regs[dst.word_index()]) == 0) ==> after.read(dst) == dst.fit(diff as u16)
                &&& dst.is_word() ==> after.read(dst) == diff
                &&& dst.is_word() ==> after.sign_flag == ((after.read(dst) as i16) < 0)
            }
        }),
        ({
            let s = Sub { instruction: Instruction { command: Command::SUB, op1: RegisterOp { register: src }, op2: RegisterOp { register: dst } } };
            let diff = cpu.read(dst) - cpu.read(src);
            let after = s.spec_execute(cpu);
            s.can_execute(cpu) ==> {
                &&& after.zero_flag == (diff == 0)
                &&& after.sign_flag == (diff >= 0x8000)
                &&& after.parity_flag == (diff % 2 == 0 && (diff / 256) % 2 == 0)
                &&& (dst.is_low_byte() ==> hi(cpu.regs[dst.word_index()]) == 0) ==> after.read(dst) == dst.fit(diff as u16)
                &&& dst.is_word() ==> after.read(dst) == diff
                &&& dst.is_word() ==> after.sign_flag == ((after.read(dst) as i16) < 0)
            }
        }),
{
    let v1 = (cpu.read(dst) - value) as u16;
    let v2 = (cpu.read(dst) - cpu.read(src)) as u16;
    lemma_result_flags(cpu, v1);
    lemma_result_flags(cpu, v2);
    if !dst.is_low_byte() || hi(cpu.regs[dst.word_index()]) == 0 {
        lemma_read_after_write(cpu.set_flags(v1), dst, v1);
        lemma_read_after_write(cpu.set_flags(v2), dst, v2);
    }
}

/// `cmp` leaves every register as it was and sets the flags from the
/// difference of its operands: the first operand minus the immediate value,
/// or the second operand minus the first. Zero when the difference is 0,
/// sign when it is at least 0x8000, parity when bit 0 of each of its bytes
/// is clear.
pub proof fn lemma_compare_result(cpu: CpuView, reg: Register, src: Register, value: u16)
    requires
        cpu.wf(),
    ensures
        ({
            let c = Cmp { instruction: Instruction { command: Command::CMP, op1: RegisterOp { register: reg }, op2: ImmediateOp { value } } };
            let diff = cpu.read(reg) - value;
            let after = c.spec_execute(cpu);
            c.can_execute(cpu) ==> {
                &&& after.regs == cpu.regs
                &&& after.zero_flag == (diff == 0)
                &&& after.sign_flag == (diff >= 0x8000)
                &&& after.parity_flag == (diff % 2 == 0 && (diff / 256) % 2 == 0)
            }
        }),
        ({
            let c = Cmp { instruction: Instruction { command: Command::CMP, op1: RegisterOp { register: src }, op2: RegisterOp { register: reg } } };
            let diff = cpu.read(reg) - cpu.read(src);
            let after = c.spec_execute(cpu);
            c.can_execute(cpu) ==> {
                &&& after.regs == cpu.regs
                &&& after.zero_flag == (diff == 0)
                &&& after.sign_flag == (diff >= 0x8000)
                &&& after.parity_flag == (diff % 2 == 0 && (diff / 256) % 2 == 0)
            }
        }),
{
    lemma_result_flags(cpu, (cpu.read(reg) - value) as u16);
    lemma_result_flags(cpu, (cpu.read(reg) - cpu.read(src)) as u16);
}

/// If register `r` is at position `k` of `regs` and holds a non-zero value,
/// its line is part of the text for `regs`.
proof fn lemma_registers_text_has_line(cpu: CpuView, regs: Seq<Register>, k: int)
    requires
        0 <= k < regs.len(),
        cpu.read(regs[k]) != 0,
    ensures
        exists|a: Seq<char>, b: Seq<char>|
            #[trigger] (a + register_line(regs[k], cpu.read(regs[k])) + b) == registers_text(cpu, regs),
    decreases regs.len(),
{
    let line = register_line(regs[k], cpu.read(regs[k]));
    let rest = regs.drop_last();
    let tail = if cpu.read(regs.last()) != 0 {
        register_line(regs.last(), cpu.read(regs.last()))
    } else {
        Seq::empty()
    };
    assert(registers_text(cpu, regs) == registers_text(cpu, rest) + tail);
    if k == regs.len() - 1 {
        let a = registers_text(cpu, rest);
        let b = Seq::<char>::empty();
        assert(a + line + b =~= registers_text(cpu, regs));
    } else {
        assert(rest[k] == regs[k]);
        lemma_registers_text_has_line(cpu, rest, k);
        let (a, b) = choose|a: Seq<char>, b: Seq<char>|
            #[trigger] (a + register_line(rest[k], cpu.read(rest[k])) + b) == registers_text(cpu, rest);
        assert(a + line + (b + tail) =~= registers_text(cpu, regs));
    }
}

/// Showing the processor lists each of `ax`, `bx`, `cx`, `dx`, `sp`, `bp`,
/// `si`, `di` that holds a non-zero value: somewhere in the text stands a
/// line with the register's name, its value as `0x` and four lower-case hex
/// digits, and its value in decimal in brackets.
pub proof fn lemma_shown_registers(cpu: CpuView, r: Register)
    requires
        r is AX || r is BX || r is CX || r is DX || r is SP || r is BP || r is SI || r is DI,
        cpu.read(r) != 0,
    ensures
        exists|a: Seq<char>, b: Seq<char>|
            #[trigger] (a + ("\n      "@ + r.name() + ": 0x"@ + zero_pad(radix_digits(cpu.read(r) as nat, 16, false), 4) + " ("@ + decimal(cpu.read(r) as int) + ")"@) + b) == cpu_text(cpu),
{
    let order = display_order();
    let k: int = if r is AX {
        0
    } else if r is BX {
        1
    } else if r is CX {
        2
    } else if r is DX {
        3
    } else if r is SP {
        4
    } else if r is BP {
        5
    } else if r is SI {
        6
    } else {
        7
    };
    assert(order[k] == r);
    lemma_registers_text_has_line(cpu, order, k);
    let line = register_line(r, cpu.read(r));
    let (a, b) = choose|a: Seq<char>, b: Seq<char>|
        #[trigger] (a + register_line(order[k], cpu.read(order[k])) + b) == registers_text(cpu, order);
    let flags = if flag_letters(cpu).len() == 0 {
        Seq::empty()
    } else {
        "\n   flags: "@ + flag_letters(cpu)
    };
    assert(a + line + (b + flags) =~= cpu_text(cpu));
}

/// A command ready to run, of any of the supported command and operand kinds.
#[derive(Debug)]
pub enum AnyCommand {
    MovRegImm(Mov<RegisterOp, ImmediateOp>),
    MovRegReg(Mov<RegisterOp, RegisterOp>),
    AddRegImm(Add<RegisterOp, ImmediateOp>),
    AddRegReg(Add<RegisterOp, RegisterOp>),
    SubRegImm(Sub<RegisterOp, ImmediateOp>),
    SubRegReg(Sub<RegisterOp, RegisterOp>),
    CmpRegImm(Cmp<RegisterOp, ImmediateOp>),
    CmpRegReg(Cmp<RegisterOp, RegisterOp>),
}

impl AnyCommand {
    /// The command that an instruction on two registers stands for.
    pub open spec fn of_reg_reg(val: Instruction<RegisterOp, RegisterOp>) -> AnyCommand {
        match val.command {
            Command::MOV => AnyCommand::MovRegReg(Mov { instruction: val }),
            Command::ADD => AnyCommand::AddRegReg(Add { instruction: val }),
            Command::SUB => AnyCommand::SubRegReg(Sub { instruction: val }),
            _ => AnyCommand::CmpRegReg(Cmp { instruction: val }),
        }
    }

    /// The command that an instruction on a register and an immediate value
    /// stands for.
    pub open spec fn of_reg_imm(val: Instruction<RegisterOp, ImmediateOp>) -> AnyCommand {
        match val.command {
            Command::MOV => AnyCommand::MovRegImm(Mov { instruction: val }),
            Command::ADD => AnyCommand::AddRegImm(Add { instruction: val }),
            Command::SUB => AnyCommand::SubRegImm(Sub { instruction: val }),
            _ => AnyCommand::CmpRegImm(Cmp { instruction: val }),
        }
    }

    /// Wraps an instruction on two registers as the command it names, which is
    /// one of `mov`, `add`, `sub`, `cmp`.
    pub fn from_reg_reg(val: Instruction<RegisterOp, RegisterOp>) -> (c: AnyCommand)
        requires
            val.command.is_data_command(),
        ensures
            c == AnyCommand::of_reg_reg(val),
    {
        match val.command {
            Command::MOV => AnyCommand::MovRegReg(Mov { instruction: val }),
            Command::ADD => AnyCommand::AddRegReg(Add { instruction: val }),
            Command::SUB => AnyCommand::SubRegReg(Sub { instruction: val }),
            _ => AnyCommand::CmpRegReg(Cmp { instruction: val }),
        }
    }

    /// Wraps an instruction on a register and an immediate value as the command
    /// it names, which is one of `mov`, `add`, `sub`, `cmp`.
    pub fn from_reg_imm(val: Instruction<RegisterOp, ImmediateOp>) -> (c: AnyCommand)
        requires
            val.command.is_data_command(),
        ensures
            c == AnyCommand::of_reg_imm(val),
    {
        match val.command {
            Command::MOV => AnyCommand::MovRegImm(Mov { instruction: val }),
            Command::ADD => AnyCommand::AddRegImm(Add { instruction: val }),
            Command::SUB => AnyCommand::SubRegImm(Sub { instruction: val }),
            _ => AnyCommand::CmpRegImm(Cmp { instruction: val }),
        }
    }

    /// Whether running on `cpu` stays within 16-bit arithmetic.
    pub fn can_run(&self, cpu: &CPU8086) -> (r: bool)
        ensures
            r == self.can_execute(cpu@),
    {
        match self {
            AnyCommand::MovRegImm(_) => true,
            AnyCommand::MovRegReg(_) => true,
            AnyCommand::AddRegImm(c) => {
                cpu.get(c.instruction.op1.register) as u32 + c.instruction.op2.value as u32
                    <= 0xFFFF
            },
            AnyCommand::AddRegReg(c) => {
                cpu.get(c.instruction.op1.register) as u32 + cpu.get(
                    c.instruction.op2.register,
                ) as u32 <= 0xFFFF
            },
            AnyCommand::SubRegImm(c) => cpu.get(c.instruction.op1.register)
                >= c.instruction.op2.value,
            AnyCommand::SubRegReg(c) => cpu.get(c.instruction.op2.register) >= cpu.get(
                c.instruction.op1.register,
            ),
            AnyCommand::CmpRegImm(c) => cpu.get(c.instruction.op1.register)
                >= c.instruction.op2.value,
            AnyCommand::CmpRegReg(c) => cpu.get(c.instruction.op2.register) >= cpu.get(
                c.instruction.op1.register,
            ),
        }
    }
}

impl CommandImpl for AnyCommand {
    open spec fn can_execute(&self, cpu: CpuView) -> bool {
        match self {
            AnyCommand::MovRegImm(c) => c.can_execute(cpu),
            AnyCommand::MovRegReg(c) => c.can_execute(cpu),
            AnyCommand::AddRegImm(c) => c.can_execute(cpu),
            AnyCommand::AddRegReg(c) => c.can_execute(cpu),
            AnyCommand::SubRegImm(c) => c.can_execute(cpu),
            AnyCommand::SubRegReg(c) => c.can_execute(cpu),
            AnyCommand::CmpRegImm(c) => c.can_execute(cpu),
            AnyCommand::CmpRegReg(c) => c.can_execute(cpu),
        }
    }

    open spec fn spec_execute(&self, cpu: CpuView) -> CpuView {
        match self {
            AnyCommand::MovRegImm(c) => c.spec_execute(cpu),
            AnyCommand::MovRegReg(c) => c.spec_execute(cpu),
            AnyCommand::AddRegImm(c) => c.spec_execute(cpu),
            AnyCommand::AddRegReg(c) => c.spec_execute(cpu),
            AnyCommand::SubRegImm(c) => c.spec_execute(cpu),
            AnyCommand::SubRegReg(c) => c.spec_execute(cpu),
            AnyCommand::CmpRegImm(c) => c.spec_execute(cpu),
            AnyCommand::CmpRegReg(c) => c.spec_execute(cpu),
        }
    }

    open spec fn can_debug(&self, cpu: CpuView) -> bool {
        match self {
            AnyCommand::MovRegImm(c) => c.can_debug(cpu),
            AnyCommand::MovRegReg(c) => c.can_debug(cpu),
            AnyCommand::AddRegImm(c) => c.can_debug(cpu),
            AnyCommand::AddRegReg(c) => c.can_debug(cpu),
            AnyCommand::SubRegImm(c) => c.can_debug(cpu),
            AnyCommand::SubRegReg(c) => c.can_debug(cpu),
            AnyCommand::CmpRegImm(c) => c.can_debug(cpu),
            AnyCommand::CmpRegReg(c) => c.can_debug(cpu),
        }
    }

    open spec fn spec_debug(&self, cpu: CpuView) -> Seq<char> {
        match self {
            AnyCommand::MovRegImm(c) => c.spec_debug(cpu),
            AnyCommand::MovRegReg(c) => c.spec_debug(cpu),
            AnyCommand::AddRegImm(c) => c.spec_debug(cpu),
            AnyCommand::AddRegReg(c) => c.spec_debug(cpu),
            AnyCommand::SubRegImm(c) => c.spec_debug(cpu),
            AnyCommand::SubRegReg(c) => c.spec_debug(cpu),
            AnyCommand::CmpRegImm(c) => c.spec_debug(cpu),
            AnyCommand::CmpRegReg(c) => c.spec_debug(cpu),
        }
    }

    fn execute(&mut self, cpu: &mut CPU8086) {
        match self {
            AnyCommand::MovRegImm(c) => c.execute(cpu),
            AnyCommand::MovRegReg(c) => c.execute(cpu),
            AnyCommand::AddRegImm(c) => c.execute(cpu),
            AnyCommand::AddRegReg(c) => c.execute(cpu),
            AnyCommand::SubRegImm(c) => c.execute(cpu),
            AnyCommand::SubRegReg(c) => c.execute(cpu),
            AnyCommand::CmpRegImm(c) => c.execute(cpu),
            AnyCommand::CmpRegReg(c) => c.execute(cpu),
        }
    }

    fn debug(&self, cpu: &CPU8086) -> (line: String) {
        match self {
            AnyCommand::MovRegImm(c) => c.debug(cpu),
            AnyCommand::MovRegReg(c) => c.debug(cpu),
            AnyCommand::AddRegImm(c) => c.debug(cpu),
            AnyCommand::AddRegReg(c) => c.debug(cpu),
            AnyCommand::SubRegImm(c) => c.debug(cpu),
            AnyCommand::SubRegReg(c) => c.debug(cpu),
            AnyCommand::CmpRegImm(c) => c.debug(cpu),
            AnyCommand::CmpRegReg(c) => c.debug(cpu),
        }
    }
}

} // verus!
