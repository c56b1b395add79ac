//! The processor.
use vstd::prelude::*;
use crate::alu::{ALU, alu_bits, zero_flag, lemma_alu_ports};
use crate::bit::{Bit, bit_and, bit_not, fill};
use crate::bus::{Bus, SharedBus, group_build, group_run, lemma_overwritten_row};
use crate::decode::{Decode, lemma_decode_ports};
use crate::gate::Gate;
use crate::jump::{Jump, jump_bit, lemma_jump_ports};
use crate::mux::{Mux, lemma_mux_ports};
use crate::or::{Or, lemma_or_ports};
use crate::pc::{PC, pc_next, lemma_pc_ports};
use crate::register::{Register, lemma_register_ports};
use crate::wires::{Span, Wires, framed, grown};

verus! {

/// The second operand of the computation: the memory word where bit 12 of
/// the instruction is `I`, else the A register.
pub open spec fn cpu_operand(i: Seq<Bit>, a: Seq<Bit>, m: Seq<Bit>) -> Seq<Bit> {
    if i[12] == Bit::I {
        m
    } else {
        a
    }
}

/// The result of the computation that bits 11 to 6 of the instruction ask
/// for, on the D register and the second operand.
pub open spec fn cpu_result(i: Seq<Bit>, a: Seq<Bit>, d: Seq<Bit>, m: Seq<Bit>) -> Seq<Bit> {
    alu_bits(d, cpu_operand(i, a, m), i[11], i[10], i[9], i[8], i[7], i[6])
}

/// The A register after the instruction: the instruction itself for an
/// address instruction; the result where a compute instruction names A as
/// a destination; else unchanged.
pub open spec fn cpu_next_a(i: Seq<Bit>, a: Seq<Bit>, d: Seq<Bit>, m: Seq<Bit>) -> Seq<Bit> {
    if i[15] == Bit::O {
        i
    } else if i[5] == Bit::I {
        cpu_result(i, a, d, m)
    } else {
        a
    }
}

/// The D register after the instruction: the result where a compute
/// instruction names D as a destination; else unchanged.
pub open spec fn cpu_next_d(i: Seq<Bit>, a: Seq<Bit>, d: Seq<Bit>, m: Seq<Bit>) -> Seq<Bit> {
    if i[15] == Bit::I && i[4] == Bit::I {
        cpu_result(i, a, d, m)
    } else {
        d
    }
}

/// `I` where a compute instruction names the memory as a destination.
pub open spec fn cpu_writes(i: Seq<Bit>) -> Bit {
    bit_and(i[15], i[3])
}

/// `I` where the instruction jumps.
pub open spec fn cpu_jumps(i: Seq<Bit>, a: Seq<Bit>, d: Seq<Bit>, m: Seq<Bit>) -> Bit {
    let result = cpu_result(i, a, d, m);
    jump_bit(zero_flag(result), result[15], i[2], i[1], i[0], i[15])
}

/// The program counter after the instruction: 0 on reset; the A register
/// on a jump; else one more.
pub open spec fn cpu_next_pc(
    i: Seq<Bit>,
    a: Seq<Bit>,
    d: Seq<Bit>,
    m: Seq<Bit>,
    pc: Seq<Bit>,
    reset: Bit,
) -> Seq<Bit> {
    pc_next(pc, a, cpu_jumps(i, a, d, m), bit_not(cpu_jumps(i, a, d, m)), reset)
}

/// The processor: the arithmetic-logic unit, the registers A and D, the
/// program counter and the logic that decodes an instruction.
///
/// The result of the computation is copied onto `alu_out` when the
/// processor settles, and the registers read it from there.
pub struct CPU {
    pub out_m: SharedBus<16>,
    pub write_m: SharedBus<1>,
    pub address_m: SharedBus<15>,
    pub pc: SharedBus<15>,
    in_m: SharedBus<16>,
    instruction: SharedBus<16>,
    alu_out: SharedBus<16>,
    zero_a: SharedBus<16>,
    zero_m: SharedBus<16>,
    decode: Decode,
    mux1: Mux<16>,
    a_register: Register,
    mux2: Mux<16>,
    d_register: Register,
    alu: ALU,
    or2: Or<16>,
    or3: Or<16>,
    jump: Jump,
    pc_gate: PC,
}

impl CPU {
    #[verifier::spinoff_prover]
    #[verifier::rlimit(50)]
    pub fn new(in_m: SharedBus<16>, instruction: SharedBus<16>, reset: SharedBus<1>, wires: &mut Wires) -> (r:
        CPU)
        requires
            in_m.below(old(wires)@.len()),
            instruction.below(old(wires)@.len()),
            reset.below(old(wires)@.len()),
        ensures
            r.wired(),
            r.in_m() == in_m,
            r.instruction() == instruction,
            r.reset() == reset,
            r.span() == Span::added(*old(wires), *final(wires)),
            grown(*old(wires), *final(wires)),
            r.a().value(final(wires)@) == fill(16, Bit::O),
            r.d().value(final(wires)@) == fill(16, Bit::O),
            r.counter().value(final(wires)@) == fill(16, Bit::O),
            r.address_m().value(final(wires)@) == fill(15, Bit::O),
            r.pc().value(final(wires)@) == fill(15, Bit::O),
    {
        broadcast use {
            group_build,
            lemma_decode_ports,
            lemma_mux_ports,
            lemma_register_ports,
            lemma_alu_ports,
            lemma_or_ports,
            lemma_jump_ports,
            lemma_pc_ports,
        };

        let decode = Decode::new(
            instruction.reconnect([15]),
            instruction.reconnect([5]),
            instruction.reconnect([4]),
            instruction.reconnect([3]),
            wires,
        );
        let alu_out = Bus::<16>::all0(wires).to_shared_bus();
        let mux1 = Mux::new(instruction, alu_out, decode.get_a_from_alu(), wires);
        let a_register = Register::new(mux1.get_out(), decode.get_load_a(), wires);
        let mux2 = Mux::new(a_register.get_out(), in_m, instruction.reconnect([12]), wires);
        let d_register = Register::new(alu_out, decode.get_load_d(), wires);
        let alu = ALU::new(
            d_register.get_out(),
            mux2.get_out(),
            instruction.reconnect([11]),
            instruction.reconnect([10]),
            instruction.reconnect([9]),
            instruction.reconnect([8]),
            instruction.reconnect([7]),
            instruction.reconnect([6]),
            wires,
        );
        let zero_a = Bus::<16>::all0(wires).to_shared_bus();
        let or2 = Or::new(zero_a, a_register.get_out(), wires);
        let zero_m = Bus::<16>::all0(wires).to_shared_bus();
        let or3 = Or::new(zero_m, alu.get_out(), wires);
        let jump = Jump::new(
            alu.get_zr(),
            alu.get_ng(),
            instruction.reconnect([2]),
            instruction.reconnect([1]),
            instruction.reconnect([0]),
            decode.get_computes(),
            wires,
        );
        let pc_gate = PC::new(a_register.get_out(), jump.get_load(), jump.get_inc(), reset, wires);
        let address_m = or2.get_out().reconnect([0, 1, 2, 3, 4, 5, 6, 7, 8, 9, 10, 11, 12, 13, 14]);
        let pc = pc_gate.get_out().reconnect([0, 1, 2, 3, 4, 5, 6, 7, 8, 9, 10, 11, 12, 13, 14]);
        proof {
            assert(address_m.value(wires@) =~= or2.out().value(wires@).take(15));
            assert(pc.value(wires@) =~= pc_gate.out().value(wires@).take(15));
            assert(fill(16, Bit::O).take(15) =~= fill(15, Bit::O));
        }
        CPU {
            out_m: or3.get_out(),
            write_m: decode.get_write_m(),
            address_m,
            pc,
            in_m,
            instruction,
            alu_out,
            zero_a,
            zero_m,
            decode,
            mux1,
            a_register,
            mux2,
            d_register,
            alu,
            or2,
            or3,
            jump,
            pc_gate,
        }
    }

    /// The parts lie one after another in the store.
    pub closed spec fn placed(&self) -> bool {
        let ao = self.alu_out.0.bits[0] as nat;
        let za = self.zero_a.0.bits[0] as nat;
        let zm = self.zero_m.0.bits[0] as nat;
        &&& self.decode.span().hi <= ao
        &&& self.decode.span().whi <= self.mux1.span().wlo
        &&& self.alu_out.row(ao)
        &&& self.alu_out.within(ao, ao + 16)
        &&& ao + 16 <= self.mux1.span().lo
        &&& self.mux1.span().before(self.a_register.span())
        &&& self.a_register.span().before(self.mux2.span())
        &&& self.mux2.span().before(self.d_register.span())
        &&& self.d_register.span().before(self.alu.span())
        &&& self.alu.span().hi <= za
        &&& self.alu.span().whi <= self.or2.span().wlo
        &&& self.zero_a.within(za, za + 16)
        &&& za + 16 <= self.or2.span().lo
        &&& self.or2.span().hi <= zm
        &&& self.or2.span().whi <= self.or3.span().wlo
        &&& self.zero_m.within(zm, zm + 16)
        &&& zm + 16 <= self.or3.span().lo
        &&& self.or3.span().before(self.jump.span())
        &&& self.jump.span().before(self.pc_gate.span())
    }

    /// Every part reads the wires that the processor's plan gives it.
    pub closed spec fn joined(&self) -> bool {
        let lo = self.decode.span().lo;
        &&& self.in_m.below(lo)
        &&& self.instruction.below(lo)
        &&& self.reset().below(lo)
        &&& self.mux2.sel().below(lo)
        &&& self.alu.zx().below(lo)
        &&& self.alu.nx().below(lo)
        &&& self.alu.zy().below(lo)
        &&& self.alu.ny().below(lo)
        &&& self.alu.f().below(lo)
        &&& self.alu.no().below(lo)
        &&& self.jump.negative().below(lo)
        &&& self.jump.zero().below(lo)
        &&& self.jump.positive().below(lo)
        &&& self.decode.kind().0.bits[0] == self.instruction.0.bits[15]
        &&& self.decode.to_a().0.bits[0] == self.instruction.0.bits[5]
        &&& self.decode.to_d().0.bits[0] == self.instruction.0.bits[4]
        &&& self.decode.to_m().0.bits[0] == self.instruction.0.bits[3]
        &&& self.mux2.sel().0.bits[0] == self.instruction.0.bits[12]
        &&& self.alu.zx().0.bits[0] == self.instruction.0.bits[11]
        &&& self.alu.nx().0.bits[0] == self.instruction.0.bits[10]
        &&& self.alu.zy().0.bits[0] == self.instruction.0.bits[9]
        &&& self.alu.ny().0.bits[0] == self.instruction.0.bits[8]
        &&& self.alu.f().0.bits[0] == self.instruction.0.bits[7]
        &&& self.alu.no().0.bits[0] == self.instruction.0.bits[6]
        &&& self.jump.negative().0.bits[0] == self.instruction.0.bits[2]
        &&& self.jump.zero().0.bits[0] == self.instruction.0.bits[1]
        &&& self.jump.positive().0.bits[0] == self.instruction.0.bits[0]
        &&& self.mux1.a() == self.instruction
        &&& self.mux1.b() == self.alu_out
        &&& self.mux1.sel() == self.decode.a_from_alu()
        &&& self.a_register.input() == self.mux1.out()
        &&& self.a_register.load() == self.decode.load_a()
        &&& self.mux2.a() == self.a_register.out()
        &&& self.mux2.b() == self.in_m
        &&& self.d_register.input() == self.alu_out
        &&& self.d_register.load() == self.decode.load_d()
        &&& self.alu.x() == self.d_register.out()
        &&& self.alu.y() == self.mux2.out()
        &&& self.or2.a() == self.zero_a
        &&& self.or2.b() == self.a_register.out()
        &&& self.or3.a() == self.zero_m
        &&& self.or3.b() == self.alu.out()
        &&& self.jump.zr() == self.alu.zr()
        &&& self.jump.ng() == self.alu.ng()
        &&& self.jump.computes() == self.decode.computes()
        &&& self.pc_gate.input() == self.a_register.out()
        &&& self.pc_gate.load() == self.jump.load()
        &&& self.pc_gate.inc() == self.jump.inc()
        &&& self.out_m == self.or3.out()
        &&& self.write_m == self.decode.write_m()
        &&& forall|j: int| 0 <= j < 15 ==> #[trigger] self.address_m.0.bits[j] == self.or2.out().0.bits[j]
        &&& forall|j: int| 0 <= j < 15 ==> #[trigger] self.pc.0.bits[j] == self.pc_gate.out().0.bits[j]
        &&& self.address_m.within(self.or2.span().lo, self.or2.span().hi)
        &&& self.pc.within(self.pc_gate.span().lo, self.pc_gate.span().hi)
    }

    /// The parts are connected as the processor.
    pub closed spec fn wiring(&self) -> bool {
        &&& self.decode.wired()
        &&& self.mux1.wired()
        &&& self.a_register.wired()
        &&& self.mux2.wired()
        &&& self.d_register.wired()
        &&& self.alu.wired()
        &&& self.or2.wired()
        &&& self.or3.wired()
        &&& self.jump.wired()
        &&& self.pc_gate.wired()
        &&& self.placed()
        &&& self.joined()
    }

    /// Input: the memory word at the address in A.
    pub closed spec fn in_m(&self) -> SharedBus<16> {
        self.in_m
    }

    /// Input: the instruction to carry out.
    pub closed spec fn instruction(&self) -> SharedBus<16> {
        self.instruction
    }

    /// Input: `I` to start the program anew.
    pub closed spec fn reset(&self) -> SharedBus<1> {
        self.pc_gate.reset()
    }

    /// Output: the word to write to memory.
    pub closed spec fn out_m(&self) -> SharedBus<16> {
        self.out_m
    }

    /// Output: `I` where the memory is to be written.
    pub closed spec fn write_m(&self) -> SharedBus<1> {
        self.write_m
    }

    /// Output: the memory address, the low 15 bits of A.
    pub closed spec fn address_m(&self) -> SharedBus<15> {
        self.address_m
    }

    /// Output: the address of the next instruction, the low 15 bits of the
    /// counter.
    pub closed spec fn pc(&self) -> SharedBus<15> {
        self.pc
    }

    /// The wires that show the A register.
    pub closed spec fn a(&self) -> SharedBus<16> {
        self.a_register.out()
    }

    /// The wires that show the D register.
    pub closed spec fn d(&self) -> SharedBus<16> {
        self.d_register.out()
    }

    /// The wires that show the program counter.
    pub closed spec fn counter(&self) -> SharedBus<16> {
        self.pc_gate.out()
    }

    /// What the A register sampled last.
    pub closed spec fn a_state(&self) -> SharedBus<16> {
        self.a_register.state()
    }

    /// What the D register sampled last.
    pub closed spec fn d_state(&self) -> SharedBus<16> {
        self.d_register.state()
    }

    /// What the program counter sampled last.
    pub closed spec fn counter_state(&self) -> SharedBus<16> {
        self.pc_gate.state()
    }

    /// What the A register samples at the rising edge.
    pub closed spec fn a_next(&self) -> SharedBus<16> {
        self.a_register.next()
    }

    /// What the D register samples at the rising edge.
    pub closed spec fn d_next(&self) -> SharedBus<16> {
        self.d_register.next()
    }

    /// What the program counter samples at the rising edge.
    pub closed spec fn counter_next(&self) -> SharedBus<16> {
        self.pc_gate.next()
    }

    /// The bus `out_m`, to wire it on.
    pub fn get_out_m(&self) -> (r: SharedBus<16>)
        ensures
            r == self.out_m(),
    {
        self.out_m
    }

    /// The bus `write_m`, to wire it on.
    pub fn get_write_m(&self) -> (r: SharedBus<1>)
        ensures
            r == self.write_m(),
    {
        self.write_m
    }

    /// The bus `address_m`, to wire it on.
    pub fn get_address_m(&self) -> (r: SharedBus<15>)
        ensures
            r == self.address_m(),
    {
        self.address_m
    }

    /// The bus `pc`, to wire it on.
    pub fn get_pc(&self) -> (r: SharedBus<15>)
        ensures
            r == self.pc(),
    {
        self.pc
    }

    /// The number in the A register.
    pub fn get_a_register_value(&self, wires: &Wires) -> (u: u16)
        requires
            self.wired(),
            self.span().fits(*wires),
        ensures
            u == self.a().word(wires@),
    {
        broadcast use {lemma_register_ports, lemma_pc_ports, lemma_jump_ports};

        self.a_register.get_out().to_u16(wires)
    }

    /// The number in the D register.
    pub fn get_d_register_value(&self, wires: &Wires) -> (u: u16)
        requires
            self.wired(),
            self.span().fits(*wires),
        ensures
            u == self.d().word(wires@),
    {
        broadcast use {lemma_register_ports, lemma_pc_ports, lemma_jump_ports, lemma_alu_ports, lemma_or_ports};

        self.d_register.get_out().to_u16(wires)
    }

    /// The registers and the counter show the same values in two states.
    pub open spec fn shows_same(&self, pre: Wires, post: Wires) -> bool {
        &&& self.a().value(post@) == self.a().value(pre@)
        &&& self.d().value(post@) == self.d().value(pre@)
        &&& self.counter().value(post@) == self.counter().value(pre@)
    }

    /// The registers and the counter hold the same sampled values in two
    /// states.
    pub open spec fn holds_same(&self, pre: Wires, post: Wires) -> bool {
        &&& self.a_state().value(post@) == self.a_state().value(pre@)
        &&& self.d_state().value(post@) == self.d_state().value(pre@)
        &&& self.counter_state().value(post@) == self.counter_state().value(pre@)
    }

    /// The registers and the counter are about to sample the same values in
    /// two states.
    pub open spec fn awaits_same(&self, pre: Wires, post: Wires) -> bool {
        &&& self.a_next().value(post@) == self.a_next().value(pre@)
        &&& self.d_next().value(post@) == self.d_next().value(pre@)
        &&& self.counter_next().value(post@) == self.counter_next().value(pre@)
    }

    /// The outputs towards the memory carry the same values in two states.
    pub open spec fn drives_same(&self, pre: Wires, post: Wires) -> bool {
        &&& self.out_m().value(post@) == self.out_m().value(pre@)
        &&& self.write_m().value(post@) == self.write_m().value(pre@)
        &&& self.address_m().value(post@) == self.address_m().value(pre@)
    }

    /// What `re_compute` does: the outputs and the values that the
    /// registers and the counter will sample are those of the instruction
    /// on the bus, carried out on what the registers show.
    pub open spec fn settled(&self, pre: Wires, post: Wires) -> bool {
        let i = self.instruction().value(pre@);
        let m = self.in_m().value(pre@);
        let a = self.a().value(pre@);
        let d = self.d().value(pre@);
        let c = self.counter().value(pre@);
        &&& framed(pre, post, self.span())
        &&& post.mem() == pre.mem()
        &&& self.out_m().value(post@) == cpu_result(i, a, d, m)
        &&& self.write_m().value(post@)[0] == cpu_writes(i)
        &&& self.address_m().value(post@) == a.take(15)
        &&& self.pc().value(post@) == c.take(15)
        &&& self.a_next().value(post@) == cpu_next_a(i, a, d, m)
        &&& self.d_next().value(post@) == cpu_next_d(i, a, d, m)
        &&& self.counter_next().value(post@) == cpu_next_pc(i, a, d, m, c, self.reset().value(pre@)[0])
        &&& self.shows_same(pre, post)
        &&& self.holds_same(pre, post)
    }

    /// What a rising edge does: the registers and the counter sample.
    pub open spec fn sampled(&self, pre: Wires, post: Wires) -> bool {
        &&& framed(pre, post, self.span())
        &&& post.mem() == pre.mem()
        &&& self.a_state().value(post@) == self.a_next().value(pre@)
        &&& self.d_state().value(post@) == self.d_next().value(pre@)
        &&& self.counter_state().value(post@) == self.counter_next().value(pre@)
        &&& self.shows_same(pre, post)
        &&& self.awaits_same(pre, post)
        &&& self.drives_same(pre, post)
        &&& self.pc().value(post@) == self.pc().value(pre@)
    }

    /// What a falling edge does: the registers and the counter show what
    /// they sampled.
    pub open spec fn published(&self, pre: Wires, post: Wires) -> bool {
        &&& framed(pre, post, self.span())
        &&& post.mem() == pre.mem()
        &&& self.a().value(post@) == self.a_state().value(pre@)
        &&& self.d().value(post@) == self.d_state().value(pre@)
        &&& self.counter().value(post@) == self.counter_state().value(pre@)
        &&& self.pc().value(post@) == self.counter_state().value(pre@).take(15)
        &&& self.holds_same(pre, post)
        &&& self.awaits_same(pre, post)
        &&& self.drives_same(pre, post)
    }

    /// A change of the wires outside the processor does not show in it.
    pub proof fn lemma_apart(&self, pre: Wires, post: Wires, span: Span)
        requires
            self.wired(),
            self.span().fits(pre),
            framed(pre, post, span),
            span.hi <= self.span().lo || self.span().hi <= span.lo,
        ensures
            self.shows_same(pre, post),
            self.holds_same(pre, post),
            self.awaits_same(pre, post),
            self.drives_same(pre, post),
            self.pc().value(post@) == self.pc().value(pre@),
    {
        broadcast use {
            group_run,
            lemma_decode_ports,
            lemma_mux_ports,
            lemma_register_ports,
            lemma_alu_ports,
            lemma_or_ports,
            lemma_jump_ports,
            lemma_pc_ports,
        };

    }

    /// The address of the next instruction is always the low 15 bits of the
    /// counter.
    pub proof fn lemma_pc_wires(&self, w: Seq<Bit>)
        requires
            self.wired(),
        ensures
            self.pc().value(w) == self.counter().value(w).take(15),
    {
        self.lemma_low_wires(w);
    }

    /// The 15-bit output buses read the low wires of their 16-bit sources.
    proof fn lemma_low_wires(&self, w: Seq<Bit>)
        requires
            self.wired(),
        ensures
            self.address_m.value(w) == self.or2.out().value(w).take(15),
            self.pc.value(w) == self.pc_gate.out().value(w).take(15),
    {
        assert(self.address_m.value(w) =~= self.or2.out().value(w).take(15));
        assert(self.pc.value(w) =~= self.pc_gate.out().value(w).take(15));
    }

    /// First part of settling: the decoder, the second operand, the
    /// computation, and the copy of its result onto `alu_out`.
    #[verifier::spinoff_prover]
    fn settle_result(&self, wires: &mut Wires)
        requires
            self.wired(),
            self.span().fits(*old(wires)),
        ensures
            framed(*old(wires), *final(wires), self.span()),
            final(wires).mem() == old(wires).mem(),
            self.shows_same(*old(wires), *final(wires)),
            self.holds_same(*old(wires), *final(wires)),
            self.instruction.value(final(wires)@) == self.instruction.value(old(wires)@),
            self.reset().value(final(wires)@) == self.reset().value(old(wires)@),
            self.alu_out.value(final(wires)@) == cpu_result(
                self.instruction.value(old(wires)@),
                self.a().value(old(wires)@),
                self.d().value(old(wires)@),
                self.in_m.value(old(wires)@),
            ),
            self.alu.out().value(final(wires)@) == self.alu_out.value(final(wires)@),
            self.alu.zr().value(final(wires)@)[0] == zero_flag(self.alu_out.value(final(wires)@)),
            self.alu.ng().value(final(wires)@)[0] == self.alu_out.value(final(wires)@)[15],
            self.decode.computes().value(final(wires)@)[0] == self.instruction.value(old(wires)@)[15],
            self.decode.a_from_alu().value(final(wires)@)[0] == bit_and(
                self.instruction.value(old(wires)@)[15],
                self.instruction.value(old(wires)@)[5],
            ),
            self.decode.load_a().value(final(wires)@)[0] == (if self.instruction.value(old(wires)@)[15]
                == Bit::O || self.instruction.value(old(wires)@)[5] == Bit::I {
                Bit::I
            } else {
                Bit::O
            }),
            self.decode.load_d().value(final(wires)@)[0] == bit_and(
                self.instruction.value(old(wires)@)[15],
                self.instruction.value(old(wires)@)[4],
            ),
            self.write_m.value(final(wires)@)[0] == cpu_writes(self.instruction.value(old(wires)@)),
    {
        broadcast use {
            group_run,
            lemma_decode_ports,
            lemma_mux_ports,
            lemma_register_ports,
            lemma_alu_ports,
            lemma_or_ports,
            lemma_jump_ports,
            lemma_pc_ports,
        };

        let ghost w0 = *wires;
        let ghost ao = self.alu_out.0.bits[0] as nat;
        self.decode.re_compute(wires);
        self.mux2.re_compute(wires);
        self.alu.re_compute(wires);
        let ghost w1 = *wires;
        proof {
            lemma_overwritten_row(w1@, self.alu_out, self.alu.out(), ao);
        }
        self.alu_out.overwrite(&self.alu.get_out().0, wires);
        proof {
            assert(framed(w1, *wires, Span { lo: ao, hi: ao + 16, wlo: 0, whi: 0 }));
        }
    }

    /// Second part of settling: the outputs, the jump logic and the
    /// counter.
    #[verifier::spinoff_prover]
    fn settle_outputs(&self, wires: &mut Wires)
        requires
            self.wired(),
            self.span().fits(*old(wires)),
        ensures
            framed(*old(wires), *final(wires), self.span()),
            final(wires).mem() == old(wires).mem(),
            self.shows_same(*old(wires), *final(wires)),
            self.holds_same(*old(wires), *final(wires)),
            self.instruction.value(final(wires)@) == self.instruction.value(old(wires)@),
            self.alu_out.value(final(wires)@) == self.alu_out.value(old(wires)@),
            self.decode.a_from_alu().value(final(wires)@) == self.decode.a_from_alu().value(old(wires)@),
            self.decode.load_a().value(final(wires)@) == self.decode.load_a().value(old(wires)@),
            self.decode.load_d().value(final(wires)@) == self.decode.load_d().value(old(wires)@),
            self.write_m.value(final(wires)@) == self.write_m.value(old(wires)@),
            self.out_m.value(final(wires)@) == self.alu.out().value(old(wires)@),
            self.address_m.value(final(wires)@) == self.a().value(old(wires)@).take(15),
            self.pc.value(final(wires)@) == self.counter().value(old(wires)@).take(15),
            self.counter_next().value(final(wires)@) == pc_next(
                self.counter().value(old(wires)@),
                self.a().value(old(wires)@),
                jump_bit(
                    self.alu.zr().value(old(wires)@)[0],
                    self.alu.ng().value(old(wires)@)[0],
                    self.instruction.value(old(wires)@)[2],
                    self.instruction.value(old(wires)@)[1],
                    self.instruction.value(old(wires)@)[0],
                    self.decode.computes().value(old(wires)@)[0],
                ),
                bit_not(
                    jump_bit(
                        self.alu.zr().value(old(wires)@)[0],
                        self.alu.ng().value(old(wires)@)[0],
                        self.instruction.value(old(wires)@)[2],
                        self.instruction.value(old(wires)@)[1],
                        self.instruction.value(old(wires)@)[0],
                        self.decode.computes().value(old(wires)@)[0],
                    ),
                ),
                self.reset().value(old(wires)@)[0],
            ),
    {
        broadcast use {
            group_run,
            lemma_decode_ports,
            lemma_mux_ports,
            lemma_register_ports,
            lemma_alu_ports,
            lemma_or_ports,
            lemma_jump_ports,
            lemma_pc_ports,
        };

        let ghost w0 = *wires;
        let ghost za = self.zero_a.0.bits[0] as nat;
        let ghost zm = self.zero_m.0.bits[0] as nat;
        self.zero_a.drive(Bit::O, wires);
        let ghost w1 = *wires;
        assert(framed(w0, w1, Span { lo: za, hi: za + 16, wlo: 0, whi: 0 }));
        self.or2.re_compute(wires);
        let ghost w2 = *wires;
        self.zero_m.drive(Bit::O, wires);
        let ghost w3 = *wires;
        assert(framed(w2, w3, Span { lo: zm, hi: zm + 16, wlo: 0, whi: 0 }));
        self.or3.re_compute(wires);
        proof {
            assert(self.or2.out().value(w2@) =~= self.a().value(w0@));
            assert(self.or3.out().value(wires@) =~= self.alu.out().value(w0@));
        }
        self.jump.re_compute(wires);
        self.pc_gate.re_compute(wires);
        proof {
            self.lemma_low_wires(wires@);
        }
    }

    /// Third part of settling: the result goes on to the inputs of the
    /// registers.
    #[verifier::spinoff_prover]
    fn settle_registers(&self, wires: &mut Wires)
        requires
            self.wired(),
            self.span().fits(*old(wires)),
        ensures
            framed(*old(wires), *final(wires), self.span()),
            final(wires).mem() == old(wires).mem(),
            self.shows_same(*old(wires), *final(wires)),
            self.holds_same(*old(wires), *final(wires)),
            self.drives_same(*old(wires), *final(wires)),
            self.pc.value(final(wires)@) == self.pc.value(old(wires)@),
            self.counter_next().value(final(wires)@) == self.counter_next().value(old(wires)@),
            self.a_next().value(final(wires)@) == (if self.decode.load_a().value(old(wires)@)[0] == Bit::I {
                if self.decode.a_from_alu().value(old(wires)@)[0] == Bit::I {
                    self.alu_out.value(old(wires)@)
                } else {
                    self.instruction.value(old(wires)@)
                }
            } else {
                self.a().value(old(wires)@)
            }),
            self.d_next().value(final(wires)@) == (if self.decode.load_d().value(old(wires)@)[0] == Bit::I {
                self.alu_out.value(old(wires)@)
            } else {
                self.d().value(old(wires)@)
            }),
    {
        broadcast use {
            group_run,
            lemma_decode_ports,
            lemma_mux_ports,
            lemma_register_ports,
            lemma_alu_ports,
            lemma_or_ports,
            lemma_jump_ports,
            lemma_pc_ports,
        };

        let ghost w0 = *wires;
        self.mux1.re_compute(wires);
        self.a_register.re_compute(wires);
        self.d_register.re_compute(wires);
    }
}

impl Gate for CPU {
    closed spec fn wired(&self) -> bool {
        self.wiring()
    }

    closed spec fn span(&self) -> Span {
        self.decode.span().through(self.pc_gate.span())
    }

    open spec fn clocked(&self) -> bool {
        true
    }

    #[verifier::spinoff_prover]
    fn clock_up(&self, wires: &mut Wires)
        ensures
            self.sampled(*old(wires), *final(wires)),
    {
        broadcast use {
            group_run,
            lemma_decode_ports,
            lemma_mux_ports,
            lemma_register_ports,
            lemma_alu_ports,
            lemma_or_ports,
            lemma_jump_ports,
            lemma_pc_ports,
        };

        self.a_register.clock_up(wires);
        self.d_register.clock_up(wires);
        self.pc_gate.clock_up(wires);
        proof {
            self.lemma_low_wires(wires@);
            self.lemma_low_wires(old(wires)@);
        }
    }

    #[verifier::spinoff_prover]
    fn clock_down(&self, wires: &mut Wires)
        ensures
            self.published(*old(wires), *final(wires)),
    {
        broadcast use {
            group_run,
            lemma_decode_ports,
            lemma_mux_ports,
            lemma_register_ports,
            lemma_alu_ports,
            lemma_or_ports,
            lemma_jump_ports,
            lemma_pc_ports,
        };

        self.a_register.clock_down(wires);
        self.d_register.clock_down(wires);
        self.pc_gate.clock_down(wires);
        proof {
            self.lemma_low_wires(wires@);
        }
    }

    #[verifier::spinoff_prover]
    fn re_compute(&self, wires: &mut Wires)
        ensures
            self.settled(*old(wires), *final(wires)),
    {
        self.settle_result(wires);
        self.settle_outputs(wires);
        self.settle_registers(wires);
    }
}

/// What a caller may rely on of a wired processor.
pub broadcast proof fn lemma_cpu_ports(g: CPU)
    requires
        #[trigger] g.wired(),
    ensures
        g.span().lo <= g.span().hi,
        g.span().wlo <= g.span().whi,
        g.out_m().within(g.span().lo, g.span().hi),
        g.write_m().within(g.span().lo, g.span().hi),
        g.address_m().within(g.span().lo, g.span().hi),
        g.pc().within(g.span().lo, g.span().hi),
        g.a().within(g.span().lo, g.span().hi),
        g.d().within(g.span().lo, g.span().hi),
        g.counter().within(g.span().lo, g.span().hi),
        g.in_m().below(g.span().lo),
        g.instruction().below(g.span().lo),
        g.reset().below(g.span().lo),
{
    broadcast use {
        lemma_decode_ports,
        lemma_mux_ports,
        lemma_register_ports,
        lemma_alu_ports,
        lemma_or_ports,
        lemma_jump_ports,
        lemma_pc_ports,
    };

}

} // verus!
