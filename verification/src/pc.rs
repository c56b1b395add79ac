//! The program counter.
use vstd::prelude::*;
use vstd::arithmetic::power2::lemma2_to64;
use crate::bit::{Bit, bits_to_nat, fill, nat_bits, lemma_bits_of_value};
use crate::bus::{Bus, SharedBus, group_build, group_run, lemma_overwritten_row};
use crate::gate::Gate;
use crate::inc16::{Inc16, lemma_inc16_ports};
use crate::mux::{Mux, lemma_mux_ports};
use crate::register::{Register, lemma_register_ports};
use crate::wires::{Span, Wires, framed, grown};

verus! {

/// The value that the counter takes at the next tock: 0 where `reset` is
/// `I`; else `input` where `load` is `I`; else the current value plus one,
/// modulo 2^16, where `inc` is `I`; else the current value.
pub open spec fn pc_next(cur: Seq<Bit>, input: Seq<Bit>, load: Bit, inc: Bit, reset: Bit) -> Seq<Bit> {
    if reset == Bit::I {
        fill(16, Bit::O)
    } else if load == Bit::I {
        input
    } else if inc == Bit::I {
        nat_bits(16, (bits_to_nat(cur) + 1) % 65536)
    } else {
        cur
    }
}

/// 16-bit counter with reset, load and increment, in this order of
/// precedence.
///
/// The register's output is copied onto `feedback` when the counter
/// settles, so that the adder never reads a wire that it drives.
pub struct PC {
    pub out: SharedBus<16>,
    feedback: SharedBus<16>,
    zero: SharedBus<16>,
    one: SharedBus<1>,
    inc16: Inc16,
    mux16_1: Mux<16>,
    mux16_2: Mux<16>,
    mux16_3: Mux<16>,
    reg: Register,
}

impl PC {
    #[verifier::spinoff_prover]
    pub fn new(
        input: SharedBus<16>,
        load: SharedBus<1>,
        inc: SharedBus<1>,
        reset: SharedBus<1>,
        wires: &mut Wires,
    ) -> (r: PC)
        requires
            input.below(old(wires)@.len()),
            load.below(old(wires)@.len()),
            inc.below(old(wires)@.len()),
            reset.below(old(wires)@.len()),
        ensures
            r.wired(),
            r.input() == input,
            r.load() == load,
            r.inc() == inc,
            r.reset() == reset,
            r.span() == Span::added(*old(wires), *final(wires)),
            grown(*old(wires), *final(wires)),
            r.out().value(final(wires)@) == fill(16, Bit::O),
            r.state().value(final(wires)@) == fill(16, Bit::O),
    {
        broadcast use {group_build, lemma_inc16_ports, lemma_mux_ports, lemma_register_ports};

        let feedback = Bus::<16>::all0(wires).to_shared_bus();
        let inc16 = Inc16::new(feedback, wires);
        let mux16_1 = Mux::new(feedback, inc16.get_out(), inc, wires);
        let mux16_2 = Mux::new(mux16_1.get_out(), input, load, wires);
        let zero = Bus::<16>::all0(wires).to_shared_bus();
        let mux16_3 = Mux::new(mux16_2.get_out(), zero, reset, wires);
        let one = Bus::<1>::all1(wires).to_shared_bus();
        let reg = Register::new(mux16_3.get_out(), one, wires);
        PC { out: reg.get_out(), feedback, zero, one, inc16, mux16_1, mux16_2, mux16_3, reg }
    }

    /// The parts are connected as a counter.
    pub closed spec fn wiring(&self) -> bool {
        let lo = self.feedback.0.bits[0] as nat;
        let z = self.zero.0.bits[0] as nat;
        let o = self.one.0.bits[0] as nat;
        &&& self.inc16.wired()
        &&& self.mux16_1.wired()
        &&& self.mux16_2.wired()
        &&& self.mux16_3.wired()
        &&& self.reg.wired()
        &&& self.feedback.row(lo)
        &&& self.feedback.within(lo, lo + 16)
        &&& lo + 16 <= self.inc16.span().lo
        &&& self.inc16.span().before(self.mux16_1.span())
        &&& self.mux16_1.span().before(self.mux16_2.span())
        &&& self.mux16_2.span().hi <= z
        &&& self.mux16_2.span().whi <= self.mux16_3.span().wlo
        &&& self.zero.within(z, z + 16)
        &&& z + 16 <= self.mux16_3.span().lo
        &&& self.mux16_3.span().hi <= o
        &&& self.mux16_3.span().whi <= self.reg.span().wlo
        &&& self.one.within(o, o + 1)
        &&& o + 1 <= self.reg.span().lo
        &&& self.input().below(lo)
        &&& self.load().below(lo)
        &&& self.inc().below(lo)
        &&& self.reset().below(lo)
        &&& self.inc16.input() == self.feedback
        &&& self.mux16_1.a() == self.feedback
        &&& self.mux16_1.b() == self.inc16.out()
        &&& self.mux16_2.a() == self.mux16_1.out()
        &&& self.mux16_3.a() == self.mux16_2.out()
        &&& self.mux16_3.b() == self.zero
        &&& self.reg.input() == self.mux16_3.out()
        &&& self.reg.load() == self.one
        &&& self.out == self.reg.out()
    }

    /// The input bus `input`.
    pub closed spec fn input(&self) -> SharedBus<16> {
        self.mux16_2.b()
    }

    /// The input bus `load`.
    pub closed spec fn load(&self) -> SharedBus<1> {
        self.mux16_2.sel()
    }

    /// The input bus `inc`.
    pub closed spec fn inc(&self) -> SharedBus<1> {
        self.mux16_1.sel()
    }

    /// The input bus `reset`.
    pub closed spec fn reset(&self) -> SharedBus<1> {
        self.mux16_3.sel()
    }

    /// The output bus `out`.
    pub closed spec fn out(&self) -> SharedBus<16> {
        self.out
    }

    /// The wires that hold what the register sampled last.
    pub closed spec fn state(&self) -> SharedBus<16> {
        self.reg.state()
    }

    /// The wires that the register samples at the rising edge.
    pub closed spec fn next(&self) -> SharedBus<16> {
        self.reg.next()
    }

    /// The bus `out`, to wire it on.
    pub fn get_out(&self) -> (r: SharedBus<16>)
        ensures
            r == self.out(),
    {
        self.out
    }

    /// What `re_compute` does: `next` is the value for the next tock;
    /// `out` and `state` stay.
    pub open spec fn settled(&self, pre: Wires, post: Wires) -> bool {
        &&& framed(pre, post, self.span())
        &&& post.mem() == pre.mem()
        &&& self.next().value(post@) == pc_next(
            self.out().value(pre@),
            self.input().value(pre@),
            self.load().value(pre@)[0],
            self.inc().value(pre@)[0],
            self.reset().value(pre@)[0],
        )
        &&& self.out().value(post@) == self.out().value(pre@)
        &&& self.state().value(post@) == self.state().value(pre@)
    }

    /// What a rising edge does: `state` takes `next`; `out` and `next` stay.
    pub open spec fn sampled(&self, pre: Wires, post: Wires) -> bool {
        &&& framed(pre, post, self.span())
        &&& post.mem() == pre.mem()
        &&& self.state().value(post@) == self.next().value(pre@)
        &&& self.out().value(post@) == self.out().value(pre@)
        &&& self.next().value(post@) == self.next().value(pre@)
    }

    /// What a falling edge does: `out` takes `state`; `state` and `next` stay.
    pub open spec fn published(&self, pre: Wires, post: Wires) -> bool {
        &&& framed(pre, post, self.span())
        &&& post.mem() == pre.mem()
        &&& self.out().value(post@) == self.state().value(pre@)
        &&& self.state().value(post@) == self.state().value(pre@)
        &&& self.next().value(post@) == self.next().value(pre@)
    }

    /// First part of settling: the register's output goes onto `feedback`,
    /// and the two constants are driven.
    #[verifier::spinoff_prover]
    fn refresh(&self, wires: &mut Wires)
        requires
            self.wired(),
            self.span().fits(*old(wires)),
        ensures
            framed(*old(wires), *final(wires), self.span()),
            final(wires).mem() == old(wires).mem(),
            self.feedback.value(final(wires)@) == self.out.value(old(wires)@),
            self.zero.value(final(wires)@) == fill(16, Bit::O),
            self.one.value(final(wires)@) == fill(1, Bit::I),
            self.out.value(final(wires)@) == self.out.value(old(wires)@),
            self.reg.state().value(final(wires)@) == self.reg.state().value(old(wires)@),
            self.input().value(final(wires)@) == self.input().value(old(wires)@),
            self.load().value(final(wires)@) == self.load().value(old(wires)@),
            self.inc().value(final(wires)@) == self.inc().value(old(wires)@),
            self.reset().value(final(wires)@) == self.reset().value(old(wires)@),
    {
        broadcast use {group_run, lemma_inc16_ports, lemma_mux_ports, lemma_register_ports};

        let ghost w0 = *wires;
        let ghost lo = self.feedback.0.bits[0] as nat;
        let ghost z = self.zero.0.bits[0] as nat;
        let ghost o = self.one.0.bits[0] as nat;
        proof {
            lemma_overwritten_row(w0@, self.feedback, self.out, lo);
        }
        self.feedback.overwrite(&self.out.0, wires);
        let ghost w1 = *wires;
        assert(framed(w0, w1, Span { lo, hi: lo + 16, wlo: 0, whi: 0 }));
        self.zero.drive(Bit::O, wires);
        let ghost w2 = *wires;
        assert(framed(w1, w2, Span { lo: z, hi: z + 16, wlo: 0, whi: 0 }));
        self.one.drive(Bit::I, wires);
        assert(framed(w2, *wires, Span { lo: o, hi: o + 1, wlo: 0, whi: 0 }));
    }
}

impl Gate for PC {
    closed spec fn wired(&self) -> bool {
        self.wiring()
    }

    closed spec fn span(&self) -> Span {
        Span {
            lo: self.feedback.0.bits[0] as nat,
            hi: self.reg.span().hi,
            wlo: self.inc16.span().wlo,
            whi: self.reg.span().whi,
        }
    }

    open spec fn clocked(&self) -> bool {
        true
    }

    #[verifier::spinoff_prover]
    fn clock_up(&self, wires: &mut Wires)
        ensures
            self.sampled(*old(wires), *final(wires)),
    {
        broadcast use {group_run, lemma_inc16_ports, lemma_mux_ports, lemma_register_ports};

        self.reg.clock_up(wires);
    }

    #[verifier::spinoff_prover]
    fn clock_down(&self, wires: &mut Wires)
        ensures
            self.published(*old(wires), *final(wires)),
    {
        broadcast use {group_run, lemma_inc16_ports, lemma_mux_ports, lemma_register_ports};

        self.reg.clock_down(wires);
    }

    #[verifier::spinoff_prover]
    fn re_compute(&self, wires: &mut Wires)
        ensures
            self.settled(*old(wires), *final(wires)),
    {
        broadcast use {group_run, lemma_inc16_ports, lemma_mux_ports, lemma_register_ports};

        let ghost w0 = *wires;
        self.refresh(wires);
        self.inc16.re_compute(wires);
        proof {
            lemma_bits_of_value(self.inc16.out().value(wires@));
            lemma2_to64();
        }
        self.mux16_1.re_compute(wires);
        self.mux16_2.re_compute(wires);
        self.mux16_3.re_compute(wires);
        self.reg.re_compute(wires);
    }
}

/// What a caller may rely on of a wired counter.
pub broadcast proof fn lemma_pc_ports(g: PC)
    requires
        #[trigger] g.wired(),
    ensures
        g.span().lo <= g.span().hi,
        g.span().wlo <= g.span().whi,
        g.out().within(g.span().lo, g.span().hi),
        g.state().within(g.span().lo, g.span().hi),
        g.next().within(g.span().lo, g.span().hi),
        g.input().below(g.span().lo),
        g.load().below(g.span().lo),
        g.inc().below(g.span().lo),
        g.reset().below(g.span().lo),
{
    broadcast use {lemma_inc16_ports, lemma_mux_ports, lemma_register_ports};

}

/// One tick and one tock: the counter shows 0 where `reset` was `I` when
/// the tick began, whatever `load` and `inc` were; else `input` where `load`
/// was `I`; else one more than before where `inc` was `I`; else what it
/// showed before.
pub proof fn lemma_pc_cycle(pc: PC, w0: Wires, w1: Wires, w2: Wires, w3: Wires, w4: Wires)
    requires
        pc.settled(w0, w1),
        pc.sampled(w1, w2),
        pc.published(w2, w3),
        pc.settled(w3, w4),
    ensures
        pc.out().value(w4@) == pc_next(
            pc.out().value(w0@),
            pc.input().value(w0@),
            pc.load().value(w0@)[0],
            pc.inc().value(w0@)[0],
            pc.reset().value(w0@)[0],
        ),
{
}

} // verus!
