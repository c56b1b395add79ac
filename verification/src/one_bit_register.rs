//! The register of one bit.
use vstd::prelude::*;
use crate::bit::{Bit, fill};
use crate::bus::{Bus, SharedBus, group_build, group_run};
use crate::gate::Gate;
use crate::mux::{Mux, lemma_mux_ports};
use crate::dff::{DFF, lemma_dff_ports};
use crate::wires::{Span, Wires, framed, grown};

verus! {

/// One bit that keeps its value while `load` is `O` and takes `input`
/// where `load` is `I`.
pub struct OneBitRegister {
    pub out: SharedBus<1>,
    mux: Mux<1>,
    dff: DFF,
    feedback: SharedBus<1>,
}

impl OneBitRegister {
    #[verifier::spinoff_prover]
    pub fn new(input: SharedBus<1>, load: SharedBus<1>, wires: &mut Wires) -> (r: OneBitRegister)
        requires
            input.below(old(wires)@.len()),
            load.below(old(wires)@.len()),
        ensures
            r.wired(),
            r.input() == input,
            r.load() == load,
            r.span() == Span::added(*old(wires), *final(wires)),
            grown(*old(wires), *final(wires)),
            r.out().value(final(wires)@) == fill(1, Bit::O),
            r.state().value(final(wires)@) == fill(1, Bit::O),
    {
        broadcast use {group_build, lemma_mux_ports, lemma_dff_ports};

        let feedback = Bus::<1>::all0(wires).to_shared_bus();
        let mux = Mux::<1>::new(feedback, input, load, wires);
        let dff = DFF::new(mux.get_out(), wires);
        let r = OneBitRegister { out: dff.get_out(), mux, dff, feedback };
        proof {
            reveal(OneBitRegister::wiring);
        }
        r
    }

    /// The parts are connected as a register of one bit.
    #[verifier::opaque]
    pub closed spec fn wiring(&self) -> bool {
        &&& self.mux.wired()
        &&& self.dff.wired()
        &&& self.feedback.0.bits[0] < self.mux.span().lo
        &&& self.mux.span().before(self.dff.span())
        &&& self.input().below(self.feedback.0.bits[0] as nat)
        &&& self.load().below(self.feedback.0.bits[0] as nat)
        &&& self.mux.a() == self.feedback
        &&& self.dff.input() == self.mux.out()
        &&& self.out() == self.dff.out()
    }

    /// The input bus `input`.
    pub closed spec fn input(&self) -> SharedBus<1> {
        self.mux.b()
    }

    /// The input bus `load`.
    pub closed spec fn load(&self) -> SharedBus<1> {
        self.mux.sel()
    }
}

impl Gate for OneBitRegister {
    closed spec fn wired(&self) -> bool {
        self.wiring()
    }

    closed spec fn span(&self) -> Span {
        Span {
            lo: self.feedback.0.bits[0] as nat,
            hi: self.dff.span().hi,
            wlo: self.mux.span().wlo,
            whi: self.dff.span().whi,
        }
    }

    open spec fn clocked(&self) -> bool {
        true
    }

    #[verifier::spinoff_prover]
    fn clock_up(&self, wires: &mut Wires)
        ensures
            self.state().value(final(wires)@) == self.next().value(old(wires)@),
            self.next().value(final(wires)@) == self.next().value(old(wires)@),
            self.out().value(final(wires)@) == self.out().value(old(wires)@),
            final(wires).mem() == old(wires).mem(),
    {
        broadcast use {group_run, lemma_mux_ports, lemma_dff_ports};

        proof {
            reveal(OneBitRegister::wiring);
        }
        self.dff.clock_up(wires);
    }

    #[verifier::spinoff_prover]
    fn clock_down(&self, wires: &mut Wires)
        ensures
            self.out().value(final(wires)@) == self.state().value(old(wires)@),
            self.state().value(final(wires)@) == self.state().value(old(wires)@),
            self.next().value(final(wires)@) == self.next().value(old(wires)@),
            final(wires).mem() == old(wires).mem(),
    {
        broadcast use {group_run, lemma_mux_ports, lemma_dff_ports};

        proof {
            reveal(OneBitRegister::wiring);
        }
        self.dff.clock_down(wires);
    }

    #[verifier::spinoff_prover]
    fn re_compute(&self, wires: &mut Wires)
        ensures
            self.next().value(final(wires)@) == (if self.load().value(old(wires)@)[0] == Bit::I {
                self.input().value(old(wires)@)
            } else {
                self.out().value(old(wires)@)
            }),
            self.out().value(final(wires)@) == self.out().value(old(wires)@),
            self.state().value(final(wires)@) == self.state().value(old(wires)@),
    {
        broadcast use {group_run, lemma_mux_ports, lemma_dff_ports};

        proof {
            reveal(OneBitRegister::wiring);
        }
        let ghost w0 = *wires;
        let dff_out_bit = wires.get(self.dff.get_out().get_shared_bit(0));
        wires.set(self.feedback.get_shared_bit(0), dff_out_bit);
        proof {
            let lo = self.feedback.0.bits[0] as nat;
            assert(framed(w0, *wires, Span { lo, hi: lo + 1, wlo: 0, whi: 0 }));
            assert(self.feedback.value(wires@) =~= self.out().value(w0@));
        }
        self.mux.re_compute(wires);
    }
}

/// What a caller may rely on of a wired one-bit register.
pub broadcast proof fn lemma_one_bit_register_ports(g: OneBitRegister)
    requires
        #[trigger] g.wired(),
    ensures
        g.span().lo <= g.span().hi,
        g.span().wlo <= g.span().whi,
        g.out().within(g.span().lo, g.span().hi),
        g.state().within(g.span().lo, g.span().hi),
        g.next().within(g.span().lo, g.span().hi),
        g.input().below(g.span().lo),
        g.load().below(g.span().lo),
{
    broadcast use {lemma_mux_ports, lemma_dff_ports};

    reveal(OneBitRegister::wiring);
}

impl OneBitRegister {
    /// The output bus `out`.
    pub closed spec fn out(&self) -> SharedBus<1> {
        self.out
    }

    /// The wire that holds what the flip-flop sampled last.
    pub closed spec fn state(&self) -> SharedBus<1> {
        self.dff.state()
    }

    /// The wire that the flip-flop samples at the rising edge.
    pub closed spec fn next(&self) -> SharedBus<1> {
        self.mux.out()
    }

    /// The bus `out`, to wire it on.
    pub fn get_out(&self) -> (r: SharedBus<1>)
        ensures
            r == self.out(),
    {
        self.out
    }

    /// The bus `state`, to wire it on.
    pub fn get_state(&self) -> (r: SharedBus<1>)
        ensures
            r == self.state(),
    {
        self.dff.get_state()
    }

    /// The bus `next`, to wire it on.
    pub fn get_next(&self) -> (r: SharedBus<1>)
        ensures
            r == self.next(),
    {
        self.mux.get_out()
    }
}

} // verus!
