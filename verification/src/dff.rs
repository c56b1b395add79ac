//! The edge-triggered flip-flop.
use vstd::prelude::*;
use crate::bit::{Bit, fill};
use crate::bus::{Bus, SharedBus, group_build, group_run, lemma_extent_single};
use crate::gate::Gate;
use crate::wires::{Span, Wires, framed, grown};

verus! {

/// Edge-triggered flip-flop of one bit.
///
/// The rising edge copies the input into `state`; the falling edge copies
/// `state` into `out`. Between the two, `out` still shows the value of the
/// cycle before.
pub struct DFF {
    pub out: SharedBus<1>,
    input: SharedBus<1>,
    state: SharedBus<1>,
    span: Ghost<Span>,
}

impl DFF {
    pub fn new(input: SharedBus<1>, wires: &mut Wires) -> (r: DFF)
        requires
            input.below(old(wires)@.len()),
        ensures
            r.wired(),
            r.input() == input,
            r.span() == Span::added(*old(wires), *final(wires)),
            grown(*old(wires), *final(wires)),
            r.out().value(final(wires)@) == fill(1, Bit::O),
            r.state().value(final(wires)@) == fill(1, Bit::O),
    {
        broadcast use {group_build};

        let ghost pre = *wires;
        let state = Bus::all0(wires).to_shared_bus();
        let out = Bus::all0(wires).to_shared_bus();
        proof {
            assert(state.value(wires@) =~= fill(1, Bit::O));
            assert(out.value(wires@) =~= fill(1, Bit::O));
        }
        DFF { out, input, state, span: Ghost(Span::added(pre, *wires)) }
    }
}

impl DFF {
    /// What a rising edge does: `state` takes the input, `out` stays.
    pub open spec fn sampled(&self, pre: Wires, post: Wires) -> bool {
        &&& framed(pre, post, self.span())
        &&& post.mem() == pre.mem()
        &&& self.state().value(post@) == self.input().value(pre@)
        &&& self.out().value(post@) == self.out().value(pre@)
    }

    /// What a falling edge does: `out` takes `state`, `state` stays.
    pub open spec fn published(&self, pre: Wires, post: Wires) -> bool {
        &&& framed(pre, post, self.span())
        &&& post.mem() == pre.mem()
        &&& self.out().value(post@) == self.state().value(pre@)
        &&& self.state().value(post@) == self.state().value(pre@)
    }
}

impl Gate for DFF {
    closed spec fn wired(&self) -> bool {
        &&& self.span@.hi == self.span@.lo + 2
        &&& self.span@.wlo == self.span@.whi
        &&& self.input().below(self.span@.lo)
        &&& self.state().0.bits[0] == self.span@.lo
        &&& self.out().0.bits[0] == self.span@.lo + 1
    }

    closed spec fn span(&self) -> Span {
        self.span@
    }

    open spec fn clocked(&self) -> bool {
        true
    }

    fn re_compute(&self, wires: &mut Wires)
        ensures
            final(wires)@ == old(wires)@,
    {
        broadcast use {group_run};

    }

    fn clock_up(&self, wires: &mut Wires)
        ensures
            self.sampled(*old(wires), *final(wires)),
    {
        broadcast use {group_run};

        let input_bit = wires.get(self.input.get_shared_bit(0));
        wires.set(self.state.get_shared_bit(0), input_bit);
        proof {
            assert(self.state().value(wires@) =~= self.input().value(old(wires)@));
            assert(self.out().value(wires@) =~= self.out().value(old(wires)@));
        }
    }

    fn clock_down(&self, wires: &mut Wires)
        ensures
            self.published(*old(wires), *final(wires)),
    {
        broadcast use {group_run};

        let state_bit = wires.get(self.state.get_shared_bit(0));
        wires.set(self.out.get_shared_bit(0), state_bit);
        proof {
            assert(self.out().value(wires@) =~= self.state().value(old(wires)@));
            assert(self.state().value(wires@) =~= self.state().value(old(wires)@));
        }
    }
}

/// A rising edge and then a falling edge publish the value that the input
/// carried at the rising edge, whatever the input does in between, as long
/// as the flip-flop's own state cell is left alone.
pub proof fn lemma_dff_cycle(dff: DFF, w0: Wires, w1: Wires, w2: Wires, w3: Wires)
    requires
        dff.sampled(w0, w1),
        dff.state().value(w2@) == dff.state().value(w1@),
        dff.published(w2, w3),
    ensures
        dff.out().value(w3@) == dff.input().value(w0@),
{
}

impl DFF {
    /// The input bus `input`.
    pub closed spec fn input(&self) -> SharedBus<1> {
        self.input
    }

    /// The output bus `state`.
    pub closed spec fn state(&self) -> SharedBus<1> {
        self.state
    }

    /// The output bus `out`.
    pub closed spec fn out(&self) -> SharedBus<1> {
        self.out
    }

    /// The bus `out`, to wire it on.
    pub fn get_out(&self) -> (r: SharedBus<1>)
        ensures
            r == self.out(),
    {
        self.out
    }

    /// The bus `state`, to wire it on.
    pub fn get_state(&self) -> (r: SharedBus<1>)
        ensures
            r == self.state(),
    {
        self.state
    }
}

/// What a caller may rely on of a wired flip-flop.
pub broadcast proof fn lemma_dff_ports(g: DFF)
    requires
        #[trigger] g.wired(),
    ensures
        g.span().lo <= g.span().hi,
        g.span().wlo <= g.span().whi,
        g.out().within(g.span().lo, g.span().hi),
        g.state().within(g.span().lo, g.span().hi),
        g.input().below(g.span().lo),
{
    broadcast use lemma_extent_single;

}

} // verus!
