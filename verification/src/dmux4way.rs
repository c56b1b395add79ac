//! The 4-way demultiplexer.
use vstd::prelude::*;
use crate::bit::{Bit, fill, route, lemma_bits_to_nat_1, lemma_bits_to_nat_2};
use crate::bus::{SharedBus, group_build, group_run};
use crate::gate::Gate;
use crate::dmux::{DMux, lemma_dmux_ports};
use crate::wires::{Span, Wires, grown};

verus! {

/// Sends `input` to the one of four outputs that the 2-bit selector names;
/// the others carry `O`.
pub struct DMux4Way {
    pub out1: SharedBus<1>,
    pub out2: SharedBus<1>,
    pub out3: SharedBus<1>,
    pub out4: SharedBus<1>,
    sel: SharedBus<2>,
    dmux1: DMux,
    dmux2: DMux,
    dmux3: DMux,
}

impl DMux4Way {
    #[verifier::spinoff_prover]
    pub fn new(input: SharedBus<1>, sel: SharedBus<2>, wires: &mut Wires) -> (r: DMux4Way)
        requires
            input.below(old(wires)@.len()),
            sel.below(old(wires)@.len()),
        ensures
            r.wired(),
            r.input() == input,
            r.sel() == sel,
            r.span() == Span::added(*old(wires), *final(wires)),
            grown(*old(wires), *final(wires)),
            r.out1().value(final(wires)@) == fill(1, Bit::O),
            r.out2().value(final(wires)@) == fill(1, Bit::O),
            r.out3().value(final(wires)@) == fill(1, Bit::O),
            r.out4().value(final(wires)@) == fill(1, Bit::O),
    {
        broadcast use {group_build, lemma_dmux_ports};

        let sel0 = sel.reconnect([0]);
        let sel1 = sel.reconnect([1]);

        let dmux1 = DMux::new(input, sel1, wires);
        let dmux2 = DMux::new(dmux1.get_out1(), sel0, wires);
        let dmux3 = DMux::new(dmux1.get_out2(), sel0, wires);
        let r = DMux4Way {
            out1: dmux2.get_out1(),
            out2: dmux2.get_out2(),
            out3: dmux3.get_out1(),
            out4: dmux3.get_out2(),
            sel,
            dmux1,
            dmux2,
            dmux3,
        };
        proof {
            reveal(DMux4Way::wiring);
        }
        r
    }

    /// The parts are connected as a tree of demultiplexers.
    #[verifier::opaque]
    pub closed spec fn wiring(&self) -> bool {
        &&& self.dmux1.wired()
        &&& self.dmux2.wired()
        &&& self.dmux3.wired()
        &&& self.dmux1.span().before(self.dmux2.span())
        &&& self.dmux2.span().before(self.dmux3.span())
        &&& self.sel().below(self.dmux1.span().lo)
        &&& self.dmux2.sel().below(self.dmux1.span().lo)
        &&& self.dmux1.sel().0.bits[0] == self.sel().0.bits[1]
        &&& self.dmux2.sel().0.bits[0] == self.sel().0.bits[0]
        &&& self.dmux3.sel() == self.dmux2.sel()
        &&& self.dmux2.input() == self.dmux1.out1()
        &&& self.dmux3.input() == self.dmux1.out2()
        &&& self.out1() == self.dmux2.out1()
        &&& self.out2() == self.dmux2.out2()
        &&& self.out3() == self.dmux3.out1()
        &&& self.out4() == self.dmux3.out2()
    }

    /// The input bus `input`.
    pub closed spec fn input(&self) -> SharedBus<1> {
        self.dmux1.input()
    }

    /// Output number `k`, counted from 0; the last for any `k` above 2.
    pub fn output(&self, k: usize) -> (r: SharedBus<1>)
        ensures
            r == self.out(k as int),
    {
        if k == 0 {
            self.out1
        } else if k == 1 {
            self.out2
        } else if k == 2 {
            self.out3
        } else {
            self.out4
        }
    }

    /// Output number `k`, counted from 0.
    pub closed spec fn out(&self, k: int) -> SharedBus<1> {
        if k == 0 {
            self.out1()
        } else if k == 1 {
            self.out2()
        } else if k == 2 {
            self.out3()
        } else {
            self.out4()
        }
    }
}

impl Gate for DMux4Way {
    closed spec fn wired(&self) -> bool {
        self.wiring()
    }

    closed spec fn span(&self) -> Span {
        self.dmux1.span().through(self.dmux3.span())
    }

    open spec fn clocked(&self) -> bool {
        false
    }

    #[verifier::spinoff_prover]
    fn re_compute(&self, wires: &mut Wires)
        ensures
            self.out1().value(final(wires)@) == route(
                self.input().value(old(wires)@),
                self.sel().word(old(wires)@),
                0,
            ),
            self.out2().value(final(wires)@) == route(
                self.input().value(old(wires)@),
                self.sel().word(old(wires)@),
                1,
            ),
            self.out3().value(final(wires)@) == route(
                self.input().value(old(wires)@),
                self.sel().word(old(wires)@),
                2,
            ),
            self.out4().value(final(wires)@) == route(
                self.input().value(old(wires)@),
                self.sel().word(old(wires)@),
                3,
            ),
            forall|k: int|
                0 <= k < 4 ==> (#[trigger] self.out(k)).value(final(wires)@) == route(
                    self.input().value(old(wires)@),
                    self.sel().word(old(wires)@),
                    k as nat,
                ),
    {
        broadcast use {group_run, lemma_dmux_ports};

        proof {
            reveal(DMux4Way::wiring);
            let s = self.sel().value(old(wires)@);
            lemma_bits_to_nat_2(s);
            lemma_bits_to_nat_1(self.dmux1.sel().value(old(wires)@));
            lemma_bits_to_nat_1(self.dmux2.sel().value(old(wires)@));
            assert(self.dmux1.sel().value(old(wires)@)[0] == s[1]);
            assert(self.dmux2.sel().value(old(wires)@)[0] == s[0]);
        }
        self.dmux1.re_compute(wires);
        self.dmux2.re_compute(wires);
        self.dmux3.re_compute(wires);
    }
}

/// What a caller may rely on of a wired 4-way demultiplexer.
pub broadcast proof fn lemma_dmux4way_ports(g: DMux4Way)
    requires
        #[trigger] g.wired(),
    ensures
        g.span().lo <= g.span().hi,
        g.span().wlo <= g.span().whi,
        g.out1().within(g.span().lo, g.span().hi),
        g.out2().within(g.span().lo, g.span().hi),
        g.out3().within(g.span().lo, g.span().hi),
        g.out4().within(g.span().lo, g.span().hi),
        forall|k: int| 0 <= k < 4 ==> (#[trigger] g.out(k)).within(g.span().lo, g.span().hi),
        g.input().below(g.span().lo),
        g.sel().below(g.span().lo),
{
    broadcast use {lemma_dmux_ports};

    reveal(DMux4Way::wiring);
}

impl DMux4Way {
    /// The input bus `sel`.
    pub closed spec fn sel(&self) -> SharedBus<2> {
        self.sel
    }

    /// The output bus `out1`.
    pub closed spec fn out1(&self) -> SharedBus<1> {
        self.out1
    }

    /// The output bus `out2`.
    pub closed spec fn out2(&self) -> SharedBus<1> {
        self.out2
    }

    /// The output bus `out3`.
    pub closed spec fn out3(&self) -> SharedBus<1> {
        self.out3
    }

    /// The output bus `out4`.
    pub closed spec fn out4(&self) -> SharedBus<1> {
        self.out4
    }

    /// The bus `out1`, to wire it on.
    pub fn get_out1(&self) -> (r: SharedBus<1>)
        ensures
            r == self.out1(),
    {
        self.out1
    }

    /// The bus `out2`, to wire it on.
    pub fn get_out2(&self) -> (r: SharedBus<1>)
        ensures
            r == self.out2(),
    {
        self.out2
    }

    /// The bus `out3`, to wire it on.
    pub fn get_out3(&self) -> (r: SharedBus<1>)
        ensures
            r == self.out3(),
    {
        self.out3
    }

    /// The bus `out4`, to wire it on.
    pub fn get_out4(&self) -> (r: SharedBus<1>)
        ensures
            r == self.out4(),
    {
        self.out4
    }
}

} // verus!
