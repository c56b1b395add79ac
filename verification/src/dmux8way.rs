//! The 8-way demultiplexer.
use vstd::prelude::*;
use crate::bit::{Bit, fill, route, lemma_bits_to_nat_1, lemma_bits_to_nat_3};
use crate::bus::{SharedBus, group_build, group_run};
use crate::gate::Gate;
use crate::dmux::{DMux, lemma_dmux_ports};
use crate::wires::{Span, Wires, grown};

verus! {

/// Sends `input` to the one of eight outputs that the 3-bit selector names;
/// the others carry `O`.
pub struct DMux8Way {
    pub out1: SharedBus<1>,
    pub out2: SharedBus<1>,
    pub out3: SharedBus<1>,
    pub out4: SharedBus<1>,
    pub out5: SharedBus<1>,
    pub out6: SharedBus<1>,
    pub out7: SharedBus<1>,
    pub out8: SharedBus<1>,
    sel: SharedBus<3>,
    dmux1: DMux,
    dmux2: DMux,
    dmux3: DMux,
    dmux4: DMux,
    dmux5: DMux,
    dmux6: DMux,
    dmux7: DMux,
}

impl DMux8Way {
    #[verifier::spinoff_prover]
    pub fn new(input: SharedBus<1>, sel: SharedBus<3>, wires: &mut Wires) -> (r: DMux8Way)
        requires
            input.below(old(wires)@.len()),
            sel.below(old(wires)@.len()),
        ensures
            r.wired(),
            r.input() == input,
            r.sel() == sel,
            r.span() == Span::added(*old(wires), *final(wires)),
            grown(*old(wires), *final(wires)),
            r.out1().value(final(wires)@) == fill(1, Bit::O),
            r.out2().value(final(wires)@) == fill(1, Bit::O),
            r.out3().value(final(wires)@) == fill(1, Bit::O),
            r.out4().value(final(wires)@) == fill(1, Bit::O),
            r.out5().value(final(wires)@) == fill(1, Bit::O),
            r.out6().value(final(wires)@) == fill(1, Bit::O),
            r.out7().value(final(wires)@) == fill(1, Bit::O),
            r.out8().value(final(wires)@) == fill(1, Bit::O),
    {
        broadcast use {group_build, lemma_dmux_ports};

        let sel0 = sel.reconnect([0]);
        let sel1 = sel.reconnect([1]);
        let sel2 = sel.reconnect([2]);

        let dmux1 = DMux::new(input, sel2, wires);

        let dmux2 = DMux::new(dmux1.get_out1(), sel1, wires);
        let dmux3 = DMux::new(dmux1.get_out2(), sel1, wires);

        let dmux4 = DMux::new(dmux2.get_out1(), sel0, wires);
        let dmux5 = DMux::new(dmux2.get_out2(), sel0, wires);
        let dmux6 = DMux::new(dmux3.get_out1(), sel0, wires);
        let dmux7 = DMux::new(dmux3.get_out2(), sel0, wires);
        let r = DMux8Way {
            out1: dmux4.get_out1(),
            out2: dmux4.get_out2(),
            out3: dmux5.get_out1(),
            out4: dmux5.get_out2(),
            out5: dmux6.get_out1(),
            out6: dmux6.get_out2(),
            out7: dmux7.get_out1(),
            out8: dmux7.get_out2(),
            sel,
            dmux1,
            dmux2,
            dmux3,
            dmux4,
            dmux5,
            dmux6,
            dmux7,
        };
        proof {
            reveal(DMux8Way::wiring);
        }
        r
    }

    /// The parts are connected as a tree of demultiplexers.
    #[verifier::opaque]
    pub closed spec fn wiring(&self) -> bool {
        &&& self.dmux1.wired()
        &&& self.dmux2.wired()
        &&& self.dmux3.wired()
        &&& self.dmux4.wired()
        &&& self.dmux5.wired()
        &&& self.dmux6.wired()
        &&& self.dmux7.wired()
        &&& self.dmux1.span().before(self.dmux2.span())
        &&& self.dmux2.span().before(self.dmux3.span())
        &&& self.dmux3.span().before(self.dmux4.span())
        &&& self.dmux4.span().before(self.dmux5.span())
        &&& self.dmux5.span().before(self.dmux6.span())
        &&& self.dmux6.span().before(self.dmux7.span())
        &&& self.sel().below(self.dmux1.span().lo)
        &&& self.dmux2.sel().below(self.dmux1.span().lo)
        &&& self.dmux4.sel().below(self.dmux1.span().lo)
        &&& self.dmux1.sel().0.bits[0] == self.sel().0.bits[2]
        &&& self.dmux2.sel().0.bits[0] == self.sel().0.bits[1]
        &&& self.dmux3.sel() == self.dmux2.sel()
        &&& self.dmux4.sel().0.bits[0] == self.sel().0.bits[0]
        &&& self.dmux5.sel() == self.dmux4.sel()
        &&& self.dmux6.sel() == self.dmux4.sel()
        &&& self.dmux7.sel() == self.dmux4.sel()
        &&& self.dmux2.input() == self.dmux1.out1()
        &&& self.dmux3.input() == self.dmux1.out2()
        &&& self.dmux4.input() == self.dmux2.out1()
        &&& self.dmux5.input() == self.dmux2.out2()
        &&& self.dmux6.input() == self.dmux3.out1()
        &&& self.dmux7.input() == self.dmux3.out2()
        &&& self.out1() == self.dmux4.out1()
        &&& self.out2() == self.dmux4.out2()
        &&& self.out3() == self.dmux5.out1()
        &&& self.out4() == self.dmux5.out2()
        &&& self.out5() == self.dmux6.out1()
        &&& self.out6() == self.dmux6.out2()
        &&& self.out7() == self.dmux7.out1()
        &&& self.out8() == self.dmux7.out2()
    }

    /// The input bus `input`.
    pub closed spec fn input(&self) -> SharedBus<1> {
        self.dmux1.input()
    }

    /// Output number `k`, counted from 0; the last for any `k` above 6.
    pub fn output(&self, k: usize) -> (r: SharedBus<1>)
        ensures
            r == self.out(k as int),
    {
        if k == 0 {
            self.out1
        } else if k == 1 {
            self.out2
        } else if k == 2 {
            self.out3
        } else if k == 3 {
            self.out4
        } else if k == 4 {
            self.out5
        } else if k == 5 {
            self.out6
        } else if k == 6 {
            self.out7
        } else {
            self.out8
        }
    }

    /// Output number `k`, counted from 0.
    pub closed spec fn out(&self, k: int) -> SharedBus<1> {
        if k == 0 {
            self.out1()
        } else if k == 1 {
            self.out2()
        } else if k == 2 {
            self.out3()
        } else if k == 3 {
            self.out4()
        } else if k == 4 {
            self.out5()
        } else if k == 5 {
            self.out6()
        } else if k == 6 {
            self.out7()
        } else {
            self.out8()
        }
    }
}

impl Gate for DMux8Way {
    closed spec fn wired(&self) -> bool {
        self.wiring()
    }

    closed spec fn span(&self) -> Span {
        self.dmux1.span().through(self.dmux7.span())
    }

    open spec fn clocked(&self) -> bool {
        false
    }

    #[verifier::spinoff_prover]
    fn re_compute(&self, wires: &mut Wires)
        ensures
            forall|k: int|
                0 <= k < 8 ==> (#[trigger] self.out(k)).value(final(wires)@) == route(
                    self.input().value(old(wires)@),
                    self.sel().word(old(wires)@),
                    k as nat,
                ),
    {
        broadcast use {group_run, lemma_dmux_ports};

        proof {
            reveal(DMux8Way::wiring);
            let s = self.sel().value(old(wires)@);
            lemma_bits_to_nat_3(s);
            lemma_bits_to_nat_1(self.dmux1.sel().value(old(wires)@));
            lemma_bits_to_nat_1(self.dmux2.sel().value(old(wires)@));
            lemma_bits_to_nat_1(self.dmux4.sel().value(old(wires)@));
            assert(self.dmux1.sel().value(old(wires)@)[0] == s[2]);
            assert(self.dmux2.sel().value(old(wires)@)[0] == s[1]);
            assert(self.dmux4.sel().value(old(wires)@)[0] == s[0]);
        }
        self.dmux1.re_compute(wires);
        self.dmux2.re_compute(wires);
        self.dmux3.re_compute(wires);
        self.dmux4.re_compute(wires);
        self.dmux5.re_compute(wires);
        self.dmux6.re_compute(wires);
        self.dmux7.re_compute(wires);
    }
}

/// What a caller may rely on of a wired 8-way demultiplexer.
pub broadcast proof fn lemma_dmux8way_ports(g: DMux8Way)
    requires
        #[trigger] g.wired(),
    ensures
        g.span().lo <= g.span().hi,
        g.span().wlo <= g.span().whi,
        forall|k: int| 0 <= k < 8 ==> (#[trigger] g.out(k)).within(g.span().lo, g.span().hi),
        g.input().below(g.span().lo),
        g.sel().below(g.span().lo),
{
    broadcast use {lemma_dmux_ports};

    reveal(DMux8Way::wiring);
}

impl DMux8Way {
    /// The input bus `sel`.
    pub closed spec fn sel(&self) -> SharedBus<3> {
        self.sel
    }

    /// The output bus `out1`.
    pub closed spec fn out1(&self) -> SharedBus<1> {
        self.out1
    }

    /// The output bus `out2`.
    pub closed spec fn out2(&self) -> SharedBus<1> {
        self.out2
    }

    /// The output bus `out3`.
    pub closed spec fn out3(&self) -> SharedBus<1> {
        self.out3
    }

    /// The output bus `out4`.
    pub closed spec fn out4(&self) -> SharedBus<1> {
        self.out4
    }

    /// The output bus `out5`.
    pub closed spec fn out5(&self) -> SharedBus<1> {
        self.out5
    }

    /// The output bus `out6`.
    pub closed spec fn out6(&self) -> SharedBus<1> {
        self.out6
    }

    /// The output bus `out7`.
    pub closed spec fn out7(&self) -> SharedBus<1> {
        self.out7
    }

    /// The output bus `out8`.
    pub closed spec fn out8(&self) -> SharedBus<1> {
        self.out8
    }

    /// The bus `out1`, to wire it on.
    pub fn get_out1(&self) -> (r: SharedBus<1>)
        ensures
            r == self.out1(),
    {
        self.out1
    }

    /// The bus `out2`, to wire it on.
    pub fn get_out2(&self) -> (r: SharedBus<1>)
        ensures
            r == self.out2(),
    {
        self.out2
    }

    /// The bus `out3`, to wire it on.
    pub fn get_out3(&self) -> (r: SharedBus<1>)
        ensures
            r == self.out3(),
    {
        self.out3
    }

    /// The bus `out4`, to wire it on.
    pub fn get_out4(&self) -> (r: SharedBus<1>)
        ensures
            r == self.out4(),
    {
        self.out4
    }

    /// The bus `out5`, to wire it on.
    pub fn get_out5(&self) -> (r: SharedBus<1>)
        ensures
            r == self.out5(),
    {
        self.out5
    }

    /// The bus `out6`, to wire it on.
    pub fn get_out6(&self) -> (r: SharedBus<1>)
        ensures
            r == self.out6(),
    {
        self.out6
    }

    /// The bus `out7`, to wire it on.
    pub fn get_out7(&self) -> (r: SharedBus<1>)
        ensures
            r == self.out7(),
    {
        self.out7
    }

    /// The bus `out8`, to wire it on.
    pub fn get_out8(&self) -> (r: SharedBus<1>)
        ensures
            r == self.out8(),
    {
        self.out8
    }
}

} // verus!
