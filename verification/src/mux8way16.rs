//! The 8-way 16-bit multiplexer.
use vstd::prelude::*;
use crate::bit::{Bit, fill, pick8, lemma_bits_to_nat_2, lemma_bits_to_nat_3};
use crate::bus::{SharedBus, group_build, group_run};
use crate::gate::Gate;
use crate::mux::{Mux, lemma_mux_ports};
use crate::mux4way16::{Mux4Way16, lemma_mux4way16_ports};
use crate::wires::{Span, Wires, grown};

verus! {

/// `out` is the one of eight 16-bit inputs that the 3-bit selector names.
pub struct Mux8Way16 {
    pub out: SharedBus<16>,
    sel: SharedBus<3>,
    mux1: Mux4Way16,
    mux2: Mux4Way16,
    mux3: Mux<16>,
}

impl Mux8Way16 {
    #[verifier::spinoff_prover]
    pub fn new(
        a: SharedBus<16>,
        b: SharedBus<16>,
        c: SharedBus<16>,
        d: SharedBus<16>,
        e: SharedBus<16>,
        f: SharedBus<16>,
        g: SharedBus<16>,
        h: SharedBus<16>,
        sel: SharedBus<3>,
        wires: &mut Wires,
    ) -> (r: Mux8Way16)
        requires
            a.below(old(wires)@.len()),
            b.below(old(wires)@.len()),
            c.below(old(wires)@.len()),
            d.below(old(wires)@.len()),
            e.below(old(wires)@.len()),
            f.below(old(wires)@.len()),
            g.below(old(wires)@.len()),
            h.below(old(wires)@.len()),
            sel.below(old(wires)@.len()),
        ensures
            r.wired(),
            r.a() == a,
            r.b() == b,
            r.c() == c,
            r.d() == d,
            r.e() == e,
            r.f() == f,
            r.g() == g,
            r.h() == h,
            r.sel() == sel,
            r.span() == Span::added(*old(wires), *final(wires)),
            grown(*old(wires), *final(wires)),
            r.out().value(final(wires)@) == fill(16, Bit::O),
    {
        broadcast use {group_build, lemma_mux_ports, lemma_mux4way16_ports};

        let sel01 = sel.reconnect([0, 1]);
        let sel2 = sel.reconnect([2]);

        let mux1 = Mux4Way16::new(a, b, c, d, sel01, wires);
        let mux2 = Mux4Way16::new(e, f, g, h, sel01, wires);
        let mux3 = Mux::new(mux1.get_out(), mux2.get_out(), sel2, wires);
        let r = Mux8Way16 { out: mux3.get_out(), sel, mux1, mux2, mux3 };
        proof {
            reveal(Mux8Way16::wiring);
        }
        r
    }

    /// The parts are connected as a tree of multiplexers.
    #[verifier::opaque]
    pub closed spec fn wiring(&self) -> bool {
        &&& self.mux1.wired()
        &&& self.mux2.wired()
        &&& self.mux3.wired()
        &&& self.mux1.span().before(self.mux2.span())
        &&& self.mux2.span().before(self.mux3.span())
        &&& self.sel().below(self.mux1.span().lo)
        &&& self.e().below(self.mux1.span().lo)
        &&& self.f().below(self.mux1.span().lo)
        &&& self.g().below(self.mux1.span().lo)
        &&& self.h().below(self.mux1.span().lo)
        &&& self.mux3.sel().below(self.mux1.span().lo)
        &&& self.mux1.sel().0.bits[0] == self.sel().0.bits[0]
        &&& self.mux1.sel().0.bits[1] == self.sel().0.bits[1]
        &&& self.mux2.sel() == self.mux1.sel()
        &&& self.mux3.sel().0.bits[0] == self.sel().0.bits[2]
        &&& self.mux3.a() == self.mux1.out()
        &&& self.mux3.b() == self.mux2.out()
        &&& self.out() == self.mux3.out()
    }
}

impl Gate for Mux8Way16 {
    closed spec fn wired(&self) -> bool {
        self.wiring()
    }

    closed spec fn span(&self) -> Span {
        self.mux1.span().through(self.mux3.span())
    }

    open spec fn clocked(&self) -> bool {
        false
    }

    #[verifier::spinoff_prover]
    fn re_compute(&self, wires: &mut Wires)
        ensures
            self.out().value(final(wires)@) == pick8(
                self.a().value(old(wires)@),
                self.b().value(old(wires)@),
                self.c().value(old(wires)@),
                self.d().value(old(wires)@),
                self.e().value(old(wires)@),
                self.f().value(old(wires)@),
                self.g().value(old(wires)@),
                self.h().value(old(wires)@),
                self.sel().word(old(wires)@),
            ),
    {
        broadcast use {group_run, lemma_mux_ports, lemma_mux4way16_ports};

        proof {
            reveal(Mux8Way16::wiring);
            let s = self.sel().value(old(wires)@);
            let s01 = self.mux1.sel().value(old(wires)@);
            lemma_bits_to_nat_3(s);
            lemma_bits_to_nat_2(s01);
            assert(s01[0] == s[0]);
            assert(s01[1] == s[1]);
            assert(self.mux3.sel().value(old(wires)@)[0] == s[2]);
        }
        self.mux1.re_compute(wires);
        self.mux2.re_compute(wires);
        self.mux3.re_compute(wires);
    }
}

/// What a caller may rely on of a wired 8-way multiplexer.
pub broadcast proof fn lemma_mux8way16_ports(g: Mux8Way16)
    requires
        #[trigger] g.wired(),
    ensures
        g.span().lo <= g.span().hi,
        g.span().wlo <= g.span().whi,
        g.out().within(g.span().lo, g.span().hi),
        g.a().below(g.span().lo),
        g.b().below(g.span().lo),
        g.c().below(g.span().lo),
        g.d().below(g.span().lo),
        g.e().below(g.span().lo),
        g.f().below(g.span().lo),
        g.g().below(g.span().lo),
        g.h().below(g.span().lo),
        g.sel().below(g.span().lo),
{
    broadcast use {lemma_mux_ports, lemma_mux4way16_ports};

    reveal(Mux8Way16::wiring);
}

impl Mux8Way16 {
    /// The input bus `sel`.
    pub closed spec fn sel(&self) -> SharedBus<3> {
        self.sel
    }

    /// The output bus `out`.
    pub closed spec fn out(&self) -> SharedBus<16> {
        self.out
    }

    /// The input bus `a`.
    pub closed spec fn a(&self) -> SharedBus<16> {
        self.mux1.a()
    }

    /// The input bus `b`.
    pub closed spec fn b(&self) -> SharedBus<16> {
        self.mux1.b()
    }

    /// The input bus `c`.
    pub closed spec fn c(&self) -> SharedBus<16> {
        self.mux1.c()
    }

    /// The input bus `d`.
    pub closed spec fn d(&self) -> SharedBus<16> {
        self.mux1.d()
    }

    /// The input bus `e`.
    pub closed spec fn e(&self) -> SharedBus<16> {
        self.mux2.a()
    }

    /// The input bus `f`.
    pub closed spec fn f(&self) -> SharedBus<16> {
        self.mux2.b()
    }

    /// The input bus `g`.
    pub closed spec fn g(&self) -> SharedBus<16> {
        self.mux2.c()
    }

    /// The input bus `h`.
    pub closed spec fn h(&self) -> SharedBus<16> {
        self.mux2.d()
    }

    /// The bus `out`, to wire it on.
    pub fn get_out(&self) -> (r: SharedBus<16>)
        ensures
            r == self.out(),
    {
        self.out
    }
}

} // verus!
