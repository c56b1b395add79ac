//! The data memory: main memory, screen and keyboard behind one address.
use vstd::prelude::*;
use vstd::arithmetic::power2::{pow2, lemma2_to64};
use crate::bit::{
    Bit, bits_to_nat, fill, lemma_bits_to_nat_1, lemma_bits_to_nat_2, lemma_bits_to_nat_bound,
    lemma_bits_to_nat_split,
};
use crate::builtin::{
    KeyboardBuiltIn, RAM16KBuiltIn, ScreenBuiltIn, lemma_keyboard_ports, lemma_ram16k_builtin_ports,
    lemma_screen_builtin_ports,
};
use crate::bus::{SharedBus, group_build, group_run};
use crate::dmux4way::{DMux4Way, lemma_dmux4way_ports};
use crate::gate::Gate;
use crate::mux4way16::{Mux4Way16, lemma_mux4way16_ports};
use crate::or::{Or, lemma_or_ports};
use crate::wires::{Span, Wires, framed, grown};

verus! {

/// The 15-bit address space: 0 to 16383 is main memory, 16384 to 24575 the
/// screen, and from 24576 on the keyboard, which cannot be written.
pub struct MemoryBuiltIn {
    pub out: SharedBus<16>,
    address: SharedBus<15>,
    dmux4way: DMux4Way,
    or: Or<1>,
    ram16k: RAM16KBuiltIn,
    screen: ScreenBuiltIn,
    keyboard: KeyboardBuiltIn,
    mux4way16: Mux4Way16,
}

impl MemoryBuiltIn {
    #[verifier::spinoff_prover]
    pub fn new(input: SharedBus<16>, load: SharedBus<1>, address: SharedBus<15>, wires: &mut Wires) -> (r:
        MemoryBuiltIn)
        requires
            input.below(old(wires)@.len()),
            load.below(old(wires)@.len()),
            address.below(old(wires)@.len()),
        ensures
            r.wired(),
            r.input() == input,
            r.load() == load,
            r.address() == address,
            r.span() == Span::added(*old(wires), *final(wires)),
            grown(*old(wires), *final(wires)),
            r.ram(*final(wires)) == Seq::new(16384, |i: int| 0u16),
            r.screen(*final(wires)) == Seq::new(8192, |i: int| 0u16),
            r.keys(final(wires)@) == 0,
            r.out().value(final(wires)@) == fill(16, Bit::O),
    {
        broadcast use {
            group_build,
            lemma_dmux4way_ports,
            lemma_or_ports,
            lemma_ram16k_builtin_ports,
            lemma_screen_builtin_ports,
            lemma_keyboard_ports,
            lemma_mux4way16_ports,
        };

        let sel = address.reconnect([13, 14]);
        let dmux4way = DMux4Way::new(load, sel, wires);
        let or = Or::new(dmux4way.get_out1(), dmux4way.get_out2(), wires);
        let ram16k = RAM16KBuiltIn::new(
            input,
            or.get_out(),
            address.reconnect([0, 1, 2, 3, 4, 5, 6, 7, 8, 9, 10, 11, 12, 13]),
            wires,
        );
        let ghost w1 = *wires;
        let screen = ScreenBuiltIn::new(
            input,
            dmux4way.get_out3(),
            address.reconnect([0, 1, 2, 3, 4, 5, 6, 7, 8, 9, 10, 11, 12]),
            wires,
        );
        let ghost w2 = *wires;
        let keyboard = KeyboardBuiltIn::new(wires);
        let ghost w3 = *wires;
        let mux4way16 = Mux4Way16::new(
            ram16k.get_out(),
            ram16k.get_out(),
            screen.get_out(),
            keyboard.get_out(),
            sel,
            wires,
        );
        proof {
            ram16k.lemma_grown(w1, *wires);
            screen.lemma_grown(w2, *wires);
            crate::bit::lemma_zeros_value(16);
        }
        MemoryBuiltIn { out: mux4way16.get_out(), address, dmux4way, or, ram16k, screen, keyboard, mux4way16 }
    }

    /// The parts are connected as the data memory.
    pub closed spec fn wiring(&self) -> bool {
        &&& self.dmux4way.wired()
        &&& self.or.wired()
        &&& self.ram16k.wired()
        &&& self.screen.wired()
        &&& self.keyboard.wired()
        &&& self.mux4way16.wired()
        &&& self.dmux4way.span().before(self.or.span())
        &&& self.or.span().before(self.ram16k.span())
        &&& self.ram16k.span().before(self.screen.span())
        &&& self.screen.span().before(self.keyboard.span())
        &&& self.keyboard.span().before(self.mux4way16.span())
        &&& self.address.below(self.dmux4way.span().lo)
        &&& self.ram16k.input().below(self.dmux4way.span().lo)
        &&& self.ram16k.address().below(self.dmux4way.span().lo)
        &&& self.screen.address().below(self.dmux4way.span().lo)
        &&& self.dmux4way.sel().0.bits[0] == self.address.0.bits[13]
        &&& self.dmux4way.sel().0.bits[1] == self.address.0.bits[14]
        &&& forall|j: int| 0 <= j < 14 ==> #[trigger] self.ram16k.address().0.bits[j] == self.address.0.bits[j]
        &&& forall|j: int| 0 <= j < 13 ==> #[trigger] self.screen.address().0.bits[j] == self.address.0.bits[j]
        &&& self.or.a() == self.dmux4way.out1()
        &&& self.or.b() == self.dmux4way.out2()
        &&& self.ram16k.load() == self.or.out()
        &&& self.screen.input() == self.ram16k.input()
        &&& self.screen.load() == self.dmux4way.out3()
        &&& self.mux4way16.a() == self.ram16k.out()
        &&& self.mux4way16.b() == self.ram16k.out()
        &&& self.mux4way16.c() == self.screen.out()
        &&& self.mux4way16.d() == self.keyboard.out()
        &&& self.mux4way16.sel() == self.dmux4way.sel()
        &&& self.out == self.mux4way16.out()
    }

    /// The input bus `input`.
    pub closed spec fn input(&self) -> SharedBus<16> {
        self.ram16k.input()
    }

    /// The input bus `load`.
    pub closed spec fn load(&self) -> SharedBus<1> {
        self.dmux4way.input()
    }

    /// The input bus `address`.
    pub closed spec fn address(&self) -> SharedBus<15> {
        self.address
    }

    /// The output bus `out`.
    pub closed spec fn out(&self) -> SharedBus<16> {
        self.out
    }

    /// The bus `out`, to wire it on.
    pub fn get_out(&self) -> (r: SharedBus<16>)
        ensures
            r == self.out(),
    {
        self.out
    }

    /// The 16384 words of main memory.
    pub closed spec fn ram(&self, w: Wires) -> Seq<u16> {
        self.ram16k.contents(w)
    }

    /// The 8192 words of the screen.
    pub closed spec fn screen(&self, w: Wires) -> Seq<u16> {
        self.screen.contents(w)
    }

    /// The number on the keyboard's wires.
    pub closed spec fn keys(&self, w: Seq<Bit>) -> nat {
        self.keyboard.out().word(w)
    }

    /// The word that main memory sampled at the last rising edge.
    pub closed spec fn ram_latch(&self, w: Wires) -> u16 {
        self.ram16k.latch(w)
    }

    /// The word that the screen sampled at the last rising edge.
    pub closed spec fn screen_latch(&self, w: Wires) -> u16 {
        self.screen.latch(w)
    }

    /// The wire that tells main memory to take a word at the clock.
    pub closed spec fn ram_load(&self) -> SharedBus<1> {
        self.or.out()
    }

    /// The wire that tells the screen to take a word at the clock.
    pub closed spec fn screen_load(&self) -> SharedBus<1> {
        self.dmux4way.out3()
    }

    /// The word at the address on the bus.
    pub open spec fn word_at(&self, w: Wires) -> nat {
        let a = self.address().word(w@);
        if a < 16384 {
            self.ram(w)[a as int] as nat
        } else if a < 24576 {
            self.screen(w)[a - 16384] as nat
        } else {
            self.keys(w@)
        }
    }

    /// What `re_compute` does: `out` shows the word at the address, and the
    /// two load wires say which part, if any, the clock will write.
    pub open spec fn settled(&self, pre: Wires, post: Wires) -> bool {
        let a = self.address().word(pre@);
        let load = self.load().value(pre@)[0];
        &&& framed(pre, post, self.span())
        &&& post.mem() == pre.mem()
        &&& a < 32768
        &&& self.out().word(post@) == self.word_at(pre)
        &&& self.ram_load().value(post@)[0] == (if load == Bit::I && a < 16384 {
            Bit::I
        } else {
            Bit::O
        })
        &&& self.screen_load().value(post@)[0] == (if load == Bit::I && 16384 <= a < 24576 {
            Bit::I
        } else {
            Bit::O
        })
        &&& self.keys(post@) == self.keys(pre@)
    }

    /// What a rising edge does: the part that its load wire names samples
    /// the number on `input`. No wire and no word changes.
    pub open spec fn sampled(&self, pre: Wires, post: Wires) -> bool {
        &&& framed(pre, post, self.span())
        &&& post@ == pre@
        &&& self.ram(post) == self.ram(pre)
        &&& self.screen(post) == self.screen(pre)
        &&& self.ram_latch(post) == (if self.ram_load().value(pre@)[0] == Bit::I {
            self.input().word(pre@) as u16
        } else {
            self.ram_latch(pre)
        })
        &&& self.screen_latch(post) == (if self.screen_load().value(pre@)[0] == Bit::I {
            self.input().word(pre@) as u16
        } else {
            self.screen_latch(pre)
        })
    }

    /// What a falling edge does: the part that its load wire names writes
    /// the sampled word at the address. No wire changes.
    pub open spec fn published(&self, pre: Wires, post: Wires) -> bool {
        let a = self.address().word(pre@);
        &&& framed(pre, post, self.span())
        &&& post@ == pre@
        &&& self.ram_latch(post) == self.ram_latch(pre)
        &&& self.screen_latch(post) == self.screen_latch(pre)
        &&& self.ram(post) == (if self.ram_load().value(pre@)[0] == Bit::I {
            self.ram(pre).update((a % 16384) as int, self.ram_latch(pre))
        } else {
            self.ram(pre)
        })
        &&& self.screen(post) == (if self.screen_load().value(pre@)[0] == Bit::I {
            self.screen(pre).update((a % 8192) as int, self.screen_latch(pre))
        } else {
            self.screen(pre)
        })
    }

    /// How the address splits into the selector and the two part addresses.
    proof fn lemma_decode(&self, w: Seq<Bit>)
        requires
            self.wired(),
        ensures
            self.address.word(w) < 32768,
            self.dmux4way.sel().word(w) == self.address.word(w) / 8192,
            self.ram16k.address().word(w) == self.address.word(w) % 16384,
            self.screen.address().word(w) == self.address.word(w) % 8192,
    {
        let s = self.address.value(w);
        let low14 = self.ram16k.address().value(w);
        let low13 = self.screen.address().value(w);
        let sel = self.dmux4way.sel().value(w);
        assert(low14 =~= s.take(14));
        assert(low13 =~= s.take(13));
        assert(sel =~= s.skip(13));
        assert(low14.take(13) =~= low13);
        lemma2_to64();
        lemma_bits_to_nat_split(s, 13);
        lemma_bits_to_nat_split(s, 14);
        lemma_bits_to_nat_bound(low13);
        lemma_bits_to_nat_bound(low14);
        lemma_bits_to_nat_bound(sel);
        lemma_bits_to_nat_bound(s.skip(14));
        lemma_bits_to_nat_bound(s);
        let a = bits_to_nat(s) as int;
        let l13 = bits_to_nat(low13) as int;
        let l14 = bits_to_nat(low14) as int;
        let q = bits_to_nat(sel) as int;
        let h = bits_to_nat(s.skip(14)) as int;
        assert(a == q * 8192 + l13) by (nonlinear_arith)
            requires
                a == l13 + pow2(13) * q,
                pow2(13) == 8192,
        ;
        assert(a == h * 16384 + l14) by (nonlinear_arith)
            requires
                a == l14 + pow2(14) * h,
                pow2(14) == 16384,
        ;
        vstd::arithmetic::div_mod::lemma_fundamental_div_mod_converse(a, 8192, q, l13);
        vstd::arithmetic::div_mod::lemma_fundamental_div_mod_converse(a, 16384, h, l14);
    }

    /// The words and the latches depend on the memory words of the store
    /// alone.
    pub proof fn lemma_same_mem(&self, pre: Wires, post: Wires)
        requires
            post.mem() == pre.mem(),
        ensures
            self.ram(post) == self.ram(pre),
            self.screen(post) == self.screen(pre),
            self.ram_latch(post) == self.ram_latch(pre),
            self.screen_latch(post) == self.screen_latch(pre),
    {
        self.ram16k.lemma_same_mem(pre, post);
        self.screen.lemma_same_mem(pre, post);
    }

    /// A change of the wires outside the memory does not show on the
    /// keyboard.
    pub proof fn lemma_keys_apart(&self, pre: Wires, post: Wires, span: Span)
        requires
            self.wired(),
            self.span().fits(pre),
            framed(pre, post, span),
            span.hi <= self.span().lo || self.span().hi <= span.lo,
        ensures
            self.keys(post@) == self.keys(pre@),
    {
        broadcast use {
            group_run,
            lemma_dmux4way_ports,
            lemma_or_ports,
            lemma_ram16k_builtin_ports,
            lemma_screen_builtin_ports,
            lemma_keyboard_ports,
            lemma_mux4way16_ports,
        };

    }

    /// Word `address` of main memory.
    pub fn peek_ram(&self, address: usize, wires: &Wires) -> (word: u16)
        requires
            self.wired(),
            self.span().fits(*wires),
            address < 16384,
        ensures
            word == self.ram(*wires)[address as int],
    {
        broadcast use {
            lemma_dmux4way_ports,
            lemma_or_ports,
            lemma_ram16k_builtin_ports,
            lemma_screen_builtin_ports,
            lemma_keyboard_ports,
            lemma_mux4way16_ports,
        };

        self.ram16k.peek(address, wires)
    }
}

impl Gate for MemoryBuiltIn {
    closed spec fn wired(&self) -> bool {
        self.wiring()
    }

    closed spec fn span(&self) -> Span {
        self.dmux4way.span().through(self.mux4way16.span())
    }

    open spec fn clocked(&self) -> bool {
        true
    }

    #[verifier::spinoff_prover]
    fn clock_up(&self, wires: &mut Wires)
        ensures
            self.sampled(*old(wires), *final(wires)),
    {
        broadcast use {
            group_run,
            lemma_dmux4way_ports,
            lemma_or_ports,
            lemma_ram16k_builtin_ports,
            lemma_screen_builtin_ports,
            lemma_keyboard_ports,
            lemma_mux4way16_ports,
        };

        let ghost w0 = *wires;
        self.ram16k.clock_up(wires);
        let ghost w1 = *wires;
        self.screen.clock_up(wires);
        proof {
            self.ram16k.lemma_apart(w1, *wires, self.screen.span());
            self.screen.lemma_apart(w0, w1, self.ram16k.span());
        }
    }

    #[verifier::spinoff_prover]
    fn clock_down(&self, wires: &mut Wires)
        ensures
            self.published(*old(wires), *final(wires)),
    {
        broadcast use {
            group_run,
            lemma_dmux4way_ports,
            lemma_or_ports,
            lemma_ram16k_builtin_ports,
            lemma_screen_builtin_ports,
            lemma_keyboard_ports,
            lemma_mux4way16_ports,
        };

        let ghost w0 = *wires;
        proof {
            self.lemma_decode(w0@);
        }
        self.ram16k.clock_down(wires);
        let ghost w1 = *wires;
        self.screen.clock_down(wires);
        proof {
            self.ram16k.lemma_apart(w1, *wires, self.screen.span());
            self.screen.lemma_apart(w0, w1, self.ram16k.span());
        }
    }

    #[verifier::spinoff_prover]
    fn re_compute(&self, wires: &mut Wires)
        ensures
            self.settled(*old(wires), *final(wires)),
    {
        broadcast use {
            group_run,
            lemma_dmux4way_ports,
            lemma_or_ports,
            lemma_ram16k_builtin_ports,
            lemma_screen_builtin_ports,
            lemma_keyboard_ports,
            lemma_mux4way16_ports,
        };

        let ghost w0 = *wires;
        proof {
            self.lemma_decode(w0@);
            lemma_bits_to_nat_1(self.load().value(w0@));
        }
        self.dmux4way.re_compute(wires);
        self.or.re_compute(wires);
        let ghost w2 = *wires;
        self.ram16k.re_compute(wires);
        let ghost w3 = *wires;
        self.screen.re_compute(wires);
        self.keyboard.re_compute(wires);
        self.mux4way16.re_compute(wires);
        proof {
            self.ram16k.lemma_same_mem(w0, w2);
            self.screen.lemma_same_mem(w0, w3);
            lemma_bits_to_nat_2(self.dmux4way.sel().value(w0@));
        }
    }
}

/// What a caller may rely on of a wired data memory.
pub broadcast proof fn lemma_memory_ports(g: MemoryBuiltIn)
    requires
        #[trigger] g.wired(),
    ensures
        g.span().lo <= g.span().hi,
        g.span().wlo <= g.span().whi,
        g.out().within(g.span().lo, g.span().hi),
        g.ram_load().within(g.span().lo, g.span().hi),
        g.screen_load().within(g.span().lo, g.span().hi),
        g.input().below(g.span().lo),
        g.load().below(g.span().lo),
        g.address().below(g.span().lo),
{
    broadcast use {
        lemma_dmux4way_ports,
        lemma_or_ports,
        lemma_ram16k_builtin_ports,
        lemma_screen_builtin_ports,
        lemma_keyboard_ports,
        lemma_mux4way16_ports,
    };

}

} // verus!
