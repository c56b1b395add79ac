//! Memories that keep their words in an array instead of in gates: the
//! main memory, the screen, the keyboard and the program memory.
use vstd::prelude::*;
use vstd::arithmetic::power2::lemma2_to64;
use crate::bit::{Bit, fill, nat_bits, lemma_bits_to_nat_bound};
use crate::bus::{Bus, SharedBus, group_build, group_run};
use crate::gate::Gate;
use crate::wires::{Span, Wires, framed, grown};

verus! {

/// Main memory of 16384 words.
///
/// The words are memory words of the store; one more word, the latch,
/// holds the value that a rising edge sampled until the falling edge
/// writes it.
pub struct RAM16KBuiltIn {
    pub out: SharedBus<16>,
    input: SharedBus<16>,
    load: SharedBus<1>,
    address: SharedBus<14>,
    base: usize,
    span: Ghost<Span>,
}

impl RAM16KBuiltIn {
    pub fn new(input: SharedBus<16>, load: SharedBus<1>, address: SharedBus<14>, wires: &mut Wires) -> (r:
        RAM16KBuiltIn)
        requires
            input.below(old(wires)@.len()),
            load.below(old(wires)@.len()),
            address.below(old(wires)@.len()),
        ensures
            r.wired(),
            r.input() == input,
            r.load() == load,
            r.address() == address,
            r.span() == Span::added(*old(wires), *final(wires)),
            grown(*old(wires), *final(wires)),
            r.contents(*final(wires)) == Seq::new(16384, |i: int| 0u16),
            r.latch(*final(wires)) == 0,
            r.out().value(final(wires)@) == fill(16, Bit::O),
    {
        broadcast use group_build;

        let ghost w0 = *wires;
        let out = Bus::<16>::all0(wires).to_shared_bus();
        let ghost w1 = *wires;
        let base = wires.mem_len();
        let mut i: usize = 0;
        proof {
            reveal(grown);
        }
        while i < 16384 + 1
            invariant
                i <= 16384 + 1,
                wires@ == w1@,
                wires.mem().len() == base + i,
                base == w1.mem().len(),
                forall|k: int| 0 <= k < base ==> wires.mem()[k] == w1.mem()[k],
                forall|k: int| base <= k < base + i ==> wires.mem()[k] == 0,
            decreases 16384 + 1 - i,
        {
            wires.add_word(0);
            i += 1;
        }
        let r = RAM16KBuiltIn { out, input, load, address, base, span: Ghost(Span::added(w0, *wires)) };
        proof {
            assert(r.contents(*wires) =~= Seq::new(16384, |i: int| 0u16));
            assert(out.value(wires@) =~= fill(16, Bit::O));
        }
        r
    }

    /// The input bus `input`.
    pub closed spec fn input(&self) -> SharedBus<16> {
        self.input
    }

    /// The input bus `load`.
    pub closed spec fn load(&self) -> SharedBus<1> {
        self.load
    }

    /// The input bus `address`.
    pub closed spec fn address(&self) -> SharedBus<14> {
        self.address
    }

    /// The output bus `out`.
    pub closed spec fn out(&self) -> SharedBus<16> {
        self.out
    }

    /// The bus `out`, to wire it on.
    pub fn get_out(&self) -> (r: SharedBus<16>)
        ensures
            r == self.out(),
    {
        self.out
    }

    /// The 16384 words, by address.
    pub closed spec fn contents(&self, w: Wires) -> Seq<u16> {
        w.mem().subrange(self.base as int, self.base + 16384)
    }

    /// The word that the last rising edge sampled.
    pub closed spec fn latch(&self, w: Wires) -> u16 {
        w.mem()[self.base + 16384]
    }

    /// What `re_compute` does: `out` shows the word at the address.
    pub open spec fn settled(&self, pre: Wires, post: Wires) -> bool {
        &&& framed(pre, post, self.span())
        &&& post.mem() == pre.mem()
        &&& self.address().word(pre@) < 16384
        &&& self.out().value(post@) == nat_bits(16, self.contents(pre)[self.address().word(pre@) as int] as nat)
        &&& self.out().word(post@) == self.contents(pre)[self.address().word(pre@) as int]
    }

    /// What a rising edge does: where `load` is `I`, the latch takes the
    /// number on `input`. No wire changes.
    pub open spec fn sampled(&self, pre: Wires, post: Wires) -> bool {
        &&& framed(pre, post, self.span())
        &&& post@ == pre@
        &&& self.contents(post) == self.contents(pre)
        &&& self.latch(post) == (if self.load().value(pre@)[0] == Bit::I {
            self.input().word(pre@) as u16
        } else {
            self.latch(pre)
        })
    }

    /// What a falling edge does: where `load` is `I`, the word at the
    /// address takes the value of the latch. No wire changes.
    pub open spec fn published(&self, pre: Wires, post: Wires) -> bool {
        &&& framed(pre, post, self.span())
        &&& post@ == pre@
        &&& self.latch(post) == self.latch(pre)
        &&& self.address().word(pre@) < 16384
        &&& self.contents(post) == (if self.load().value(pre@)[0] == Bit::I {
            self.contents(pre).update(self.address().word(pre@) as int, self.latch(pre))
        } else {
            self.contents(pre)
        })
    }

    /// A change of the store outside the memory does not show in it.
    pub proof fn lemma_apart(&self, pre: Wires, post: Wires, span: Span)
        requires
            self.wired(),
            self.span().fits(pre),
            framed(pre, post, span),
            span.whi <= self.span().wlo || self.span().whi <= span.wlo,
        ensures
            self.contents(post) == self.contents(pre),
            self.latch(post) == self.latch(pre),
    {
        assert(self.contents(post) =~= self.contents(pre));
    }

    /// The words depend on the memory words of the store alone.
    pub proof fn lemma_same_mem(&self, pre: Wires, post: Wires)
        requires
            post.mem() == pre.mem(),
        ensures
            self.contents(post) == self.contents(pre),
            self.latch(post) == self.latch(pre),
    {
    }

    /// Cells added to the store do not show in the memory.
    pub proof fn lemma_grown(&self, pre: Wires, post: Wires)
        requires
            self.wired(),
            self.span().fits(pre),
            grown(pre, post),
        ensures
            self.contents(post) == self.contents(pre),
            self.latch(post) == self.latch(pre),
    {
        reveal(grown);
        assert(self.contents(post) =~= self.contents(pre));
    }

    /// The word at `address`.
    pub fn peek(&self, address: usize, wires: &Wires) -> (word: u16)
        requires
            self.wired(),
            self.span().fits(*wires),
            address < 16384,
        ensures
            word == self.contents(*wires)[address as int],
    {
        let _ = wires.mem_len();
        wires.word(self.base + address)
    }

    /// The number on a bus.
    pub fn bus_to_u16<const N: usize>(bus: SharedBus<N>, wires: &Wires) -> (u: u16)
        requires
            N <= 16,
            bus.below(wires@.len()),
        ensures
            u == bus.word(wires@),
    {
        bus.to_u16(wires)
    }
}

impl Gate for RAM16KBuiltIn {
    closed spec fn wired(&self) -> bool {
        &&& self.span@.hi == self.span@.lo + 16
        &&& self.span@.wlo == self.base
        &&& self.span@.whi == self.base + 16384 + 1
        &&& self.out.row(self.span@.lo)
        &&& self.out.0.bits[0] == self.span@.lo
        &&& self.out.within(self.span@.lo, self.span@.hi)
        &&& self.input.below(self.span@.lo)
        &&& self.load.below(self.span@.lo)
        &&& self.address.below(self.span@.lo)
    }

    closed spec fn span(&self) -> Span {
        self.span@
    }

    open spec fn clocked(&self) -> bool {
        true
    }

    fn clock_up(&self, wires: &mut Wires)
        ensures
            self.sampled(*old(wires), *final(wires)),
    {
        let _ = wires.mem_len();
        match wires.get(self.load.get_shared_bit(0)) {
            Bit::I => {
                let value = Self::bus_to_u16::<16>(self.input, wires);
                wires.set_word(self.base + 16384, value);
                proof {
                    assert(self.contents(*wires) =~= self.contents(*old(wires)));
                }
            },
            Bit::O => {},
        }
    }

    fn clock_down(&self, wires: &mut Wires)
        ensures
            self.published(*old(wires), *final(wires)),
    {
        proof {
            lemma_bits_to_nat_bound(self.address.value(wires@));
            lemma2_to64();
        }
        let _ = wires.mem_len();
        match wires.get(self.load.get_shared_bit(0)) {
            Bit::I => {
                let load_address = Self::bus_to_u16::<14>(self.address, wires) as usize;
                let next = wires.word(self.base + 16384);
                wires.set_word(self.base + load_address, next);
                proof {
                    assert(self.contents(*wires) =~= self.contents(*old(wires)).update(
                        load_address as int,
                        next,
                    ));
                }
            },
            Bit::O => {},
        }
    }

    fn re_compute(&self, wires: &mut Wires)
        ensures
            self.settled(*old(wires), *final(wires)),
    {
        proof {
            lemma_bits_to_nat_bound(self.address.value(wires@));
            lemma2_to64();
        }
        let address = Self::bus_to_u16::<14>(self.address, wires) as usize;
        let _ = wires.mem_len();
        let value = wires.word(self.base + address);
        self.out.put(value, wires);
    }
}

/// What a caller may rely on of a wired memory of this kind.
pub broadcast proof fn lemma_ram16k_builtin_ports(g: RAM16KBuiltIn)
    requires
        #[trigger] g.wired(),
    ensures
        g.span().lo <= g.span().hi,
        g.span().wlo <= g.span().whi,
        g.out().within(g.span().lo, g.span().hi),
        g.input().below(g.span().lo),
        g.load().below(g.span().lo),
        g.address().below(g.span().lo),
{
}

/// One tick and one tock with `load` at `I` write the number on `input` at
/// the address: a later read of that address shows it, and every other
/// word is as it was. With `load` at `O` nothing is written.
pub proof fn lemma_ram16k_builtin_cycle(ram: RAM16KBuiltIn, w0: Wires, w1: Wires, w2: Wires, w3: Wires, w4: Wires)
    requires
        ram.wired(),
        ram.span().fits(w0),
        ram.settled(w0, w1),
        ram.sampled(w1, w2),
        ram.published(w2, w3),
        ram.settled(w3, w4),
    ensures
        ram.contents(w4) == (if ram.load().value(w0@)[0] == Bit::I {
            ram.contents(w0).update(ram.address().word(w0@) as int, ram.input().word(w0@) as u16)
        } else {
            ram.contents(w0)
        }),
        ram.out().word(w4@) == ram.contents(w4)[ram.address().word(w3@) as int],
{
    broadcast use group_run;

    lemma_ram16k_builtin_ports(ram);
    assert(ram.contents(w1) == ram.contents(w0));
    assert(ram.contents(w4) == ram.contents(w3));
}

/// Screen memory of 8192 words.
///
/// The words are memory words of the store; one more word, the latch,
/// holds the value that a rising edge sampled until the falling edge
/// writes it.
pub struct ScreenBuiltIn {
    pub out: SharedBus<16>,
    input: SharedBus<16>,
    load: SharedBus<1>,
    address: SharedBus<13>,
    base: usize,
    span: Ghost<Span>,
}

impl ScreenBuiltIn {
    pub fn new(input: SharedBus<16>, load: SharedBus<1>, address: SharedBus<13>, wires: &mut Wires) -> (r:
        ScreenBuiltIn)
        requires
            input.below(old(wires)@.len()),
            load.below(old(wires)@.len()),
            address.below(old(wires)@.len()),
        ensures
            r.wired(),
            r.input() == input,
            r.load() == load,
            r.address() == address,
            r.span() == Span::added(*old(wires), *final(wires)),
            grown(*old(wires), *final(wires)),
            r.contents(*final(wires)) == Seq::new(8192, |i: int| 0u16),
            r.latch(*final(wires)) == 0,
            r.out().value(final(wires)@) == fill(16, Bit::O),
    {
        broadcast use group_build;

        let ghost w0 = *wires;
        let out = Bus::<16>::all0(wires).to_shared_bus();
        let ghost w1 = *wires;
        let base = wires.mem_len();
        let mut i: usize = 0;
        proof {
            reveal(grown);
        }
        while i < 8192 + 1
            invariant
                i <= 8192 + 1,
                wires@ == w1@,
                wires.mem().len() == base + i,
                base == w1.mem().len(),
                forall|k: int| 0 <= k < base ==> wires.mem()[k] == w1.mem()[k],
                forall|k: int| base <= k < base + i ==> wires.mem()[k] == 0,
            decreases 8192 + 1 - i,
        {
            wires.add_word(0);
            i += 1;
        }
        let r = ScreenBuiltIn { out, input, load, address, base, span: Ghost(Span::added(w0, *wires)) };
        proof {
            assert(r.contents(*wires) =~= Seq::new(8192, |i: int| 0u16));
            assert(out.value(wires@) =~= fill(16, Bit::O));
        }
        r
    }

    /// The input bus `input`.
    pub closed spec fn input(&self) -> SharedBus<16> {
        self.input
    }

    /// The input bus `load`.
    pub closed spec fn load(&self) -> SharedBus<1> {
        self.load
    }

    /// The input bus `address`.
    pub closed spec fn address(&self) -> SharedBus<13> {
        self.address
    }

    /// The output bus `out`.
    pub closed spec fn out(&self) -> SharedBus<16> {
        self.out
    }

    /// The bus `out`, to wire it on.
    pub fn get_out(&self) -> (r: SharedBus<16>)
        ensures
            r == self.out(),
    {
        self.out
    }

    /// The 8192 words, by address.
    pub closed spec fn contents(&self, w: Wires) -> Seq<u16> {
        w.mem().subrange(self.base as int, self.base + 8192)
    }

    /// The word that the last rising edge sampled.
    pub closed spec fn latch(&self, w: Wires) -> u16 {
        w.mem()[self.base + 8192]
    }

    /// What `re_compute` does: `out` shows the word at the address.
    pub open spec fn settled(&self, pre: Wires, post: Wires) -> bool {
        &&& framed(pre, post, self.span())
        &&& post.mem() == pre.mem()
        &&& self.address().word(pre@) < 8192
        &&& self.out().value(post@) == nat_bits(16, self.contents(pre)[self.address().word(pre@) as int] as nat)
        &&& self.out().word(post@) == self.contents(pre)[self.address().word(pre@) as int]
    }

    /// What a rising edge does: where `load` is `I`, the latch takes the
    /// number on `input`. No wire changes.
    pub open spec fn sampled(&self, pre: Wires, post: Wires) -> bool {
        &&& framed(pre, post, self.span())
        &&& post@ == pre@
        &&& self.contents(post) == self.contents(pre)
        &&& self.latch(post) == (if self.load().value(pre@)[0] == Bit::I {
            self.input().word(pre@) as u16
        } else {
            self.latch(pre)
        })
    }

    /// What a falling edge does: where `load` is `I`, the word at the
    /// address takes the value of the latch. No wire changes.
    pub open spec fn published(&self, pre: Wires, post: Wires) -> bool {
        &&& framed(pre, post, self.span())
        &&& post@ == pre@
        &&& self.latch(post) == self.latch(pre)
        &&& self.address().word(pre@) < 8192
        &&& self.contents(post) == (if self.load().value(pre@)[0] == Bit::I {
            self.contents(pre).update(self.address().word(pre@) as int, self.latch(pre))
        } else {
            self.contents(pre)
        })
    }

    /// A change of the store outside the memory does not show in it.
    pub proof fn lemma_apart(&self, pre: Wires, post: Wires, span: Span)
        requires
            self.wired(),
            self.span().fits(pre),
            framed(pre, post, span),
            span.whi <= self.span().wlo || self.span().whi <= span.wlo,
        ensures
            self.contents(post) == self.contents(pre),
            self.latch(post) == self.latch(pre),
    {
        assert(self.contents(post) =~= self.contents(pre));
    }

    /// The words depend on the memory words of the store alone.
    pub proof fn lemma_same_mem(&self, pre: Wires, post: Wires)
        requires
            post.mem() == pre.mem(),
        ensures
            self.contents(post) == self.contents(pre),
            self.latch(post) == self.latch(pre),
    {
    }

    /// Cells added to the store do not show in the memory.
    pub proof fn lemma_grown(&self, pre: Wires, post: Wires)
        requires
            self.wired(),
            self.span().fits(pre),
            grown(pre, post),
        ensures
            self.contents(post) == self.contents(pre),
            self.latch(post) == self.latch(pre),
    {
        reveal(grown);
        assert(self.contents(post) =~= self.contents(pre));
    }

    /// The word at `address`.
    pub fn peek(&self, address: usize, wires: &Wires) -> (word: u16)
        requires
            self.wired(),
            self.span().fits(*wires),
            address < 8192,
        ensures
            word == self.contents(*wires)[address as int],
    {
        let _ = wires.mem_len();
        wires.word(self.base + address)
    }

    /// The number on a bus.
    pub fn bus_to_u16<const N: usize>(bus: SharedBus<N>, wires: &Wires) -> (u: u16)
        requires
            N <= 16,
            bus.below(wires@.len()),
        ensures
            u == bus.word(wires@),
    {
        bus.to_u16(wires)
    }
}

impl Gate for ScreenBuiltIn {
    closed spec fn wired(&self) -> bool {
        &&& self.span@.hi == self.span@.lo + 16
        &&& self.span@.wlo == self.base
        &&& self.span@.whi == self.base + 8192 + 1
        &&& self.out.row(self.span@.lo)
        &&& self.out.0.bits[0] == self.span@.lo
        &&& self.out.within(self.span@.lo, self.span@.hi)
        &&& self.input.below(self.span@.lo)
        &&& self.load.below(self.span@.lo)
        &&& self.address.below(self.span@.lo)
    }

    closed spec fn span(&self) -> Span {
        self.span@
    }

    open spec fn clocked(&self) -> bool {
        true
    }

    fn clock_up(&self, wires: &mut Wires)
        ensures
            self.sampled(*old(wires), *final(wires)),
    {
        let _ = wires.mem_len();
        match wires.get(self.load.get_shared_bit(0)) {
            Bit::I => {
                let value = Self::bus_to_u16::<16>(self.input, wires);
                wires.set_word(self.base + 8192, value);
                proof {
                    assert(self.contents(*wires) =~= self.contents(*old(wires)));
                }
            },
            Bit::O => {},
        }
    }

    fn clock_down(&self, wires: &mut Wires)
        ensures
            self.published(*old(wires), *final(wires)),
    {
        proof {
            lemma_bits_to_nat_bound(self.address.value(wires@));
            lemma2_to64();
        }
        let _ = wires.mem_len();
        match wires.get(self.load.get_shared_bit(0)) {
            Bit::I => {
                let load_address = Self::bus_to_u16::<13>(self.address, wires) as usize;
                let next = wires.word(self.base + 8192);
                wires.set_word(self.base + load_address, next);
                proof {
                    assert(self.contents(*wires) =~= self.contents(*old(wires)).update(
                        load_address as int,
                        next,
                    ));
                }
            },
            Bit::O => {},
        }
    }

    fn re_compute(&self, wires: &mut Wires)
        ensures
            self.settled(*old(wires), *final(wires)),
    {
        proof {
            lemma_bits_to_nat_bound(self.address.value(wires@));
            lemma2_to64();
        }
        let address = Self::bus_to_u16::<13>(self.address, wires) as usize;
        let _ = wires.mem_len();
        let value = wires.word(self.base + address);
        self.out.put(value, wires);
    }
}

/// What a caller may rely on of a wired memory of this kind.
pub broadcast proof fn lemma_screen_builtin_ports(g: ScreenBuiltIn)
    requires
        #[trigger] g.wired(),
    ensures
        g.span().lo <= g.span().hi,
        g.span().wlo <= g.span().whi,
        g.out().within(g.span().lo, g.span().hi),
        g.input().below(g.span().lo),
        g.load().below(g.span().lo),
        g.address().below(g.span().lo),
{
}

/// One tick and one tock with `load` at `I` write the number on `input` at
/// the address: a later read of that address shows it, and every other
/// word is as it was. With `load` at `O` nothing is written.
pub proof fn lemma_screen_builtin_cycle(ram: ScreenBuiltIn, w0: Wires, w1: Wires, w2: Wires, w3: Wires, w4: Wires)
    requires
        ram.wired(),
        ram.span().fits(w0),
        ram.settled(w0, w1),
        ram.sampled(w1, w2),
        ram.published(w2, w3),
        ram.settled(w3, w4),
    ensures
        ram.contents(w4) == (if ram.load().value(w0@)[0] == Bit::I {
            ram.contents(w0).update(ram.address().word(w0@) as int, ram.input().word(w0@) as u16)
        } else {
            ram.contents(w0)
        }),
        ram.out().word(w4@) == ram.contents(w4)[ram.address().word(w3@) as int],
{
    broadcast use group_run;

    lemma_screen_builtin_ports(ram);
    assert(ram.contents(w1) == ram.contents(w0));
    assert(ram.contents(w4) == ram.contents(w3));
}

/// The keyboard: sixteen wires that the simulator never drives. They carry
/// zeros unless something outside writes a key code onto them.
pub struct KeyboardBuiltIn {
    pub out: SharedBus<16>,
    span: Ghost<Span>,
}

impl KeyboardBuiltIn {
    pub fn new(wires: &mut Wires) -> (r: KeyboardBuiltIn)
        ensures
            r.wired(),
            r.span() == Span::added(*old(wires), *final(wires)),
            grown(*old(wires), *final(wires)),
            r.out().value(final(wires)@) == fill(16, Bit::O),
    {
        let ghost w0 = *wires;
        let out = Bus::<16>::all0(wires).to_shared_bus();
        proof {
            assert(out.value(wires@) =~= fill(16, Bit::O));
        }
        KeyboardBuiltIn { out, span: Ghost(Span::added(w0, *wires)) }
    }

    /// The output bus `out`.
    pub closed spec fn out(&self) -> SharedBus<16> {
        self.out
    }

    /// The bus `out`, to wire it on.
    pub fn get_out(&self) -> (r: SharedBus<16>)
        ensures
            r == self.out(),
    {
        self.out
    }
}

impl Gate for KeyboardBuiltIn {
    closed spec fn wired(&self) -> bool {
        &&& self.span@.hi == self.span@.lo + 16
        &&& self.span@.wlo == self.span@.whi
        &&& self.out.row(self.span@.lo)
        &&& self.out.within(self.span@.lo, self.span@.hi)
    }

    closed spec fn span(&self) -> Span {
        self.span@
    }

    open spec fn clocked(&self) -> bool {
        false
    }

    fn re_compute(&self, wires: &mut Wires)
        ensures
            final(wires)@ == old(wires)@,
    {
    }
}

/// What a caller may rely on of a wired keyboard.
pub broadcast proof fn lemma_keyboard_ports(g: KeyboardBuiltIn)
    requires
        #[trigger] g.wired(),
    ensures
        g.span().lo <= g.span().hi,
        g.span().wlo <= g.span().whi,
        g.out().within(g.span().lo, g.span().hi),
{
}

/// Program memory of 32768 words that never change.
pub struct ROM32KBuiltIn {
    pub out: SharedBus<16>,
    pub rom: Box<[u16; 32768]>,
    address: SharedBus<15>,
    span: Ghost<Span>,
}

impl ROM32KBuiltIn {
    pub fn new(rom: Box<[u16; 32768]>, address: SharedBus<15>, wires: &mut Wires) -> (r: ROM32KBuiltIn)
        requires
            address.below(old(wires)@.len()),
        ensures
            r.wired(),
            r.words() == rom@,
            r.address() == address,
            r.span() == Span::added(*old(wires), *final(wires)),
            grown(*old(wires), *final(wires)),
            r.out().value(final(wires)@) == fill(16, Bit::O),
    {
        let ghost w0 = *wires;
        let out = Bus::<16>::all0(wires).to_shared_bus();
        proof {
            assert(out.value(wires@) =~= fill(16, Bit::O));
        }
        ROM32KBuiltIn { out, rom, address, span: Ghost(Span::added(w0, *wires)) }
    }

    /// The 32768 words, by address.
    pub closed spec fn words(&self) -> Seq<u16> {
        self.rom@
    }

    /// The input bus `address`.
    pub closed spec fn address(&self) -> SharedBus<15> {
        self.address
    }

    /// The output bus `out`.
    pub closed spec fn out(&self) -> SharedBus<16> {
        self.out
    }

    /// The bus `out`, to wire it on.
    pub fn get_out(&self) -> (r: SharedBus<16>)
        ensures
            r == self.out(),
    {
        self.out
    }

    /// The bus `address`, to wire it on.
    pub fn get_address(&self) -> (r: SharedBus<15>)
        ensures
            r == self.address(),
    {
        self.address
    }

    /// What `re_compute` does: `out` shows the word at the address.
    pub open spec fn settled(&self, pre: Wires, post: Wires) -> bool {
        &&& framed(pre, post, self.span())
        &&& post.mem() == pre.mem()
        &&& self.address().word(pre@) < 32768
        &&& self.out().value(post@) == nat_bits(16, self.words()[self.address().word(pre@) as int] as nat)
        &&& self.out().word(post@) == self.words()[self.address().word(pre@) as int]
    }

    /// The number on a bus.
    pub fn bus_to_u16<const N: usize>(bus: SharedBus<N>, wires: &Wires) -> (u: u16)
        requires
            N <= 16,
            bus.below(wires@.len()),
        ensures
            u == bus.word(wires@),
    {
        bus.to_u16(wires)
    }
}

impl Gate for ROM32KBuiltIn {
    closed spec fn wired(&self) -> bool {
        &&& self.span@.hi == self.span@.lo + 16
        &&& self.span@.wlo == self.span@.whi
        &&& self.out.row(self.span@.lo)
        &&& self.out.0.bits[0] == self.span@.lo
        &&& self.out.within(self.span@.lo, self.span@.hi)
        &&& self.address.below(self.span@.lo)
    }

    closed spec fn span(&self) -> Span {
        self.span@
    }

    open spec fn clocked(&self) -> bool {
        false
    }

    fn re_compute(&self, wires: &mut Wires)
        ensures
            self.settled(*old(wires), *final(wires)),
    {
        proof {
            lemma_bits_to_nat_bound(self.address.value(wires@));
            lemma2_to64();
        }
        let address = Self::bus_to_u16::<15>(self.address, wires) as usize;
        let value = self.rom[address];
        self.out.put(value, wires);
    }
}

/// What a caller may rely on of a wired program memory.
pub broadcast proof fn lemma_rom_ports(g: ROM32KBuiltIn)
    requires
        #[trigger] g.wired(),
    ensures
        g.span().lo <= g.span().hi,
        g.span().wlo <= g.span().whi,
        g.out().within(g.span().lo, g.span().hi),
        g.address().below(g.span().lo),
{
}

} // verus!
