//! The whole computer: program memory, processor and data memory.
use vstd::prelude::*;
use crate::bit::{Bit, bits_to_nat, fill, nat_bits, lemma_bits_of_value, lemma_zeros_value};
pub use crate::builtin::ROM32KBuiltIn;
use crate::builtin::lemma_rom_ports;
use crate::bus::{Bus, SharedBus, group_build, group_run, lemma_overwritten_row};
pub use crate::cpu::CPU;
use crate::cpu::{cpu_next_a, cpu_next_d, cpu_next_pc, cpu_result, cpu_writes, lemma_cpu_ports};
use crate::gate::Gate;
use crate::memory::lemma_memory_ports;
use crate::wires::{Span, Wires, framed, grown};
pub use crate::builtin::{KeyboardBuiltIn, ScreenBuiltIn};
pub use crate::memory::MemoryBuiltIn;

verus! {

/// What a program can see of the computer: the registers A and D, the
/// program counter, the main memory, the screen and the keyboard.
pub struct Machine {
    pub a: Seq<Bit>,
    pub d: Seq<Bit>,
    pub pc: Seq<Bit>,
    pub ram: Seq<u16>,
    pub screen: Seq<u16>,
    pub keys: nat,
}

/// The word at an address of the data memory.
pub open spec fn hack_read(ram: Seq<u16>, screen: Seq<u16>, keys: nat, addr: nat) -> nat {
    if addr < 16384 {
        ram[addr as int] as nat
    } else if addr < 24576 {
        screen[addr - 16384] as nat
    } else {
        keys
    }
}

/// The instruction that the program counter points at.
pub open spec fn hack_fetch(s: Machine, program: Seq<u16>) -> Seq<Bit> {
    nat_bits(16, program[bits_to_nat(s.pc.take(15)) as int] as nat)
}

/// The memory word at the address in the A register.
pub open spec fn hack_operand(s: Machine) -> Seq<Bit> {
    nat_bits(16, hack_read(s.ram, s.screen, s.keys, bits_to_nat(s.a.take(15))))
}

/// One instruction of the program, carried out.
pub open spec fn hack_step(s: Machine, program: Seq<u16>, reset: Bit) -> Machine {
    let i = hack_fetch(s, program);
    let m = hack_operand(s);
    let addr = bits_to_nat(s.a.take(15));
    let v = bits_to_nat(cpu_result(i, s.a, s.d, m)) as u16;
    Machine {
        a: cpu_next_a(i, s.a, s.d, m),
        d: cpu_next_d(i, s.a, s.d, m),
        pc: cpu_next_pc(i, s.a, s.d, m, s.pc, reset),
        ram: if cpu_writes(i) == Bit::I && addr < 16384 {
            s.ram.update(addr as int, v)
        } else {
            s.ram
        },
        screen: if cpu_writes(i) == Bit::I && 16384 <= addr < 24576 {
            s.screen.update(addr - 16384, v)
        } else {
            s.screen
        },
        keys: s.keys,
    }
}

/// The computer. A tick settles the circuit and gives the rising edge; a
/// tock gives the falling edge and settles again.
///
/// Settling first copies the program counter onto the address of the
/// program memory, and the output of the data memory onto `memory_out`,
/// which the processor reads.
pub struct Computer {
    rom: ROM32KBuiltIn,
    pub cpu: CPU,
    memory: MemoryBuiltIn,
    memory_out: SharedBus<16>,
}

impl Computer {
    #[verifier::spinoff_prover]
    pub fn new(reset: SharedBus<1>, rom: ROM32KBuiltIn, wires: &mut Wires) -> (r: Computer)
        requires
            rom.wired(),
            rom.span().fits(*old(wires)),
            rom.address().row(rom.address().0.bits[0] as nat),
            rom.address().within(rom.address().0.bits[0] as nat, (rom.address().0.bits[0] + 15) as nat),
            rom.address().0.bits[0] + 15 <= rom.span().lo,
            reset.below(old(wires)@.len()),
            reset.apart(rom.address().0.bits[0] as nat, (rom.address().0.bits[0] + 15) as nat),
            reset.apart(rom.span().lo, rom.span().hi),
        ensures
            r.wired(),
            r.span().fits(*final(wires)),
            r.program() == rom.words(),
            r.reset() == reset,
            grown(*old(wires), *final(wires)),
            r.fetched(*final(wires)),
            r.machine(*final(wires)).a == fill(16, Bit::O),
            r.machine(*final(wires)).d == fill(16, Bit::O),
            r.machine(*final(wires)).pc == fill(16, Bit::O),
            r.machine(*final(wires)).ram == Seq::new(16384, |i: int| 0u16),
            r.machine(*final(wires)).screen == Seq::new(8192, |i: int| 0u16),
            r.machine(*final(wires)).keys == 0,
    {
        broadcast use {group_build, lemma_rom_ports, lemma_cpu_ports, lemma_memory_ports};

        let memory_out = Bus::<16>::all0(wires).to_shared_bus();
        let cpu = CPU::new(memory_out, rom.get_out(), reset, wires);
        let memory = MemoryBuiltIn::new(cpu.get_out_m(), cpu.get_write_m(), cpu.get_address_m(), wires);
        proof {
            crate::bus::lemma_extent(rom.address(), 0);
            lemma_zeros_value(16);
            lemma_zeros_value(15);
            assert(fill(16, Bit::O).take(15) =~= fill(15, Bit::O));
        }
        Computer { rom, cpu, memory, memory_out }
    }

    /// The parts are connected as the computer.
    pub closed spec fn wiring(&self) -> bool {
        let ra = self.rom.address().0.bits[0] as nat;
        let mo = self.memory_out.0.bits[0] as nat;
        &&& self.rom.wired()
        &&& self.cpu.wired()
        &&& self.memory.wired()
        &&& self.rom.address().row(ra)
        &&& self.rom.address().within(ra, ra + 15)
        &&& ra + 15 <= self.rom.span().lo
        &&& self.rom.span().hi <= mo
        &&& self.rom.span().whi <= self.cpu.span().wlo
        &&& self.memory_out.row(mo)
        &&& self.memory_out.within(mo, mo + 16)
        &&& mo + 16 <= self.cpu.span().lo
        &&& self.cpu.span().before(self.memory.span())
        &&& self.cpu.reset().below(mo)
        &&& self.cpu.reset().apart(ra, ra + 15)
        &&& self.cpu.reset().apart(self.rom.span().lo, self.rom.span().hi)
        &&& self.cpu.in_m() == self.memory_out
        &&& self.cpu.instruction() == self.rom.out()
        &&& self.memory.input() == self.cpu.out_m()
        &&& self.memory.load() == self.cpu.write_m()
        &&& self.memory.address() == self.cpu.address_m()
    }

    /// The words of the program.
    pub closed spec fn program(&self) -> Seq<u16> {
        self.rom.words()
    }

    /// The reset wire.
    pub closed spec fn reset(&self) -> SharedBus<1> {
        self.cpu.reset()
    }

    /// What a program can see of the computer in a state of the store.
    pub closed spec fn machine(&self, w: Wires) -> Machine {
        Machine {
            a: self.cpu.a().value(w@),
            d: self.cpu.d().value(w@),
            pc: self.cpu.counter().value(w@),
            ram: self.memory.ram(w),
            screen: self.memory.screen(w),
            keys: self.memory.keys(w@),
        }
    }

    /// The data memory shows the word at the address in the A register, as
    /// it does after every tock.
    pub closed spec fn fetched(&self, w: Wires) -> bool {
        &&& self.memory.address().value(w@) == self.cpu.a().value(w@).take(15)
        &&& self.memory.out().word(w@) == self.memory.word_at(w)
        &&& self.cpu.pc().value(w@) == self.cpu.counter().value(w@).take(15)
    }

    /// What the registers, the counter and the latches of the memory hold
    /// after the rising edge that follows a settling in state `pre`.
    pub closed spec fn latched(&self, pre: Wires, post: Wires) -> bool {
        let s = self.machine(pre);
        let i = hack_fetch(s, self.program());
        let m = self.memory.out().value(pre@);
        let addr = bits_to_nat(s.a.take(15));
        let v = bits_to_nat(cpu_result(i, s.a, s.d, m)) as u16;
        &&& self.cpu.a_state().value(post@) == cpu_next_a(i, s.a, s.d, m)
        &&& self.cpu.d_state().value(post@) == cpu_next_d(i, s.a, s.d, m)
        &&& self.cpu.counter_state().value(post@) == cpu_next_pc(
            i,
            s.a,
            s.d,
            m,
            s.pc,
            self.reset().value(pre@)[0],
        )
        &&& self.memory.address().word(post@) == addr
        &&& self.memory.ram_load().value(post@)[0] == (if cpu_writes(i) == Bit::I && addr < 16384 {
            Bit::I
        } else {
            Bit::O
        })
        &&& self.memory.screen_load().value(post@)[0] == (if cpu_writes(i) == Bit::I && 16384 <= addr
            < 24576 {
            Bit::I
        } else {
            Bit::O
        })
        &&& self.memory.ram_load().value(post@)[0] == Bit::I ==> self.memory.ram_latch(post) == v
        &&& self.memory.screen_load().value(post@)[0] == Bit::I ==> self.memory.screen_latch(post) == v
    }

    /// What a tick does: nothing that a program can see changes; the
    /// registers, the counter and the memory sample what the instruction
    /// at the program counter makes of the state.
    pub closed spec fn ticked(&self, pre: Wires, post: Wires) -> bool {
        &&& framed(pre, post, self.span())
        &&& self.machine(post) == self.machine(pre)
        &&& self.reset().value(post@) == self.reset().value(pre@)
        &&& self.latched(pre, post)
    }

    /// What a tock does: the registers, the counter and the memory publish
    /// what they sampled, and the data memory shows the word at the new
    /// address.
    pub closed spec fn tocked(&self, pre: Wires, post: Wires) -> bool {
        let a = self.memory.address().word(pre@);
        &&& framed(pre, post, self.span())
        &&& self.reset().value(post@) == self.reset().value(pre@)
        &&& self.machine(post).a == self.cpu.a_state().value(pre@)
        &&& self.machine(post).d == self.cpu.d_state().value(pre@)
        &&& self.machine(post).pc == self.cpu.counter_state().value(pre@)
        &&& self.machine(post).keys == self.machine(pre).keys
        &&& self.machine(post).ram == (if self.memory.ram_load().value(pre@)[0] == Bit::I {
            self.machine(pre).ram.update((a % 16384) as int, self.memory.ram_latch(pre))
        } else {
            self.machine(pre).ram
        })
        &&& self.machine(post).screen == (if self.memory.screen_load().value(pre@)[0] == Bit::I {
            self.machine(pre).screen.update((a % 8192) as int, self.memory.screen_latch(pre))
        } else {
            self.machine(pre).screen
        })
        &&& self.fetched(post)
    }

    /// Settles the circuit and gives the rising edge.
    #[verifier::spinoff_prover]
    pub fn tick(&self, wires: &mut Wires)
        requires
            self.wired(),
            self.span().fits(*old(wires)),
        ensures
            framed(*old(wires), *final(wires), self.span()),
            self.ticked(*old(wires), *final(wires)),
    {
        self.re_compute(wires);
        self.clock_up(wires);
    }

    /// Gives the falling edge and settles the circuit.
    #[verifier::spinoff_prover]
    pub fn tock(&self, wires: &mut Wires)
        requires
            self.wired(),
            self.span().fits(*old(wires)),
        ensures
            framed(*old(wires), *final(wires), self.span()),
            self.tocked(*old(wires), *final(wires)),
    {
        self.clock_down(wires);
        self.re_compute(wires);
    }

    /// Word 0 of main memory.
    pub fn get_r0(&self, wires: &Wires) -> (word: u16)
        requires
            self.wired(),
            self.span().fits(*wires),
        ensures
            word == self.machine(*wires).ram[0],
    {
        broadcast use {lemma_rom_ports, lemma_cpu_ports, lemma_memory_ports};

        self.memory.peek_ram(0, wires)
    }

    /// What `re_compute` does.
    pub closed spec fn settled(&self, pre: Wires, post: Wires) -> bool {
        let s = self.machine(pre);
        let i = hack_fetch(s, self.program());
        let m = self.memory.out().value(pre@);
        let addr = bits_to_nat(s.a.take(15));
        &&& self.machine(post) == s
        &&& self.reset().value(post@) == self.reset().value(pre@)
        &&& self.cpu.holds_same(pre, post)
        &&& self.memory.ram_latch(post) == self.memory.ram_latch(pre)
        &&& self.memory.screen_latch(post) == self.memory.screen_latch(pre)
        &&& self.cpu.a_next().value(post@) == cpu_next_a(i, s.a, s.d, m)
        &&& self.cpu.d_next().value(post@) == cpu_next_d(i, s.a, s.d, m)
        &&& self.cpu.counter_next().value(post@) == cpu_next_pc(
            i,
            s.a,
            s.d,
            m,
            s.pc,
            self.reset().value(pre@)[0],
        )
        &&& self.cpu.out_m().value(post@) == cpu_result(i, s.a, s.d, m)
        &&& self.memory.address().value(post@) == s.a.take(15)
        &&& self.memory.ram_load().value(post@)[0] == (if cpu_writes(i) == Bit::I && addr < 16384 {
            Bit::I
        } else {
            Bit::O
        })
        &&& self.memory.screen_load().value(post@)[0] == (if cpu_writes(i) == Bit::I && 16384 <= addr
            < 24576 {
            Bit::I
        } else {
            Bit::O
        })
        &&& self.memory.out().word(post@) == self.memory.word_at(post)
        &&& self.cpu.pc().value(post@) == s.pc.take(15)
    }

    /// What a rising edge does.
    pub closed spec fn sampled(&self, pre: Wires, post: Wires) -> bool {
        &&& self.machine(post) == self.machine(pre)
        &&& self.reset().value(post@) == self.reset().value(pre@)
        &&& self.cpu.a_state().value(post@) == self.cpu.a_next().value(pre@)
        &&& self.cpu.d_state().value(post@) == self.cpu.d_next().value(pre@)
        &&& self.cpu.counter_state().value(post@) == self.cpu.counter_next().value(pre@)
        &&& self.memory.address().value(post@) == self.memory.address().value(pre@)
        &&& self.memory.ram_load().value(post@) == self.memory.ram_load().value(pre@)
        &&& self.memory.screen_load().value(post@) == self.memory.screen_load().value(pre@)
        &&& self.memory.ram_latch(post) == (if self.memory.ram_load().value(pre@)[0] == Bit::I {
            self.cpu.out_m().word(pre@) as u16
        } else {
            self.memory.ram_latch(pre)
        })
        &&& self.memory.screen_latch(post) == (if self.memory.screen_load().value(pre@)[0] == Bit::I {
            self.cpu.out_m().word(pre@) as u16
        } else {
            self.memory.screen_latch(pre)
        })
    }

    /// What a falling edge does.
    pub closed spec fn published(&self, pre: Wires, post: Wires) -> bool {
        let a = self.memory.address().word(pre@);
        &&& self.reset().value(post@) == self.reset().value(pre@)
        &&& self.machine(post).a == self.cpu.a_state().value(pre@)
        &&& self.machine(post).d == self.cpu.d_state().value(pre@)
        &&& self.machine(post).pc == self.cpu.counter_state().value(pre@)
        &&& self.machine(post).keys == self.machine(pre).keys
        &&& self.machine(post).ram == (if self.memory.ram_load().value(pre@)[0] == Bit::I {
            self.machine(pre).ram.update((a % 16384) as int, self.memory.ram_latch(pre))
        } else {
            self.machine(pre).ram
        })
        &&& self.machine(post).screen == (if self.memory.screen_load().value(pre@)[0] == Bit::I {
            self.machine(pre).screen.update((a % 8192) as int, self.memory.screen_latch(pre))
        } else {
            self.machine(pre).screen
        })
    }

    /// First part of settling: the program counter goes onto the address of
    /// the program memory, the output of the data memory onto `memory_out`.
    #[verifier::spinoff_prover]
    fn refresh(&self, wires: &mut Wires)
        requires
            self.wired(),
            self.span().fits(*old(wires)),
        ensures
            framed(*old(wires), *final(wires), self.span()),
            final(wires).mem() == old(wires).mem(),
            self.rom.address().value(final(wires)@) == self.cpu.pc().value(old(wires)@),
            self.memory_out.value(final(wires)@) == self.memory.out().value(old(wires)@),
            self.reset().value(final(wires)@) == self.reset().value(old(wires)@),
            self.cpu.shows_same(*old(wires), *final(wires)),
            self.cpu.holds_same(*old(wires), *final(wires)),
            self.memory.keys(final(wires)@) == self.memory.keys(old(wires)@),
    {
        broadcast use {group_run, lemma_rom_ports, lemma_cpu_ports, lemma_memory_ports};

        let ghost w0 = *wires;
        let ghost ra = self.rom.address().0.bits[0] as nat;
        let ghost mo = self.memory_out.0.bits[0] as nat;
        proof {
            lemma_overwritten_row(w0@, self.rom.address(), self.cpu.pc(), ra);
        }
        self.rom.get_address().overwrite(&self.cpu.get_pc().0, wires);
        let ghost w1 = *wires;
        let ghost first = Span { lo: ra, hi: ra + 15, wlo: 0, whi: 0 };
        proof {
            assert(framed(w0, w1, first));
            lemma_overwritten_row(w1@, self.memory_out, self.memory.out(), mo);
        }
        self.memory_out.overwrite(&self.memory.get_out().0, wires);
        let ghost second = Span { lo: mo, hi: mo + 16, wlo: 0, whi: 0 };
        proof {
            assert(framed(w1, *wires, second));
            self.memory.lemma_keys_apart(w0, w1, first);
            self.memory.lemma_keys_apart(w1, *wires, second);
            self.cpu.lemma_apart(w0, w1, first);
            self.cpu.lemma_apart(w1, *wires, second);
        }
    }
}

impl Gate for Computer {
    closed spec fn wired(&self) -> bool {
        self.wiring()
    }

    closed spec fn span(&self) -> Span {
        Span {
            lo: self.rom.address().0.bits[0] as nat,
            hi: self.memory.span().hi,
            wlo: self.rom.span().wlo,
            whi: self.memory.span().whi,
        }
    }

    open spec fn clocked(&self) -> bool {
        true
    }

    #[verifier::spinoff_prover]
    fn clock_up(&self, wires: &mut Wires)
        ensures
            self.sampled(*old(wires), *final(wires)),
    {
        broadcast use {group_run, lemma_rom_ports, lemma_cpu_ports, lemma_memory_ports};

        let ghost w0 = *wires;
        self.cpu.clock_up(wires);
        let ghost w1 = *wires;
        self.memory.clock_up(wires);
        proof {
            self.memory.lemma_same_mem(w0, w1);
            self.memory.lemma_keys_apart(w0, w1, self.cpu.span());
        }
    }

    #[verifier::spinoff_prover]
    fn clock_down(&self, wires: &mut Wires)
        ensures
            self.published(*old(wires), *final(wires)),
    {
        broadcast use {group_run, lemma_rom_ports, lemma_cpu_ports, lemma_memory_ports};

        let ghost w0 = *wires;
        self.cpu.clock_down(wires);
        let ghost w1 = *wires;
        self.memory.clock_down(wires);
        proof {
            self.memory.lemma_same_mem(w0, w1);
            self.memory.lemma_keys_apart(w0, w1, self.cpu.span());
        }
    }

    #[verifier::spinoff_prover]
    fn re_compute(&self, wires: &mut Wires)
        ensures
            self.settled(*old(wires), *final(wires)),
    {
        broadcast use {group_run, lemma_rom_ports, lemma_cpu_ports, lemma_memory_ports};

        let ghost w0 = *wires;
        self.refresh(wires);
        let ghost w2 = *wires;
        self.rom.re_compute(wires);
        let ghost w3 = *wires;
        proof {
            lemma_bits_of_value(self.rom.out().value(w3@));
            self.cpu.lemma_apart(w2, w3, self.rom.span());
            self.memory.lemma_keys_apart(w2, w3, self.rom.span());
        }
        self.cpu.re_compute(wires);
        let ghost w4 = *wires;
        proof {
            self.memory.lemma_keys_apart(w3, w4, self.cpu.span());
        }
        self.memory.re_compute(wires);
        proof {
            self.cpu.lemma_apart(w4, *wires, self.memory.span());
            self.memory.lemma_same_mem(w0, *wires);
            self.memory.lemma_same_mem(w4, *wires);
            self.cpu.lemma_pc_wires(w0@);
        }
    }
}

/// A tick changes nothing that a program can see.
pub proof fn lemma_tick_keeps(c: Computer, w0: Wires, w1: Wires)
    requires
        c.ticked(w0, w1),
    ensures
        c.machine(w1) == c.machine(w0),
        c.reset().value(w1@) == c.reset().value(w0@),
{
}

/// A tick and then a tock carry out one instruction: where the data memory
/// showed the word at the address in A before the tick, the registers, the
/// counter and the memories afterwards are those of one step of the
/// machine, and the data memory again shows the word at the address in A.
pub proof fn lemma_computer_cycle(c: Computer, w0: Wires, w1: Wires, w2: Wires)
    requires
        c.wired(),
        c.span().fits(w0),
        c.fetched(w0),
        c.ticked(w0, w1),
        c.tocked(w1, w2),
    ensures
        c.machine(w2) == hack_step(c.machine(w0), c.program(), c.reset().value(w0@)[0]),
        c.fetched(w2),
{
    let s = c.machine(w0);
    let a = bits_to_nat(s.a.take(15));
    crate::bit::lemma_bits_to_nat_bound(s.a.take(15));
    vstd::arithmetic::power2::lemma2_to64();
    lemma_bits_of_value(c.memory.out().value(w0@));
    assert(c.machine(w2).ram =~= hack_step(s, c.program(), c.reset().value(w0@)[0]).ram);
    assert(c.machine(w2).screen =~= hack_step(s, c.program(), c.reset().value(w0@)[0]).screen);
}

} // verus!
