//! The arithmetic-logic unit.
use vstd::prelude::*;
use vstd::arithmetic::power2::{lemma2_to64};
use crate::bit::{
    Bit, bits_to_nat, fill, not_bits, and_bits, or_bits, or_way, add_bits, lemma_bits_of_value, lemma_nat_bits_value, lemma_not_bits_value, lemma_zeros_value,
};
use crate::bus::{Bus, SharedBus, group_build, group_run, lemma_extent};
use crate::gate::Gate;
use crate::not::{Not, lemma_not_ports};
use crate::and::{And, lemma_and_ports};
use crate::or::{Or, lemma_or_ports};
use crate::mux::{Mux, lemma_mux_ports};
use crate::or8way::{Or8Way, lemma_or8way_ports};
use crate::add16::{Add16, lemma_add16_ports};
use crate::wires::{Span, Wires, framed, grown};

verus! {

/// An operand of the arithmetic-logic unit after its two switches: zeroed
/// where `z` is `I`, and then complemented where `n` is `I`.
pub open spec fn alu_operand(v: Seq<Bit>, z: Bit, n: Bit) -> Seq<Bit> {
    let v1 = if z == Bit::I {
        fill(16, Bit::O)
    } else {
        v
    };
    if n == Bit::I {
        not_bits(v1)
    } else {
        v1
    }
}

/// The two operands combined: added where `f` is `I` and ANDed where it is
/// `O`, and the result complemented where `no` is `I`.
pub open spec fn alu_combine(x: Seq<Bit>, y: Seq<Bit>, f: Bit, no: Bit) -> Seq<Bit> {
    let o = if f == Bit::I {
        add_bits(x, y)
    } else {
        and_bits(x, y)
    };
    if no == Bit::I {
        not_bits(o)
    } else {
        o
    }
}

/// The value that the arithmetic-logic unit computes from its two inputs
/// and its six control bits.
pub open spec fn alu_bits(
    x: Seq<Bit>,
    y: Seq<Bit>,
    zx: Bit,
    nx: Bit,
    zy: Bit,
    ny: Bit,
    f: Bit,
    no: Bit,
) -> Seq<Bit> {
    alu_combine(alu_operand(x, zx, nx), alu_operand(y, zy, ny), f, no)
}

/// The sum of two 16-bit values spells the sum of their numbers modulo
/// 2^16.
pub proof fn lemma_add_bits_value(a: Seq<Bit>, b: Seq<Bit>)
    requires
        a.len() == 16,
        b.len() == 16,
    ensures
        add_bits(a, b).len() == 16,
        bits_to_nat(add_bits(a, b)) == (bits_to_nat(a) + bits_to_nat(b)) % 65536,
{
    lemma2_to64();
    lemma_nat_bits_value(16, (bits_to_nat(a) + bits_to_nat(b)) % 65536);
}

/// The complement of a 16-bit value spells 65535 minus its number.
pub proof fn lemma_not16_value(a: Seq<Bit>)
    requires
        a.len() == 16,
    ensures
        not_bits(a).len() == 16,
        bits_to_nat(not_bits(a)) == 65535 - bits_to_nat(a),
{
    lemma2_to64();
    lemma_not_bits_value(a);
}

/// The eighteen functions of the arithmetic-logic unit, each with its six
/// control bits: the constants 0, 1 and -1; `x` and `y`; their
/// complements; their negatives; each plus one and minus one; the sum and
/// the two differences; the bitwise AND and OR. Numbers are modulo 2^16,
/// so that -1 is 65535.
pub proof fn lemma_alu_functions(x: Seq<Bit>, y: Seq<Bit>)
    requires
        x.len() == 16,
        y.len() == 16,
    ensures
        alu_bits(x, y, Bit::I, Bit::O, Bit::I, Bit::O, Bit::I, Bit::O) == fill(16, Bit::O),
        bits_to_nat(alu_bits(x, y, Bit::I, Bit::I, Bit::I, Bit::I, Bit::I, Bit::I)) == 1,
        alu_bits(x, y, Bit::I, Bit::I, Bit::I, Bit::O, Bit::I, Bit::O) == fill(16, Bit::I),
        alu_bits(x, y, Bit::O, Bit::O, Bit::I, Bit::I, Bit::O, Bit::O) == x,
        alu_bits(x, y, Bit::I, Bit::I, Bit::O, Bit::O, Bit::O, Bit::O) == y,
        alu_bits(x, y, Bit::O, Bit::O, Bit::I, Bit::I, Bit::O, Bit::I) == not_bits(x),
        alu_bits(x, y, Bit::I, Bit::I, Bit::O, Bit::O, Bit::O, Bit::I) == not_bits(y),
        bits_to_nat(alu_bits(x, y, Bit::O, Bit::O, Bit::I, Bit::I, Bit::I, Bit::I)) == (65536 - bits_to_nat(
            x,
        )) % 65536,
        bits_to_nat(alu_bits(x, y, Bit::I, Bit::I, Bit::O, Bit::O, Bit::I, Bit::I)) == (65536 - bits_to_nat(
            y,
        )) % 65536,
        bits_to_nat(alu_bits(x, y, Bit::O, Bit::I, Bit::I, Bit::I, Bit::I, Bit::I)) == (bits_to_nat(x) + 1)
            % 65536,
        bits_to_nat(alu_bits(x, y, Bit::I, Bit::I, Bit::O, Bit::I, Bit::I, Bit::I)) == (bits_to_nat(y) + 1)
            % 65536,
        bits_to_nat(alu_bits(x, y, Bit::O, Bit::O, Bit::I, Bit::I, Bit::I, Bit::O)) == (bits_to_nat(x)
            + 65535) % 65536,
        bits_to_nat(alu_bits(x, y, Bit::I, Bit::I, Bit::O, Bit::O, Bit::I, Bit::O)) == (bits_to_nat(y)
            + 65535) % 65536,
        bits_to_nat(alu_bits(x, y, Bit::O, Bit::O, Bit::O, Bit::O, Bit::I, Bit::O)) == (bits_to_nat(x)
            + bits_to_nat(y)) % 65536,
        bits_to_nat(alu_bits(x, y, Bit::O, Bit::I, Bit::O, Bit::O, Bit::I, Bit::I)) == (bits_to_nat(x) + 65536
            - bits_to_nat(y)) % 65536,
        bits_to_nat(alu_bits(x, y, Bit::O, Bit::O, Bit::O, Bit::I, Bit::I, Bit::I)) == (bits_to_nat(y) + 65536
            - bits_to_nat(x)) % 65536,
        alu_bits(x, y, Bit::O, Bit::O, Bit::O, Bit::O, Bit::O, Bit::O) == and_bits(x, y),
        alu_bits(x, y, Bit::O, Bit::I, Bit::O, Bit::I, Bit::O, Bit::I) == or_bits(x, y),
{
    lemma_alu_constants(x, y);
    lemma_alu_copies(x, y);
    lemma_alu_negatives(x, y);
    lemma_alu_successors(x, y);
    lemma_alu_predecessors(x, y);
    lemma_alu_sums(x, y);
    lemma_alu_logic(x, y);
}

/// All ones is the complement of all zeros, and spells 65535.
proof fn lemma_ones()
    ensures
        not_bits(fill(16, Bit::O)) == fill(16, Bit::I),
        bits_to_nat(fill(16, Bit::I)) == 65535,
        bits_to_nat(fill(16, Bit::O)) == 0,
{
    lemma2_to64();
    lemma_zeros_value(16);
    assert(not_bits(fill(16, Bit::O)) =~= fill(16, Bit::I));
    lemma_not16_value(fill(16, Bit::O));
}

proof fn lemma_alu_constants(x: Seq<Bit>, y: Seq<Bit>)
    requires
        x.len() == 16,
        y.len() == 16,
    ensures
        alu_bits(x, y, Bit::I, Bit::O, Bit::I, Bit::O, Bit::I, Bit::O) == fill(16, Bit::O),
        bits_to_nat(alu_bits(x, y, Bit::I, Bit::I, Bit::I, Bit::I, Bit::I, Bit::I)) == 1,
        alu_bits(x, y, Bit::I, Bit::I, Bit::I, Bit::O, Bit::I, Bit::O) == fill(16, Bit::I),
{
    let zeros = fill(16, Bit::O);
    let ones = fill(16, Bit::I);
    lemma_ones();
    lemma_add_bits_value(zeros, zeros);
    crate::bit::lemma_bits_to_nat_injective(add_bits(zeros, zeros), zeros);
    lemma_add_bits_value(ones, ones);
    lemma_not16_value(add_bits(ones, ones));
    lemma_add_bits_value(ones, zeros);
    crate::bit::lemma_bits_to_nat_injective(add_bits(ones, zeros), ones);
}

proof fn lemma_alu_copies(x: Seq<Bit>, y: Seq<Bit>)
    requires
        x.len() == 16,
        y.len() == 16,
    ensures
        alu_bits(x, y, Bit::O, Bit::O, Bit::I, Bit::I, Bit::O, Bit::O) == x,
        alu_bits(x, y, Bit::I, Bit::I, Bit::O, Bit::O, Bit::O, Bit::O) == y,
        alu_bits(x, y, Bit::O, Bit::O, Bit::I, Bit::I, Bit::O, Bit::I) == not_bits(x),
        alu_bits(x, y, Bit::I, Bit::I, Bit::O, Bit::O, Bit::O, Bit::I) == not_bits(y),
{
    let ones = fill(16, Bit::I);
    lemma_ones();
    assert(and_bits(x, ones) =~= x);
    assert(and_bits(ones, y) =~= y);
}

proof fn lemma_alu_negatives(x: Seq<Bit>, y: Seq<Bit>)
    requires
        x.len() == 16,
        y.len() == 16,
    ensures
        bits_to_nat(alu_bits(x, y, Bit::O, Bit::O, Bit::I, Bit::I, Bit::I, Bit::I)) == (65536 - bits_to_nat(
            x,
        )) % 65536,
        bits_to_nat(alu_bits(x, y, Bit::I, Bit::I, Bit::O, Bit::O, Bit::I, Bit::I)) == (65536 - bits_to_nat(
            y,
        )) % 65536,
{
    let ones = fill(16, Bit::I);
    lemma_ones();
    lemma2_to64();
    crate::bit::lemma_bits_to_nat_bound(x);
    crate::bit::lemma_bits_to_nat_bound(y);
    lemma_add_bits_value(x, ones);
    lemma_not16_value(add_bits(x, ones));
    lemma_add_bits_value(ones, y);
    lemma_not16_value(add_bits(ones, y));
}

proof fn lemma_alu_successors(x: Seq<Bit>, y: Seq<Bit>)
    requires
        x.len() == 16,
        y.len() == 16,
    ensures
        bits_to_nat(alu_bits(x, y, Bit::O, Bit::I, Bit::I, Bit::I, Bit::I, Bit::I)) == (bits_to_nat(x) + 1)
            % 65536,
        bits_to_nat(alu_bits(x, y, Bit::I, Bit::I, Bit::O, Bit::I, Bit::I, Bit::I)) == (bits_to_nat(y) + 1)
            % 65536,
{
    let ones = fill(16, Bit::I);
    let nx = not_bits(x);
    let ny = not_bits(y);
    lemma_ones();
    lemma2_to64();
    crate::bit::lemma_bits_to_nat_bound(x);
    crate::bit::lemma_bits_to_nat_bound(y);
    lemma_not16_value(x);
    lemma_not16_value(y);
    lemma_add_bits_value(nx, ones);
    lemma_not16_value(add_bits(nx, ones));
    lemma_add_bits_value(ones, ny);
    lemma_not16_value(add_bits(ones, ny));
}

proof fn lemma_alu_predecessors(x: Seq<Bit>, y: Seq<Bit>)
    requires
        x.len() == 16,
        y.len() == 16,
    ensures
        bits_to_nat(alu_bits(x, y, Bit::O, Bit::O, Bit::I, Bit::I, Bit::I, Bit::O)) == (bits_to_nat(x)
            + 65535) % 65536,
        bits_to_nat(alu_bits(x, y, Bit::I, Bit::I, Bit::O, Bit::O, Bit::I, Bit::O)) == (bits_to_nat(y)
            + 65535) % 65536,
{
    let ones = fill(16, Bit::I);
    lemma_ones();
    lemma_add_bits_value(x, ones);
    lemma_add_bits_value(ones, y);
}

proof fn lemma_alu_sums(x: Seq<Bit>, y: Seq<Bit>)
    requires
        x.len() == 16,
        y.len() == 16,
    ensures
        bits_to_nat(alu_bits(x, y, Bit::O, Bit::O, Bit::O, Bit::O, Bit::I, Bit::O)) == (bits_to_nat(x)
            + bits_to_nat(y)) % 65536,
        bits_to_nat(alu_bits(x, y, Bit::O, Bit::I, Bit::O, Bit::O, Bit::I, Bit::I)) == (bits_to_nat(x) + 65536
            - bits_to_nat(y)) % 65536,
        bits_to_nat(alu_bits(x, y, Bit::O, Bit::O, Bit::O, Bit::I, Bit::I, Bit::I)) == (bits_to_nat(y) + 65536
            - bits_to_nat(x)) % 65536,
{
    let nx = not_bits(x);
    let ny = not_bits(y);
    lemma2_to64();
    crate::bit::lemma_bits_to_nat_bound(x);
    crate::bit::lemma_bits_to_nat_bound(y);
    lemma_not16_value(x);
    lemma_not16_value(y);
    lemma_add_bits_value(x, y);
    lemma_add_bits_value(nx, y);
    lemma_not16_value(add_bits(nx, y));
    lemma_add_bits_value(x, ny);
    lemma_not16_value(add_bits(x, ny));
}

proof fn lemma_alu_logic(x: Seq<Bit>, y: Seq<Bit>)
    requires
        x.len() == 16,
        y.len() == 16,
    ensures
        alu_bits(x, y, Bit::O, Bit::O, Bit::O, Bit::O, Bit::O, Bit::O) == and_bits(x, y),
        alu_bits(x, y, Bit::O, Bit::I, Bit::O, Bit::I, Bit::O, Bit::I) == or_bits(x, y),
{
    assert(not_bits(and_bits(not_bits(x), not_bits(y))) =~= or_bits(x, y));
}

/// `I` where every bit of `out` is `O`.
pub open spec fn zero_flag(out: Seq<Bit>) -> Bit {
    if out == fill(out.len(), Bit::O) {
        Bit::I
    } else {
        Bit::O
    }
}

/// The arithmetic-logic unit.
pub struct ALU {
    pub out: SharedBus<16>,
    pub zr: SharedBus<1>,
    pub ng: SharedBus<1>,
    zero_x: SharedBus<16>,
    zero_y: SharedBus<16>,
    mux1: Mux<16>,
    mux2: Mux<16>,
    not1: Not<16>,
    mux3: Mux<16>,
    not2: Not<16>,
    mux4: Mux<16>,
    and1: And<16>,
    add1: Add16,
    mux5: Mux<16>,
    not3: Not<16>,
    mux6: Mux<16>,
    or8way1: Or8Way,
    or8way2: Or8Way,
    or1: Or<1>,
    not4: Not<1>,
}

impl ALU {
    #[verifier::spinoff_prover]
    pub fn new(
        x: SharedBus<16>,
        y: SharedBus<16>,
        zx: SharedBus<1>,
        nx: SharedBus<1>,
        zy: SharedBus<1>,
        ny: SharedBus<1>,
        f: SharedBus<1>,
        no: SharedBus<1>,
        wires: &mut Wires,
    ) -> (r: ALU)
        requires
            x.below(old(wires)@.len()),
            y.below(old(wires)@.len()),
            zx.below(old(wires)@.len()),
            nx.below(old(wires)@.len()),
            zy.below(old(wires)@.len()),
            ny.below(old(wires)@.len()),
            f.below(old(wires)@.len()),
            no.below(old(wires)@.len()),
        ensures
            r.wired(),
            r.x() == x,
            r.y() == y,
            r.zx() == zx,
            r.nx() == nx,
            r.zy() == zy,
            r.ny() == ny,
            r.f() == f,
            r.no() == no,
            r.span() == Span::added(*old(wires), *final(wires)),
            grown(*old(wires), *final(wires)),
            r.out().value(final(wires)@) == fill(16, Bit::O),
            r.zr().value(final(wires)@) == fill(1, Bit::O),
            r.ng().value(final(wires)@) == fill(1, Bit::O),
    {
        broadcast use {group_build, lemma_not_ports, lemma_and_ports, lemma_or_ports, lemma_mux_ports, lemma_or8way_ports, lemma_add16_ports};

        let zero_x = Bus::all0(wires).to_shared_bus();
        let mux1 = Mux::new(x, zero_x, zx, wires);
        let zero_y = Bus::all0(wires).to_shared_bus();
        let mux2 = Mux::new(y, zero_y, zy, wires);

        let not1 = Not::new(mux1.get_out(), wires);
        let mux3 = Mux::new(mux1.get_out(), not1.get_out(), nx, wires);

        let not2 = Not::new(mux2.get_out(), wires);
        let mux4 = Mux::new(mux2.get_out(), not2.get_out(), ny, wires);

        let and1 = And::new(mux3.get_out(), mux4.get_out(), wires);
        let add1 = Add16::new(mux3.get_out(), mux4.get_out(), wires);
        let mux5 = Mux::new(and1.get_out(), add1.get_out(), f, wires);

        let not3 = Not::new(mux5.get_out(), wires);
        let mux6 = Mux::new(mux5.get_out(), not3.get_out(), no, wires);

        let or8way1 = Or8Way::new(mux6.get_out().reconnect([0, 1, 2, 3, 4, 5, 6, 7]), wires);
        let or8way2 = Or8Way::new(mux6.get_out().reconnect([8, 9, 10, 11, 12, 13, 14, 15]), wires);
        let or1 = Or::new(or8way1.get_out(), or8way2.get_out(), wires);
        let not4 = Not::new(or1.get_out(), wires);

        let ng = Bus::new([mux6.get_out().get_shared_bit(15)]).to_shared_bus();

        let r = ALU {
            out: mux6.get_out(),
            zr: not4.get_out(),
            ng,
            zero_x,
            zero_y,
            mux1,
            mux2,
            not1,
            mux3,
            not2,
            mux4,
            and1,
            add1,
            mux5,
            not3,
            mux6,
            or8way1,
            or8way2,
            or1,
            not4,
        };
        proof {
            reveal(ALU::wiring);
            assert(r.ng.value(wires@) =~= fill(1, Bit::O)) by {
                assert(r.out.value(wires@)[15] == Bit::O);
            }
        }
        r
    }

    /// The parts are connected as an arithmetic-logic unit.
    #[verifier::opaque]
    pub closed spec fn wiring(&self) -> bool {
        &&& self.mux1.wired()
        &&& self.mux2.wired()
        &&& self.not1.wired()
        &&& self.mux3.wired()
        &&& self.not2.wired()
        &&& self.mux4.wired()
        &&& self.and1.wired()
        &&& self.add1.wired()
        &&& self.mux5.wired()
        &&& self.not3.wired()
        &&& self.mux6.wired()
        &&& self.or8way1.wired()
        &&& self.or8way2.wired()
        &&& self.or1.wired()
        &&& self.not4.wired()
        &&& self.zero_x.within(self.zero_x.0.bits[0] as nat, (self.zero_x.0.bits[0] + 16) as nat)
        &&& self.zero_x.0.bits[0] + 16 <= self.mux1.span().lo
        &&& self.mux1.span().wlo <= self.mux1.span().whi <= self.mux2.span().wlo
        &&& self.mux1.span().hi <= self.zero_y.0.bits[0]
        &&& self.zero_y.within(self.zero_y.0.bits[0] as nat, (self.zero_y.0.bits[0] + 16) as nat)
        &&& self.zero_y.0.bits[0] + 16 <= self.mux2.span().lo
        &&& self.mux2.span().before(self.not1.span())
        &&& self.not1.span().before(self.mux3.span())
        &&& self.mux3.span().before(self.not2.span())
        &&& self.not2.span().before(self.mux4.span())
        &&& self.mux4.span().before(self.and1.span())
        &&& self.and1.span().before(self.add1.span())
        &&& self.add1.span().before(self.mux5.span())
        &&& self.mux5.span().before(self.not3.span())
        &&& self.not3.span().before(self.mux6.span())
        &&& self.mux6.span().before(self.or8way1.span())
        &&& self.or8way1.span().before(self.or8way2.span())
        &&& self.or8way2.span().before(self.or1.span())
        &&& self.or1.span().before(self.not4.span())
        &&& self.x().below(self.zero_x.0.bits[0] as nat)
        &&& self.y().below(self.zero_x.0.bits[0] as nat)
        &&& self.zx().below(self.zero_x.0.bits[0] as nat)
        &&& self.nx().below(self.zero_x.0.bits[0] as nat)
        &&& self.zy().below(self.zero_x.0.bits[0] as nat)
        &&& self.ny().below(self.zero_x.0.bits[0] as nat)
        &&& self.f().below(self.zero_x.0.bits[0] as nat)
        &&& self.no().below(self.zero_x.0.bits[0] as nat)
        &&& self.mux1.b() == self.zero_x
        &&& self.mux2.b() == self.zero_y
        &&& self.not1.input() == self.mux1.out()
        &&& self.mux3.a() == self.mux1.out()
        &&& self.mux3.b() == self.not1.out()
        &&& self.not2.input() == self.mux2.out()
        &&& self.mux4.a() == self.mux2.out()
        &&& self.mux4.b() == self.not2.out()
        &&& self.and1.a() == self.mux3.out()
        &&& self.and1.b() == self.mux4.out()
        &&& self.add1.a() == self.mux3.out()
        &&& self.add1.b() == self.mux4.out()
        &&& self.mux5.a() == self.and1.out()
        &&& self.mux5.b() == self.add1.out()
        &&& self.not3.input() == self.mux5.out()
        &&& self.mux6.a() == self.mux5.out()
        &&& self.mux6.b() == self.not3.out()
        &&& forall|k: int| 0 <= k < 8 ==> #[trigger] self.or8way1.input().0.bits[k] == self.out().0.bits[k]
        &&& forall|k: int|
            0 <= k < 8 ==> #[trigger] self.or8way2.input().0.bits[k] == self.out().0.bits[k + 8]
        &&& self.or8way2.input().below(self.mux6.span().hi)
        &&& self.or1.a() == self.or8way1.out()
        &&& self.or1.b() == self.or8way2.out()
        &&& self.not4.input() == self.or1.out()
        &&& self.out() == self.mux6.out()
        &&& self.zr() == self.not4.out()
        &&& self.ng().0.bits[0] == self.out().0.bits[15]
    }

    /// The input bus `x`.
    pub closed spec fn x(&self) -> SharedBus<16> {
        self.mux1.a()
    }

    /// The input bus `y`.
    pub closed spec fn y(&self) -> SharedBus<16> {
        self.mux2.a()
    }

    /// The input bus `zx`.
    pub closed spec fn zx(&self) -> SharedBus<1> {
        self.mux1.sel()
    }

    /// The input bus `nx`.
    pub closed spec fn nx(&self) -> SharedBus<1> {
        self.mux3.sel()
    }

    /// The input bus `zy`.
    pub closed spec fn zy(&self) -> SharedBus<1> {
        self.mux2.sel()
    }

    /// The input bus `ny`.
    pub closed spec fn ny(&self) -> SharedBus<1> {
        self.mux4.sel()
    }

    /// The input bus `f`.
    pub closed spec fn f(&self) -> SharedBus<1> {
        self.mux5.sel()
    }

    /// The input bus `no`.
    pub closed spec fn no(&self) -> SharedBus<1> {
        self.mux6.sel()
    }
}

impl Gate for ALU {
    closed spec fn wired(&self) -> bool {
        self.wiring()
    }

    closed spec fn span(&self) -> Span {
        Span {
            lo: self.zero_x.0.bits[0] as nat,
            hi: self.not4.span().hi,
            wlo: self.mux1.span().wlo,
            whi: self.not4.span().whi,
        }
    }

    open spec fn clocked(&self) -> bool {
        false
    }

    fn re_compute(&self, wires: &mut Wires)
        ensures
            self.out().value(final(wires)@) == alu_bits(
                self.x().value(old(wires)@),
                self.y().value(old(wires)@),
                self.zx().value(old(wires)@)[0],
                self.nx().value(old(wires)@)[0],
                self.zy().value(old(wires)@)[0],
                self.ny().value(old(wires)@)[0],
                self.f().value(old(wires)@)[0],
                self.no().value(old(wires)@)[0],
            ),
            self.zr().value(final(wires)@) == fill(1, zero_flag(self.out().value(final(wires)@))),
            self.ng().value(final(wires)@) == fill(1, self.out().value(final(wires)@)[15]),
    {
        broadcast use {group_run, lemma_not_ports, lemma_and_ports, lemma_or_ports, lemma_mux_ports, lemma_or8way_ports, lemma_add16_ports};

        proof {
            reveal(ALU::wiring);
        }
        self.settle_operands(wires);
        self.settle_result(wires);
        self.settle_flags(wires);
    }
}

impl ALU {
    /// The cells of the first stage: the two constants and the gates that
    /// prepare the operands.
    pub closed spec fn operand_span(&self) -> Span {
        Span {
            lo: self.zero_x.0.bits[0] as nat,
            hi: self.mux4.span().hi,
            wlo: self.mux1.span().wlo,
            whi: self.mux4.span().whi,
        }
    }

    /// First stage: the operands after zeroing and complementing.
    #[verifier::spinoff_prover]
    fn settle_operands(&self, wires: &mut Wires)
        requires
            self.wired(),
            self.span().fits(*old(wires)),
        ensures
            framed(*old(wires), *final(wires), self.operand_span()),
            final(wires).mem() == old(wires).mem(),
            self.mux3.out().value(final(wires)@) == alu_operand(
                self.x().value(old(wires)@),
                self.zx().value(old(wires)@)[0],
                self.nx().value(old(wires)@)[0],
            ),
            self.mux4.out().value(final(wires)@) == alu_operand(
                self.y().value(old(wires)@),
                self.zy().value(old(wires)@)[0],
                self.ny().value(old(wires)@)[0],
            ),
    {
        broadcast use {group_run, lemma_not_ports, lemma_and_ports, lemma_or_ports, lemma_mux_ports, lemma_or8way_ports, lemma_add16_ports};

        proof {
            reveal(ALU::wiring);
        }
        let ghost w0 = *wires;
        self.zero_x.drive(Bit::O, wires);
        let ghost w1 = *wires;
        self.zero_y.drive(Bit::O, wires);
        let ghost w2 = *wires;
        proof {
            let lx = self.zero_x.0.bits[0] as nat;
            let ly = self.zero_y.0.bits[0] as nat;
            assert(framed(w0, w1, Span { lo: lx, hi: lx + 16, wlo: 0, whi: 0 }));
            assert(framed(w1, w2, Span { lo: ly, hi: ly + 16, wlo: 0, whi: 0 }));
        }
        self.mux1.re_compute(wires);
        self.mux2.re_compute(wires);
        self.not1.re_compute(wires);
        self.mux3.re_compute(wires);
        self.not2.re_compute(wires);
        self.mux4.re_compute(wires);
    }

    /// Second stage: the function of the two operands.
    #[verifier::spinoff_prover]
    fn settle_result(&self, wires: &mut Wires)
        requires
            self.wired(),
            self.span().fits(*old(wires)),
        ensures
            framed(*old(wires), *final(wires), self.and1.span().through(self.mux6.span())),
            final(wires).mem() == old(wires).mem(),
            self.out().value(final(wires)@) == alu_combine(
                self.mux3.out().value(old(wires)@),
                self.mux4.out().value(old(wires)@),
                self.f().value(old(wires)@)[0],
                self.no().value(old(wires)@)[0],
            ),
    {
        broadcast use {group_run, lemma_not_ports, lemma_and_ports, lemma_or_ports, lemma_mux_ports, lemma_or8way_ports, lemma_add16_ports};

        proof {
            reveal(ALU::wiring);
        }
        let ghost x2 = self.mux3.out().value(wires@);
        let ghost y2 = self.mux4.out().value(wires@);
        self.and1.re_compute(wires);
        self.add1.re_compute(wires);
        proof {
            lemma_bits_of_value(self.add1.out().value(wires@));
            lemma2_to64();
            assert(self.add1.out().value(wires@) == add_bits(x2, y2));
        }
        self.mux5.re_compute(wires);
        self.not3.re_compute(wires);
        self.mux6.re_compute(wires);
    }

    /// Third stage: the two flags of the result.
    #[verifier::spinoff_prover]
    fn settle_flags(&self, wires: &mut Wires)
        requires
            self.wired(),
            self.span().fits(*old(wires)),
        ensures
            framed(*old(wires), *final(wires), self.or8way1.span().through(self.not4.span())),
            final(wires).mem() == old(wires).mem(),
            self.out().value(final(wires)@) == self.out().value(old(wires)@),
            self.zr().value(final(wires)@) == fill(1, zero_flag(self.out().value(old(wires)@))),
            self.ng().value(final(wires)@) == fill(1, self.out().value(old(wires)@)[15]),
    {
        broadcast use {group_run, lemma_not_ports, lemma_and_ports, lemma_or_ports, lemma_mux_ports, lemma_or8way_ports, lemma_add16_ports};

        proof {
            reveal(ALU::wiring);
        }
        let ghost out = self.out().value(wires@);
        let ghost w3 = *wires;
        self.or8way1.re_compute(wires);
        self.or8way2.re_compute(wires);
        self.or1.re_compute(wires);
        self.not4.re_compute(wires);
        proof {
            let low = self.or8way1.input().value(w3@);
            let high = self.or8way2.input().value(w3@);
            assert(self.out().value(wires@) == out);
            assert forall|k: int| 0 <= k < 8 implies low[k] == out[k] && high[k] == out[k + 8] by {
                assert(self.or8way1.input().0.bits[k] == self.out().0.bits[k]);
                assert(self.or8way2.input().0.bits[k] == self.out().0.bits[k + 8]);
            }
            if out == fill(16, Bit::O) {
                assert(or_way(low) == Bit::O);
                assert(or_way(high) == Bit::O);
            } else {
                if or_way(low) == Bit::O && or_way(high) == Bit::O {
                    assert forall|i: int| 0 <= i < 16 implies out[i] == Bit::O by {
                        if i < 8 {
                            assert(low[i] == Bit::O);
                        } else {
                            assert(high[i - 8] == Bit::O);
                        }
                    }
                    assert(out =~= fill(16, Bit::O));
                }
            }
            assert(self.zr().value(wires@) =~= fill(1, zero_flag(out)));
            assert(self.ng().value(wires@) =~= fill(1, out[15]));
        }
    }
}

/// What a caller may rely on of a wired arithmetic-logic unit.
pub broadcast proof fn lemma_alu_ports(g: ALU)
    requires
        #[trigger] g.wired(),
    ensures
        g.span().lo <= g.span().hi,
        g.span().wlo <= g.span().whi,
        g.out().within(g.span().lo, g.span().hi),
        g.zr().within(g.span().lo, g.span().hi),
        g.ng().within(g.span().lo, g.span().hi),
        g.x().below(g.span().lo),
        g.y().below(g.span().lo),
        g.zx().below(g.span().lo),
        g.nx().below(g.span().lo),
        g.zy().below(g.span().lo),
        g.ny().below(g.span().lo),
        g.f().below(g.span().lo),
        g.no().below(g.span().lo),
{
    broadcast use {lemma_not_ports, lemma_and_ports, lemma_or_ports, lemma_mux_ports, lemma_or8way_ports, lemma_add16_ports};

    broadcast use {crate::bus::lemma_extent_single, lemma_not_ports, lemma_and_ports, lemma_or_ports, lemma_mux_ports, lemma_or8way_ports, lemma_add16_ports};

    reveal(ALU::wiring);
    lemma_extent(g.out(), 15);
}

impl ALU {
    /// The output bus `out`.
    pub closed spec fn out(&self) -> SharedBus<16> {
        self.out
    }

    /// The output bus `zr`.
    pub closed spec fn zr(&self) -> SharedBus<1> {
        self.zr
    }

    /// The output bus `ng`.
    pub closed spec fn ng(&self) -> SharedBus<1> {
        self.ng
    }

    /// The bus `out`, to wire it on.
    pub fn get_out(&self) -> (r: SharedBus<16>)
        ensures
            r == self.out(),
    {
        self.out
    }

    /// The bus `zr`, to wire it on.
    pub fn get_zr(&self) -> (r: SharedBus<1>)
        ensures
            r == self.zr(),
    {
        self.zr
    }

    /// The bus `ng`, to wire it on.
    pub fn get_ng(&self) -> (r: SharedBus<1>)
        ensures
            r == self.ng(),
    {
        self.ng
    }
}

} // verus!
