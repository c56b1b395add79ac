//! Bits, and the Boolean functions that the gates are specified with.
use vstd::prelude::*;
use vstd::arithmetic::power2::{pow2, lemma_pow2_adds, lemma_pow2_pos, lemma_pow2_unfold, lemma2_to64};
use vstd::arithmetic::div_mod::{lemma_mod_breakdown, lemma_small_mod};

verus! {

/// One binary digit: `O` is 0 and `I` is 1.
#[derive(Clone, Copy, PartialEq, Eq, Structural, Debug)]
pub enum Bit {
    O,
    I,
}

/// NAND of two bits: `O` exactly when both are `I`.
pub open spec fn bit_nand(a: Bit, b: Bit) -> Bit {
    if a == Bit::I && b == Bit::I {
        Bit::O
    } else {
        Bit::I
    }
}

pub open spec fn bit_not(a: Bit) -> Bit {
    if a == Bit::I {
        Bit::O
    } else {
        Bit::I
    }
}

pub open spec fn bit_and(a: Bit, b: Bit) -> Bit {
    if a == Bit::I && b == Bit::I {
        Bit::I
    } else {
        Bit::O
    }
}

pub open spec fn bit_or(a: Bit, b: Bit) -> Bit {
    if a == Bit::I || b == Bit::I {
        Bit::I
    } else {
        Bit::O
    }
}

pub open spec fn bit_xor(a: Bit, b: Bit) -> Bit {
    if a == b {
        Bit::O
    } else {
        Bit::I
    }
}

/// NAND is `I` unless both inputs are `I`, and every other function of the
/// gates is what its network of NANDs computes: NOT from one NAND, AND from
/// two, OR from three, XOR from four; the multiplexer picks `b` where `sel`
/// is `I`, and the demultiplexer sends its input to the one output that
/// `sel` names.
pub proof fn lemma_truth_tables(a: Bit, b: Bit, sel: Bit)
    ensures
        bit_nand(a, b) == Bit::I <==> !(a == Bit::I && b == Bit::I),
        bit_not(a) == bit_nand(a, a),
        bit_and(a, b) == bit_nand(bit_nand(a, b), bit_nand(a, b)),
        bit_or(a, b) == bit_nand(bit_nand(a, a), bit_nand(b, b)),
        bit_xor(a, b) == bit_nand(bit_nand(a, bit_nand(a, b)), bit_nand(b, bit_nand(a, b))),
        bit_or(bit_and(bit_not(sel), a), bit_and(sel, b)) == (if sel == Bit::I {
            b
        } else {
            a
        }),
        bit_and(bit_not(sel), a) == (if sel == Bit::O {
            a
        } else {
            Bit::O
        }),
        bit_and(sel, a) == (if sel == Bit::I {
            a
        } else {
            Bit::O
        }),
{
}

/// `n` copies of `b`.
pub open spec fn fill(n: nat, b: Bit) -> Seq<Bit> {
    Seq::new(n, |i: int| b)
}

/// Bitwise NAND of two sequences of the same length.
pub open spec fn nand_bits(a: Seq<Bit>, b: Seq<Bit>) -> Seq<Bit> {
    Seq::new(a.len(), |i: int| bit_nand(a[i], b[i]))
}

pub open spec fn not_bits(a: Seq<Bit>) -> Seq<Bit> {
    Seq::new(a.len(), |i: int| bit_not(a[i]))
}

pub open spec fn and_bits(a: Seq<Bit>, b: Seq<Bit>) -> Seq<Bit> {
    Seq::new(a.len(), |i: int| bit_and(a[i], b[i]))
}

pub open spec fn or_bits(a: Seq<Bit>, b: Seq<Bit>) -> Seq<Bit> {
    Seq::new(a.len(), |i: int| bit_or(a[i], b[i]))
}

pub open spec fn xor_bits(a: Seq<Bit>, b: Seq<Bit>) -> Seq<Bit> {
    Seq::new(a.len(), |i: int| bit_xor(a[i], b[i]))
}

/// 1 for `I`, 0 for `O`.
pub open spec fn bit_nat(b: Bit) -> nat {
    if b == Bit::I {
        1
    } else {
        0
    }
}

/// The number that a sequence of bits spells, the first bit being the least
/// significant: the sum of `2^i` over the positions `i` that hold `I`.
pub open spec fn bits_to_nat(s: Seq<Bit>) -> nat
    decreases s.len(),
{
    if s.len() == 0 {
        0
    } else {
        bits_to_nat(s.drop_last()) + if s.last() == Bit::I {
            pow2((s.len() - 1) as nat)
        } else {
            0
        }
    }
}

/// A sequence of `n` bits spells a number below `2^n`.
pub proof fn lemma_bits_to_nat_bound(s: Seq<Bit>)
    ensures
        bits_to_nat(s) < pow2(s.len()),
    decreases s.len(),
{
    if s.len() == 0 {
        lemma_pow2_pos(0);
    } else {
        lemma_bits_to_nat_bound(s.drop_last());
        lemma_pow2_unfold(s.len());
    }
}

/// The first `k` bits of a sequence spell no more than the whole.
pub proof fn lemma_bits_to_nat_prefix(s: Seq<Bit>, k: int)
    requires
        0 <= k <= s.len(),
    ensures
        bits_to_nat(s.take(k)) <= bits_to_nat(s),
    decreases s.len(),
{
    if k == s.len() {
        assert(s.take(k) =~= s);
    } else {
        lemma_bits_to_nat_prefix(s.drop_last(), k);
        assert(s.drop_last().take(k) =~= s.take(k));
    }
}

/// The first `k + 1` bits spell what the first `k` spell, plus the weight
/// of bit `k`.
pub proof fn lemma_bits_to_nat_step(s: Seq<Bit>, k: int)
    requires
        0 <= k < s.len(),
    ensures
        bits_to_nat(s.take(k + 1)) == bits_to_nat(s.take(k)) + if s[k] == Bit::I {
            pow2(k as nat)
        } else {
            0
        },
{
    assert(s.take(k + 1).drop_last() =~= s.take(k));
}

/// `I` where some bit of `s` is `I`, else `O`.
pub open spec fn or_way(s: Seq<Bit>) -> Bit {
    if exists|i: int| 0 <= i < s.len() && s[i] == Bit::I {
        Bit::I
    } else {
        Bit::O
    }
}

/// Entry `n` of four; the last for any `n` above 2.
pub open spec fn pick4<T>(a: T, b: T, c: T, d: T, n: nat) -> T {
    if n == 0 {
        a
    } else if n == 1 {
        b
    } else if n == 2 {
        c
    } else {
        d
    }
}

/// Entry `n` of eight; the last for any `n` above 6.
pub open spec fn pick8<T>(a: T, b: T, c: T, d: T, e: T, f: T, g: T, h: T, n: nat) -> T {
    if n < 4 {
        pick4(a, b, c, d, n)
    } else {
        pick4(e, f, g, h, (n - 4) as nat)
    }
}

/// What output number `k` of a demultiplexer carries: the input where the
/// selector names `k`, else zeros.
pub open spec fn route(input: Seq<Bit>, sel: nat, k: nat) -> Seq<Bit> {
    if sel == k {
        input
    } else {
        fill(input.len(), Bit::O)
    }
}

/// One bit spells 0 or 1.
pub proof fn lemma_bits_to_nat_1(s: Seq<Bit>)
    requires
        s.len() == 1,
    ensures
        bits_to_nat(s) == bit_nat(s[0]),
{
    lemma2_to64();
    assert(s.take(0).len() == 0);
    assert(bits_to_nat(s.take(0)) == 0);
    lemma_bits_to_nat_step(s, 0);
    assert(s.take(1) =~= s);
}

/// Two bits spell `s[0] + 2 s[1]`.
pub proof fn lemma_bits_to_nat_2(s: Seq<Bit>)
    requires
        s.len() == 2,
    ensures
        bits_to_nat(s) == bit_nat(s[0]) + 2 * bit_nat(s[1]),
{
    lemma2_to64();
    lemma_bits_to_nat_1(s.take(1));
    lemma_bits_to_nat_step(s, 1);
    assert(s.take(2) =~= s);
}

/// Three bits spell `s[0] + 2 s[1] + 4 s[2]`.
pub proof fn lemma_bits_to_nat_3(s: Seq<Bit>)
    requires
        s.len() == 3,
    ensures
        bits_to_nat(s) == bit_nat(s[0]) + 2 * bit_nat(s[1]) + 4 * bit_nat(s[2]),
{
    lemma2_to64();
    lemma_bits_to_nat_2(s.take(2));
    lemma_bits_to_nat_step(s, 2);
    assert(s.take(2)[0] == s[0] && s.take(2)[1] == s[1]);
    assert(s.take(3) =~= s);
}

/// The low `n` binary digits of `v`, least significant first.
pub open spec fn nat_bits(n: nat, v: nat) -> Seq<Bit> {
    Seq::new(
        n,
        |i: int|
            if (v / pow2(i as nat)) % 2 == 1 {
                Bit::I
            } else {
                Bit::O
            },
    )
}

/// The sum of two numbers of the same width, cut to that width.
pub open spec fn add_bits(a: Seq<Bit>, b: Seq<Bit>) -> Seq<Bit> {
    nat_bits(a.len(), (bits_to_nat(a) + bits_to_nat(b)) % pow2(a.len()))
}

/// The low `n` digits of `v` spell `v mod 2^n`.
pub proof fn lemma_nat_bits_value(n: nat, v: nat)
    ensures
        bits_to_nat(nat_bits(n, v)) == v % pow2(n),
    decreases n,
{
    if n == 0 {
        lemma2_to64();
    } else {
        let m = (n - 1) as nat;
        lemma_nat_bits_value(m, v);
        assert(nat_bits(n, v).drop_last() =~= nat_bits(m, v));
        lemma_pow2_unfold(n);
        lemma_pow2_pos(m);
        lemma_mod_breakdown(v as int, pow2(m) as int, 2);
        let q = (v as int / pow2(m) as int) % 2;
        assert(pow2(m) * 2 == pow2(n));
        if q == 1 {
            assert(pow2(m) as int * q == pow2(m));
        } else {
            assert(q == 0);
            assert(pow2(m) as int * q == 0);
        }
    }
}

/// Two sequences of one length that spell one number are equal.
pub proof fn lemma_bits_to_nat_injective(s: Seq<Bit>, t: Seq<Bit>)
    requires
        s.len() == t.len(),
        bits_to_nat(s) == bits_to_nat(t),
    ensures
        s == t,
    decreases s.len(),
{
    if s.len() == 0 {
        assert(s =~= t);
    } else {
        lemma_bits_to_nat_bound(s.drop_last());
        lemma_bits_to_nat_bound(t.drop_last());
        lemma_bits_to_nat_injective(s.drop_last(), t.drop_last());
        assert(s =~= s.drop_last().push(s.last()));
        assert(t =~= t.drop_last().push(t.last()));
    }
}

/// A sequence of bits is the digits of the number that it spells.
pub proof fn lemma_bits_of_value(s: Seq<Bit>)
    ensures
        nat_bits(s.len(), bits_to_nat(s)) == s,
{
    lemma_nat_bits_value(s.len(), bits_to_nat(s));
    lemma_bits_to_nat_bound(s);
    lemma_small_mod(bits_to_nat(s), pow2(s.len()));
    lemma_bits_to_nat_injective(nat_bits(s.len(), bits_to_nat(s)), s);
}

/// A number and its bitwise complement add up to `2^n - 1`.
pub proof fn lemma_not_bits_value(s: Seq<Bit>)
    ensures
        bits_to_nat(not_bits(s)) + bits_to_nat(s) + 1 == pow2(s.len()),
    decreases s.len(),
{
    if s.len() == 0 {
        lemma2_to64();
    } else {
        lemma_not_bits_value(s.drop_last());
        assert(not_bits(s).drop_last() =~= not_bits(s.drop_last()));
        lemma_pow2_unfold(s.len());
    }
}

/// Zeros spell 0.
pub proof fn lemma_zeros_value(n: nat)
    ensures
        bits_to_nat(fill(n, Bit::O)) == 0,
    decreases n,
{
    if n > 0 {
        lemma_zeros_value((n - 1) as nat);
        assert(fill(n, Bit::O).drop_last() =~= fill((n - 1) as nat, Bit::O));
    }
}

/// Where every bit but the lowest is `O`, the number is the lowest bit.
pub proof fn lemma_low_bit_value(s: Seq<Bit>)
    requires
        s.len() >= 1,
        forall|i: int| 1 <= i < s.len() ==> s[i] == Bit::O,
    ensures
        bits_to_nat(s) == bit_nat(s[0]),
    decreases s.len(),
{
    if s.len() == 1 {
        lemma_bits_to_nat_1(s);
    } else {
        lemma_low_bit_value(s.drop_last());
    }
}

/// A number is its low `k` digits plus `2^k` times the rest.
pub proof fn lemma_bits_to_nat_split(s: Seq<Bit>, k: int)
    requires
        0 <= k <= s.len(),
    ensures
        bits_to_nat(s) == bits_to_nat(s.take(k)) + pow2(k as nat) * bits_to_nat(s.skip(k)),
    decreases s.len(),
{
    if k == s.len() {
        assert(s.take(k) =~= s);
        assert(s.skip(k).len() == 0);
        assert(pow2(k as nat) * bits_to_nat(s.skip(k)) == 0) by (nonlinear_arith)
            requires
                bits_to_nat(s.skip(k)) == 0,
        ;
    } else {
        let t = s.drop_last();
        lemma_bits_to_nat_split(t, k);
        assert(s.take(k) =~= t.take(k));
        assert(s.skip(k).drop_last() =~= t.skip(k));
        assert(s.skip(k).last() == s.last());
        let rest = (s.len() - 1 - k) as nat;
        lemma_pow2_adds(k as nat, rest);
        let x = bits_to_nat(t.skip(k));
        let p = pow2(k as nat);
        let q = pow2(rest);
        assert(p * (x + q) == p * x + p * q) by (nonlinear_arith);
    }
}

/// A memory after one write: word `addr` is `v` where `load` is `I`, and
/// the others are as before.
pub open spec fn written(c: Seq<Seq<Bit>>, load: Bit, addr: nat, v: Seq<Bit>) -> Seq<Seq<Bit>> {
    if load == Bit::I && addr < c.len() {
        c.update(addr as int, v)
    } else {
        c
    }
}

/// Banks of `m` words each, laid end to end: word `i` is word `i mod m`
/// of bank `i / m`.
pub open spec fn joined(banks: Seq<Seq<Seq<Bit>>>, m: nat) -> Seq<Seq<Bit>> {
    Seq::new(banks.len() * m, |i: int| banks[i / m as int][i % m as int])
}

/// Word `low` of bank `high` is word `low + m high` of the banks laid end
/// to end.
pub proof fn lemma_joined_index(banks: Seq<Seq<Seq<Bit>>>, m: nat, high: nat, low: nat)
    requires
        high < banks.len(),
        low < m,
    ensures
        low + m * high < banks.len() * m,
        joined(banks, m)[(low + m * high) as int] == banks[high as int][low as int],
{
    assert(m * high == high * m) by (nonlinear_arith);
    vstd::arithmetic::div_mod::lemma_fundamental_div_mod_converse(
        (low + m * high) as int,
        m as int,
        high as int,
        low as int,
    );
    assert(m * high + m <= banks.len() * m) by (nonlinear_arith)
        requires
            high + 1 <= banks.len(),
    ;
}

/// A write into the bank that the high part of the address names, at the
/// low part, is a write into the banks laid end to end at the whole address.
pub proof fn lemma_joined_written(
    banks: Seq<Seq<Seq<Bit>>>,
    after: Seq<Seq<Seq<Bit>>>,
    m: nat,
    load: Bit,
    high: nat,
    low: nat,
    v: Seq<Bit>,
)
    requires
        m > 0,
        after.len() == banks.len(),
        high < banks.len(),
        low < m,
        forall|k: int| 0 <= k < banks.len() ==> (#[trigger] banks[k]).len() == m,
        forall|k: int|
            0 <= k < banks.len() ==> #[trigger] after[k] == written(
                banks[k],
                if load == Bit::I && high == k {
                    Bit::I
                } else {
                    Bit::O
                },
                low,
                v,
            ),
    ensures
        joined(after, m) == written(joined(banks, m), load, low + m * high, v),
{
    let whole = joined(banks, m);
    let addr = low + m * high;
    lemma_joined_index(banks, m, high, low);
    assert forall|i: int| 0 <= i < whole.len() implies joined(after, m)[i] == written(whole, load, addr, v)[i] by {
        let k = i / m as int;
        let j = i % m as int;
        vstd::arithmetic::div_mod::lemma_fundamental_div_mod(i, m as int);
        vstd::arithmetic::div_mod::lemma_mod_bound(i, m as int);
        assert(0 <= k < banks.len()) by (nonlinear_arith)
            requires
                0 <= i < banks.len() * m,
                i == m * k + j,
                0 <= j < m,
        ;
        if i == addr {
            assert(m * high == high * m) by (nonlinear_arith);
            vstd::arithmetic::div_mod::lemma_fundamental_div_mod_converse(i, m as int, high as int, low as int);
        } else if k == high {
            assert(j != low);
        }
        assert(after[k] == written(
            banks[k],
            if load == Bit::I && high == k {
                Bit::I
            } else {
                Bit::O
            },
            low,
            v,
        ));
        assert(banks[k].len() == m);
    }
    assert(joined(after, m) =~= written(whole, load, addr, v));
}

} // verus!
