//! A gate-level simulator of the Hack computer.
//!
//! Every circuit is a network of NAND gates and edge-triggered flip-flops.
//! The values on the wires live in one store, [`wires::Wires`]; a gate is an
//! immutable description of which cells it reads and which it drives. Two
//! bus positions that hold the same handle are the same wire, so that
//! circuits are composed by handing buses on.
//!
//! A clock cycle has two halves. A tick settles the combinational part and
//! gives the rising edge, at which every flip-flop samples its input. A tock
//! gives the falling edge, at which every flip-flop publishes what it
//! sampled, and settles again.
//!
//! Every gate owns the cells that were added to the store when it was
//! built, its span, and never writes outside it. The contract of each
//! operation says what the outputs carry afterwards, as a function of what
//! the inputs and the stored state were before. The laws of the clocked
//! elements and of the whole computer are proof functions next to them.
//!
//! The modules [`gate`], [`arithmetic`], [`sequential`] and [`computer`]
//! gather the types by kind; each type lives in a module of its own.
pub mod bit;
pub mod wires;
pub mod bus;
pub mod gate;
pub mod nand;
pub mod not;
pub mod and;
pub mod or;
pub mod xor;
pub mod mux;
pub mod dmux;
pub mod or8way;
pub mod mux4way16;
pub mod mux8way16;
pub mod dmux4way;
pub mod dmux8way;
pub mod half_adder;
pub mod full_adder;
pub mod add16;
pub mod inc16;
pub mod alu;
pub mod dff;
pub mod one_bit_register;
pub mod register;
pub mod store;
pub mod bank;
pub mod bank4;
pub mod ram;
pub mod pc;
pub mod builtin;
pub mod memory;
pub mod decode;
pub mod jump;
pub mod cpu;
pub mod computer;
pub mod rom_text;
pub mod arithmetic;
pub mod sequential;
