//! Adders and the arithmetic-logic unit.
pub use crate::add16::Add16;
pub use crate::alu::ALU;
pub use crate::full_adder::FullAdder;
pub use crate::half_adder::HalfAdder;
pub use crate::inc16::Inc16;
