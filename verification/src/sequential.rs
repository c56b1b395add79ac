//! Clocked elements: the flip-flop, the registers, the memories and the
//! program counter.
pub use crate::builtin::RAM16KBuiltIn;
pub use crate::dff::DFF;
pub use crate::one_bit_register::OneBitRegister;
pub use crate::pc::PC;
pub use crate::ram::{RAM16K, RAM4K, RAM512, RAM64, RAM8};
pub use crate::register::Register;
