//! What all gates offer.
use vstd::prelude::*;
use crate::wires::{Span, Wires, framed};
pub use crate::and::And;
pub use crate::bit::Bit;
pub use crate::bus::{Bus, ParseBusStrError, SharedBus};
pub use crate::dmux::DMux;
pub use crate::dmux4way::DMux4Way;
pub use crate::dmux8way::DMux8Way;
pub use crate::mux::Mux;
pub use crate::mux4way16::Mux4Way16;
pub use crate::mux8way16::Mux8Way16;
pub use crate::nand::Nand;
pub use crate::not::Not;
pub use crate::or::Or;
pub use crate::or8way::Or8Way;
pub use crate::wires::SharedBit;
pub use crate::xor::Xor;

verus! {

/// What every gate offers: one step that settles its combinational part,
/// and the two edges of the clock.
///
/// A gate is a fixed wiring. Its three operations read and write the store
/// and never touch a cell outside its own span.
pub trait Gate {
    /// The wiring is sound: inputs come before this gate's own cells, and
    /// the parts are connected as its definition says.
    spec fn wired(&self) -> bool;

    /// The cells that this gate owns.
    spec fn span(&self) -> Span;

    /// This gate holds state that the clock moves.
    spec fn clocked(&self) -> bool;

    /// Recomputes the combinational outputs from the current inputs.
    fn re_compute(&self, wires: &mut Wires)
        requires
            self.wired(),
            self.span().fits(*old(wires)),
        ensures
            framed(*old(wires), *final(wires), self.span()),
            final(wires).mem() == old(wires).mem(),
    {
    }

    /// Rising edge: state elements sample their inputs.
    fn clock_up(&self, wires: &mut Wires)
        requires
            self.wired(),
            self.span().fits(*old(wires)),
        ensures
            framed(*old(wires), *final(wires), self.span()),
            !self.clocked() ==> final(wires)@ == old(wires)@ && final(wires).mem() == old(
                wires,
            ).mem(),
    {
    }

    /// Falling edge: state elements publish what they sampled.
    fn clock_down(&self, wires: &mut Wires)
        requires
            self.wired(),
            self.span().fits(*old(wires)),
        ensures
            framed(*old(wires), *final(wires), self.span()),
            !self.clocked() ==> final(wires)@ == old(wires)@ && final(wires).mem() == old(
                wires,
            ).mem(),
    {
    }
}

} // verus!
