//! Capabilities the driver needs from its surroundings.
//!
//! The driver is generic over these traits; an implementation binds them to a
//! concrete bus, pin and timer. Each trait exposes a ghost trace of the
//! requests made of it, and each method's contract says exactly how one call
//! extends that trace. A fallible call that fails leaves the trace unchanged:
//! sends succeed or fail atomically, partial writes are not an outcome.

use vstd::prelude::*;
use crate::trace::BusEvent;
use crate::trace::PinLevel;

verus! {

/// A write-only command/data bus to the display controller.
///
/// The transport hides the physical topology (parallel bus, or SPI with a
/// data/command select line and optional chip select). For every call it must
/// select the device, put the line in the named context, send the bytes, and
/// deselect — so each event stands alone and commands are never batched.
pub trait BusTransport {
    /// The cause a failed transfer reports; the driver treats it as opaque.
    type Error;

    /// The transfers requested so far. The default stands for an
    /// implementation that keeps no ghost log, such as a hardware adapter
    /// outside the verified world: its trace stays empty. A recording
    /// implementation overrides it.
    open spec fn trace(&self) -> Seq<BusEvent> {
        Seq::empty()
    }

    /// Sends `bytes` in command context.
    fn send_command(&mut self, bytes: &[u8]) -> (r: Result<(), Self::Error>)
        ensures
            r is Ok ==> final (self).trace() == old(self).trace().push(
                BusEvent::Command(bytes@),
            ),
            r is Err ==> final (self).trace() == old(self).trace(),
    ;

    /// Sends `bytes` in data context.
    fn send_data(&mut self, bytes: &[u8]) -> (r: Result<(), Self::Error>)
        ensures
            r is Ok ==> final (self).trace() == old(self).trace().push(BusEvent::Data(bytes@)),
            r is Err ==> final (self).trace() == old(self).trace(),
    ;
}

/// A digital output wired to the controller's reset input.
pub trait ResetLine {
    /// The cause a failed pin operation reports.
    type Error;

    /// The levels driven so far. The default stands for an implementation
    /// that keeps no ghost log; a recording implementation overrides it.
    open spec fn trace(&self) -> Seq<PinLevel> {
        Seq::empty()
    }

    /// Drives the line high.
    fn set_high(&mut self) -> (r: Result<(), Self::Error>)
        ensures
            r is Ok ==> final (self).trace() == old(self).trace().push(PinLevel::High),
            r is Err ==> final (self).trace() == old(self).trace(),
    ;

    /// Drives the line low.
    fn set_low(&mut self) -> (r: Result<(), Self::Error>)
        ensures
            r is Ok ==> final (self).trace() == old(self).trace().push(PinLevel::Low),
            r is Err ==> final (self).trace() == old(self).trace(),
    ;
}

/// A blocking microsecond delay.
pub trait DelayProvider {
    /// The waits requested so far, in microseconds. A provider may wait
    /// longer than asked, never shorter. The default stands for an
    /// implementation that keeps no ghost log; a recording implementation
    /// overrides it.
    open spec fn trace(&self) -> Seq<u32> {
        Seq::empty()
    }

    /// Blocks for at least `us` microseconds.
    fn delay_us(&mut self, us: u32)
        ensures
            final (self).trace() == old(self).trace().push(us),
    ;
}

} // verus!
