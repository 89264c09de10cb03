//! Recording implementations of the driver's capabilities.
//!
//! These perform no I/O: each logs the requests made of it, so a test can
//! drive the engine and hold the log against the trace the contracts promise.
//! The flaky variants fail after a set number of requests, to exercise the
//! error paths.

use vstd::prelude::*;
use vstd::slice::slice_to_vec;
use crate::interface::BusTransport;
use crate::interface::DelayProvider;
use crate::interface::ResetLine;
use crate::trace::BusEvent;
use crate::trace::PinLevel;

verus! {

/// The context a recorded transfer used.
#[derive(Clone, Copy, PartialEq, Eq, Structural, Debug)]
pub enum BusKind {
    Command,
    Data,
}

/// One recorded bus transfer.
#[derive(Debug)]
pub struct BusRecord {
    pub kind: BusKind,
    pub bytes: Vec<u8>,
}

impl BusRecord {
    /// The event this record stands for.
    pub open spec fn event(&self) -> BusEvent {
        match self.kind {
            BusKind::Command => BusEvent::Command(self.bytes@),
            BusKind::Data => BusEvent::Data(self.bytes@),
        }
    }
}

/// A transport that records every transfer and never fails.
pub struct BusRecorder {
    pub log: Vec<BusRecord>,
}

impl BusRecorder {
    /// A recorder with an empty log.
    pub fn new() -> (r: Self)
        ensures
            r.trace() == Seq::<BusEvent>::empty(),
    {
        let r = BusRecorder { log: Vec::new() };
        proof {
            assert(r.trace() =~= Seq::<BusEvent>::empty());
        }
        r
    }
}

impl BusTransport for BusRecorder {
    type Error = ();

    open spec fn trace(&self) -> Seq<BusEvent> {
        self.log@.map_values(|rec: BusRecord| rec.event())
    }

    fn send_command(&mut self, bytes: &[u8]) -> (r: Result<(), ()>) {
        self.log.push(BusRecord { kind: BusKind::Command, bytes: slice_to_vec(bytes) });
        proof {
            assert(self.trace() =~= old(self).trace().push(BusEvent::Command(bytes@)));
        }
        Ok(())
    }

    fn send_data(&mut self, bytes: &[u8]) -> (r: Result<(), ()>) {
        self.log.push(BusRecord { kind: BusKind::Data, bytes: slice_to_vec(bytes) });
        proof {
            assert(self.trace() =~= old(self).trace().push(BusEvent::Data(bytes@)));
        }
        Ok(())
    }
}

/// A recording transport that accepts a set number of transfers and then
/// fails every further one.
pub struct FlakyBus {
    pub log: Vec<BusRecord>,
    pub successes_left: usize,
}

impl FlakyBus {
    /// A recorder that will accept `successes` transfers before failing.
    pub fn new(successes: usize) -> (r: Self)
        ensures
            r.trace() == Seq::<BusEvent>::empty(),
    {
        let r = FlakyBus { log: Vec::new(), successes_left: successes };
        proof {
            assert(r.trace() =~= Seq::<BusEvent>::empty());
        }
        r
    }
}

impl BusTransport for FlakyBus {
    type Error = ();

    open spec fn trace(&self) -> Seq<BusEvent> {
        self.log@.map_values(|rec: BusRecord| rec.event())
    }

    fn send_command(&mut self, bytes: &[u8]) -> (r: Result<(), ()>) {
        if self.successes_left == 0 {
            return Err(());
        }
        self.successes_left = self.successes_left - 1;
        self.log.push(BusRecord { kind: BusKind::Command, bytes: slice_to_vec(bytes) });
        proof {
            assert(self.trace() =~= old(self).trace().push(BusEvent::Command(bytes@)));
        }
        Ok(())
    }

    fn send_data(&mut self, bytes: &[u8]) -> (r: Result<(), ()>) {
        if self.successes_left == 0 {
            return Err(());
        }
        self.successes_left = self.successes_left - 1;
        self.log.push(BusRecord { kind: BusKind::Data, bytes: slice_to_vec(bytes) });
        proof {
            assert(self.trace() =~= old(self).trace().push(BusEvent::Data(bytes@)));
        }
        Ok(())
    }
}

/// A reset line that records every level driven and never fails.
pub struct PinRecorder {
    pub log: Vec<PinLevel>,
}

impl PinRecorder {
    /// A recorder with an empty log.
    pub fn new() -> (r: Self)
        ensures
            r.trace() == Seq::<PinLevel>::empty(),
    {
        PinRecorder { log: Vec::new() }
    }
}

impl ResetLine for PinRecorder {
    type Error = ();

    open spec fn trace(&self) -> Seq<PinLevel> {
        self.log@
    }

    fn set_high(&mut self) -> (r: Result<(), ()>) {
        self.log.push(PinLevel::High);
        Ok(())
    }

    fn set_low(&mut self) -> (r: Result<(), ()>) {
        self.log.push(PinLevel::Low);
        Ok(())
    }
}

/// A recording reset line that accepts a set number of level changes and
/// then fails every further one.
pub struct FlakyPin {
    pub log: Vec<PinLevel>,
    pub successes_left: usize,
}

impl FlakyPin {
    /// A recorder that will accept `successes` level changes before failing.
    pub fn new(successes: usize) -> (r: Self)
        ensures
            r.trace() == Seq::<PinLevel>::empty(),
    {
        FlakyPin { log: Vec::new(), successes_left: successes }
    }
}

impl ResetLine for FlakyPin {
    type Error = ();

    open spec fn trace(&self) -> Seq<PinLevel> {
        self.log@
    }

    fn set_high(&mut self) -> (r: Result<(), ()>) {
        if self.successes_left == 0 {
            return Err(());
        }
        self.successes_left = self.successes_left - 1;
        self.log.push(PinLevel::High);
        Ok(())
    }

    fn set_low(&mut self) -> (r: Result<(), ()>) {
        if self.successes_left == 0 {
            return Err(());
        }
        self.successes_left = self.successes_left - 1;
        self.log.push(PinLevel::Low);
        Ok(())
    }
}

/// A delay provider that records every requested wait and does not block.
pub struct DelayRecorder {
    pub log: Vec<u32>,
}

impl DelayRecorder {
    /// A recorder with an empty log.
    pub fn new() -> (r: Self)
        ensures
            r.trace() == Seq::<u32>::empty(),
    {
        DelayRecorder { log: Vec::new() }
    }
}

impl DelayProvider for DelayRecorder {
    open spec fn trace(&self) -> Seq<u32> {
        self.log@
    }

    fn delay_us(&mut self, us: u32) {
        self.log.push(us);
    }
}

} // verus!
