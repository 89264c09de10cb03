//! The reset sequence's interleaving: every level change is followed by its
//! own settle wait. A pin and a delay provider sharing one log record the
//! exact order.

use std::cell::RefCell;
use std::rc::Rc;

use st7789::ST7789;
use st7789::interface::DelayProvider;
use st7789::interface::ResetLine;
use st7789::mock::BusRecorder;

#[derive(Clone, Copy, PartialEq, Eq, Debug)]
enum Step {
    High,
    Low,
    Wait(u32),
}

struct SharedPin {
    log: Rc<RefCell<Vec<Step>>>,
}

impl ResetLine for SharedPin {
    type Error = ();

    fn set_high(&mut self) -> Result<(), ()> {
        self.log.borrow_mut().push(Step::High);
        Ok(())
    }

    fn set_low(&mut self) -> Result<(), ()> {
        self.log.borrow_mut().push(Step::Low);
        Ok(())
    }
}

struct SharedDelay {
    log: Rc<RefCell<Vec<Step>>>,
}

impl DelayProvider for SharedDelay {
    fn delay_us(&mut self, us: u32) {
        self.log.borrow_mut().push(Step::Wait(us));
    }
}

#[test]
fn hard_reset_interleaves_levels_and_waits() {
    let log = Rc::new(RefCell::new(Vec::new()));
    let mut d = ST7789::new(
        BusRecorder::new(),
        SharedPin { log: log.clone() },
        240,
        320,
        SharedDelay { log: log.clone() },
    );
    d.hard_reset().unwrap();
    assert_eq!(
        *log.borrow(),
        vec![
            Step::High,
            Step::Wait(10),
            Step::Low,
            Step::Wait(10),
            Step::High,
            Step::Wait(10),
        ]
    );
}
