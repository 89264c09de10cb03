//! Error paths: a failing transport or reset line surfaces the failing
//! step's error and halts the sequence there.

use st7789::Error;
use st7789::ST7789;
use st7789::mock::BusKind;
use st7789::mock::DelayRecorder;
use st7789::mock::FlakyBus;
use st7789::mock::FlakyPin;
use st7789::mock::PinRecorder;
use st7789::trace::PinLevel;

fn flaky_bus_driver(successes: usize) -> ST7789<FlakyBus, PinRecorder, DelayRecorder> {
    ST7789::new(
        FlakyBus::new(successes),
        PinRecorder::new(),
        240,
        320,
        DelayRecorder::new(),
    )
}

/// The transfers a full initialization makes, in order: context and bytes.
fn init_sends() -> Vec<(BusKind, Vec<u8>)> {
    vec![
        (BusKind::Command, vec![0x01]),
        (BusKind::Command, vec![0x11]),
        (BusKind::Command, vec![0x20]),
        (BusKind::Command, vec![0x36]),
        (BusKind::Data, vec![0x00]),
        (BusKind::Command, vec![0x3a]),
        (BusKind::Data, vec![0x55]),
        (BusKind::Command, vec![0x21]),
        (BusKind::Command, vec![0x13]),
        (BusKind::Command, vec![0x29]),
    ]
}

#[test]
fn init_halts_at_the_failing_transfer() {
    let expected = init_sends();
    for k in 0..expected.len() {
        let mut d = flaky_bus_driver(k);
        let r = d.init();
        assert!(matches!(r, Err(Error::DisplayError)));
        // the reset happened in full before the first transfer
        assert_eq!(
            d.reset_line().log,
            vec![PinLevel::High, PinLevel::Low, PinLevel::High]
        );
        // exactly the first k transfers went out, nothing past the failure
        let log = &d.transport().log;
        assert_eq!(log.len(), k);
        for i in 0..k {
            assert_eq!(log[i].kind, expected[i].0);
            assert_eq!(log[i].bytes, expected[i].1);
        }
    }
}

#[test]
fn init_succeeds_once_every_transfer_goes_through() {
    let mut d = flaky_bus_driver(init_sends().len());
    assert!(matches!(d.init(), Ok(())));
    assert_eq!(d.transport().log.len(), init_sends().len());
}

#[test]
fn hard_reset_surfaces_pin_error_and_halts() {
    for k in 0..3usize {
        let mut d = ST7789::new(
            FlakyBus::new(usize::MAX),
            FlakyPin::new(k),
            240,
            320,
            DelayRecorder::new(),
        );
        let r = d.hard_reset();
        assert!(matches!(r, Err(Error::Rst(()))));
        let expected_levels: Vec<PinLevel> =
            vec![PinLevel::High, PinLevel::Low, PinLevel::High][..k].to_vec();
        assert_eq!(d.reset_line().log, expected_levels);
        // one settle wait per completed level change, none after the failure
        assert_eq!(d.delay_provider().log.len(), k);
        assert!(d.transport().log.is_empty());
    }
}

#[test]
fn init_surfaces_pin_error_before_any_transfer() {
    let mut d = ST7789::new(
        FlakyBus::new(usize::MAX),
        FlakyPin::new(1),
        240,
        320,
        DelayRecorder::new(),
    );
    let r = d.init();
    assert!(matches!(r, Err(Error::Rst(()))));
    assert!(d.transport().log.is_empty());
    assert_eq!(d.reset_line().log, vec![PinLevel::High]);
}

#[test]
fn set_pixels_halts_mid_stream() {
    // window (6 transfers) + memory write (1) + first pixel (1) succeed,
    // the second pixel's transfer fails
    let mut d = flaky_bus_driver(8);
    let r = d.set_pixels(0, 0, 2, 0, &[0x1111, 0x2222, 0x3333]);
    assert!(matches!(r, Err(Error::DisplayError)));
    let log = &d.transport().log;
    assert_eq!(log.len(), 8);
    assert_eq!(log[7].kind, BusKind::Data);
    assert_eq!(log[7].bytes, vec![0x11, 0x11]);
}

#[test]
fn set_pixel_halts_when_the_window_fails() {
    let mut d = flaky_bus_driver(0);
    let r = d.set_pixel(1, 2, 0x3344);
    assert!(matches!(r, Err(Error::DisplayError)));
    assert!(d.transport().log.is_empty());
}

#[test]
fn set_orientation_surfaces_transport_error() {
    let mut d = flaky_bus_driver(1);
    let r = d.set_orientation(&st7789::Orientation::Portrait);
    assert!(matches!(r, Err(Error::DisplayError)));
    let log = &d.transport().log;
    assert_eq!(log.len(), 1);
    assert_eq!(log[0].kind, BusKind::Command);
    assert_eq!(log[0].bytes, vec![0x36]);
}
