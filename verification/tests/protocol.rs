//! The driver's transport traces on the happy paths, checked against
//! recording mocks.

use st7789::Orientation;
use st7789::ST7789;
use st7789::mock::BusKind;
use st7789::mock::BusRecord;
use st7789::mock::BusRecorder;
use st7789::mock::DelayRecorder;
use st7789::mock::PinRecorder;
use st7789::trace::PinLevel;

fn new_driver() -> ST7789<BusRecorder, PinRecorder, DelayRecorder> {
    ST7789::new(
        BusRecorder::new(),
        PinRecorder::new(),
        240,
        320,
        DelayRecorder::new(),
    )
}

fn assert_record(rec: &BusRecord, kind: BusKind, bytes: &[u8]) {
    assert_eq!(rec.kind, kind);
    assert_eq!(rec.bytes, bytes.to_vec());
}

fn flat_data_bytes(log: &[BusRecord]) -> Vec<u8> {
    let mut out = Vec::new();
    for rec in log {
        assert_eq!(rec.kind, BusKind::Data);
        out.extend_from_slice(&rec.bytes);
    }
    out
}

#[test]
fn orientation_madctl_bytes() {
    let cases = [
        (Orientation::Portrait, 0x00u8),
        (Orientation::Landscape, 0x60),
        (Orientation::PortraitSwapped, 0xc0),
        (Orientation::LandscapeSwapped, 0xa0),
    ];
    for (orientation, expected) in cases {
        let mut d = new_driver();
        d.set_orientation(&orientation).unwrap();
        let log = &d.transport().log;
        assert_eq!(log.len(), 2);
        assert_record(&log[0], BusKind::Command, &[0x36]);
        assert_record(&log[1], BusKind::Data, &[expected]);
        assert!(d.reset_line().log.is_empty());
        assert!(d.delay_provider().log.is_empty());
    }
}

#[test]
fn hard_reset_sequence() {
    let mut d = new_driver();
    d.hard_reset().unwrap();
    assert_eq!(
        d.reset_line().log,
        vec![PinLevel::High, PinLevel::Low, PinLevel::High]
    );
    assert_eq!(d.delay_provider().log, vec![10, 10, 10]);
    assert!(d.transport().log.is_empty());
}

#[test]
fn init_command_sequence() {
    let mut d = new_driver();
    d.init().unwrap();
    let log = &d.transport().log;
    assert_eq!(log.len(), 10);
    assert_record(&log[0], BusKind::Command, &[0x01]); // software reset
    assert_record(&log[1], BusKind::Command, &[0x11]); // sleep out
    assert_record(&log[2], BusKind::Command, &[0x20]); // invert off
    assert_record(&log[3], BusKind::Command, &[0x36]); // memory access control
    assert_record(&log[4], BusKind::Data, &[0x00]);
    assert_record(&log[5], BusKind::Command, &[0x3a]); // color mode
    assert_record(&log[6], BusKind::Data, &[0x55]);
    assert_record(&log[7], BusKind::Command, &[0x21]); // invert on
    assert_record(&log[8], BusKind::Command, &[0x13]); // normal mode on
    assert_record(&log[9], BusKind::Command, &[0x29]); // display on
    assert_eq!(
        d.reset_line().log,
        vec![PinLevel::High, PinLevel::Low, PinLevel::High]
    );
    assert_eq!(
        d.delay_provider().log,
        vec![10, 10, 10, 150_000, 10_000, 10_000, 10_000, 10_000]
    );
}

#[test]
fn window_parameters_big_endian() {
    let mut d = new_driver();
    d.set_pixels(0x0102, 0x0304, 0x0506, 0x0708, &[]).unwrap();
    let log = &d.transport().log;
    assert_eq!(log.len(), 7);
    assert_record(&log[0], BusKind::Command, &[0x2a]); // column address set
    assert_record(&log[1], BusKind::Data, &[0x01, 0x02]);
    assert_record(&log[2], BusKind::Data, &[0x05, 0x06]);
    assert_record(&log[3], BusKind::Command, &[0x2b]); // row address set
    assert_record(&log[4], BusKind::Data, &[0x03, 0x04]);
    assert_record(&log[5], BusKind::Data, &[0x07, 0x08]);
    assert_record(&log[6], BusKind::Command, &[0x2c]); // memory write
}

#[test]
fn window_parameters_extreme_coordinates() {
    let mut d = new_driver();
    d.set_pixels(0xffff, 0x0000, 0x0000, 0xffff, &[]).unwrap();
    let log = &d.transport().log;
    assert_record(&log[1], BusKind::Data, &[0xff, 0xff]);
    assert_record(&log[2], BusKind::Data, &[0x00, 0x00]);
    assert_record(&log[4], BusKind::Data, &[0x00, 0x00]);
    assert_record(&log[5], BusKind::Data, &[0xff, 0xff]);
}

#[test]
fn set_pixel_matches_single_set_pixels() {
    let mut a = new_driver();
    a.set_pixel(5, 7, 0xabcd).unwrap();
    let mut b = new_driver();
    b.set_pixels(5, 7, 5, 7, &[0xabcd]).unwrap();
    let log_a = &a.transport().log;
    let log_b = &b.transport().log;
    assert_eq!(log_a.len(), log_b.len());
    for (ra, rb) in log_a.iter().zip(log_b.iter()) {
        assert_eq!(ra.kind, rb.kind);
        assert_eq!(ra.bytes, rb.bytes);
    }
    assert_eq!(log_a.len(), 8);
    assert_record(&log_a[7], BusKind::Data, &[0xab, 0xcd]);
}

#[test]
fn streaming_emits_one_word_per_color() {
    let mut d = new_driver();
    d.set_pixels(0, 0, 2, 0, &[0x0000, 0x00ff, 0xff00]).unwrap();
    let log = &d.transport().log;
    assert_eq!(log.len(), 10);
    assert_record(&log[6], BusKind::Command, &[0x2c]);
    assert_record(&log[7], BusKind::Data, &[0x00, 0x00]);
    assert_record(&log[8], BusKind::Data, &[0x00, 0xff]);
    assert_record(&log[9], BusKind::Data, &[0xff, 0x00]);
}

#[test]
fn buffered_streaming_preserves_bytes_and_order() {
    let colors: Vec<u16> = (0..100u16).map(|i| i.wrapping_mul(523)).collect();
    let mut direct = new_driver();
    direct.set_pixels(0, 0, 9, 9, &colors).unwrap();
    let mut buffered = new_driver();
    buffered.set_pixels_buffered(0, 0, 9, 9, &colors).unwrap();

    let direct_log = &direct.transport().log;
    let buffered_log = &buffered.transport().log;
    // same window and memory-write preamble
    for i in 0..7 {
        assert_eq!(direct_log[i].kind, buffered_log[i].kind);
        assert_eq!(direct_log[i].bytes, buffered_log[i].bytes);
    }
    // direct: one word per color; buffered: one full 128-byte chunk, then 72 bytes
    assert_eq!(direct_log.len(), 7 + 100);
    assert_eq!(buffered_log.len(), 7 + 2);
    assert_eq!(buffered_log[7].bytes.len(), 128);
    assert_eq!(buffered_log[8].bytes.len(), 72);
    // identical data bytes in identical order
    assert_eq!(
        flat_data_bytes(&direct_log[7..]),
        flat_data_bytes(&buffered_log[7..])
    );
}

#[test]
fn buffered_streaming_whole_chunk_has_no_partial_flush() {
    let colors: Vec<u16> = (0..64u16).collect();
    let mut d = new_driver();
    d.set_pixels_buffered(0, 0, 7, 7, &colors).unwrap();
    let log = &d.transport().log;
    assert_eq!(log.len(), 8);
    assert_eq!(log[7].kind, BusKind::Data);
    assert_eq!(log[7].bytes.len(), 128);
    assert_eq!(&log[7].bytes[0..4], &[0x00, 0x00, 0x00, 0x01]);
}

#[test]
fn new_performs_no_io() {
    let d = new_driver();
    assert!(d.transport().log.is_empty());
    assert!(d.reset_line().log.is_empty());
    assert!(d.delay_provider().log.is_empty());
}
