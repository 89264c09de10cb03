//! The ghost model of what the driver emits.
//!
//! Each collaborator (bus, reset line, delay provider) is modelled by a trace:
//! the sequence of events the driver has asked of it so far. The spec
//! functions here give, for every driver operation, the exact event suffix the
//! operation appends to those traces when it succeeds.

use vstd::prelude::*;
use crate::instruction::Instruction;

verus! {

/// Logic level driven onto the reset line.
#[derive(Clone, Copy, PartialEq, Eq, Structural, Debug)]
pub enum PinLevel {
    High,
    Low,
}

/// One transfer on the command/data bus: a run of bytes sent in command
/// context or in data context. The transport owes every event its own
/// select/context/deselect bracket, so distinct events are never coalesced.
pub enum BusEvent {
    /// Bytes sent in command context.
    Command(Seq<u8>),
    /// Bytes sent in data context.
    Data(Seq<u8>),
}

/// The single command event carrying an instruction's opcode byte.
pub open spec fn cmd(i: Instruction) -> BusEvent {
    BusEvent::Command(seq![i.opcode()])
}

/// The two bytes of a 16-bit word, most significant first.
pub open spec fn be_word(w: u16) -> Seq<u8> {
    seq![(w / 256) as u8, (w % 256) as u8]
}

/// Every color serialized as a big-endian word, concatenated in order.
pub open spec fn word_bytes(colors: Seq<u16>) -> Seq<u8>
    decreases colors.len(),
{
    if colors.len() == 0 {
        Seq::empty()
    } else {
        be_word(colors[0]) + word_bytes(colors.skip(1))
    }
}

/// The events of one command: the opcode in command context, then its
/// parameter bytes, if any, in data context.
pub open spec fn command_events(i: Instruction, params: Option<Seq<u8>>) -> Seq<BusEvent> {
    match params {
        None => seq![cmd(i)],
        Some(p) => seq![cmd(i), BusEvent::Data(p)],
    }
}

/// The events that set the address window: column extent, then row extent,
/// each as two big-endian words.
pub open spec fn window_events(sx: u16, sy: u16, ex: u16, ey: u16) -> Seq<BusEvent> {
    seq![
        cmd(Instruction::CASET),
        BusEvent::Data(be_word(sx)),
        BusEvent::Data(be_word(ex)),
        cmd(Instruction::RASET),
        BusEvent::Data(be_word(sy)),
        BusEvent::Data(be_word(ey)),
    ]
}

/// Pixel data streamed one word per event.
pub open spec fn pixel_events(colors: Seq<u16>) -> Seq<BusEvent> {
    Seq::new(colors.len(), |i: int| BusEvent::Data(be_word(colors[i])))
}

/// Pixel data streamed through a staging buffer of `chunk` colors: full
/// chunks first, then one final partial chunk if anything remains.
pub open spec fn chunked_pixel_events(colors: Seq<u16>, chunk: nat) -> Seq<BusEvent>
    decreases colors.len(),
{
    if colors.len() == 0 {
        Seq::empty()
    } else if colors.len() <= chunk || chunk == 0 {
        seq![BusEvent::Data(word_bytes(colors))]
    } else {
        seq![BusEvent::Data(word_bytes(colors.take(chunk as int)))]
            + chunked_pixel_events(colors.skip(chunk as int), chunk)
    }
}

/// The full bus suffix of a rectangle write streamed word by word.
pub open spec fn set_pixels_events(sx: u16, sy: u16, ex: u16, ey: u16, colors: Seq<u16>) -> Seq<
    BusEvent,
> {
    window_events(sx, sy, ex, ey) + seq![cmd(Instruction::RAMWR)] + pixel_events(colors)
}

/// The full bus suffix of a rectangle write streamed through a staging
/// buffer of `chunk` colors.
pub open spec fn set_pixels_chunked_events(
    sx: u16,
    sy: u16,
    ex: u16,
    ey: u16,
    colors: Seq<u16>,
    chunk: nat,
) -> Seq<BusEvent> {
    window_events(sx, sy, ex, ey) + seq![cmd(Instruction::RAMWR)]
        + chunked_pixel_events(colors, chunk)
}

/// The full bus suffix of a single-pixel write.
pub open spec fn set_pixel_events(x: u16, y: u16, color: u16) -> Seq<BusEvent> {
    window_events(x, y, x, y) + seq![cmd(Instruction::RAMWR), BusEvent::Data(be_word(color))]
}

/// The initialization command sequence, in order: software reset, sleep out,
/// invert off, memory access control (no swap, default scan), 16-bit color
/// mode, invert on, normal display mode, display on.
pub open spec fn init_events() -> Seq<BusEvent> {
    seq![
        cmd(Instruction::SWRESET),
        cmd(Instruction::SLPOUT),
        cmd(Instruction::INVOFF),
        cmd(Instruction::MADCTL),
        BusEvent::Data(seq![0x00u8]),
        cmd(Instruction::COLMOD),
        BusEvent::Data(seq![0x55u8]),
        cmd(Instruction::INVON),
        cmd(Instruction::NORON),
        cmd(Instruction::DISPON),
    ]
}

/// The waits of initialization, in order, in microseconds: after software
/// reset, after sleep out, after invert on, after normal mode, after display
/// on. These are the controller's settle-time floors.
pub open spec fn init_waits() -> Seq<u32> {
    seq![150000u32, 10000u32, 10000u32, 10000u32, 10000u32]
}

/// The levels a hard reset drives onto the reset line, in order.
pub open spec fn reset_levels() -> Seq<PinLevel> {
    seq![PinLevel::High, PinLevel::Low, PinLevel::High]
}

/// The waits of a hard reset, one after each level, in microseconds.
pub open spec fn reset_waits() -> Seq<u32> {
    seq![10u32, 10u32, 10u32]
}

/// The bytes sent in data context over a run of bus events, in order.
pub open spec fn data_bytes(events: Seq<BusEvent>) -> Seq<u8>
    decreases events.len(),
{
    if events.len() == 0 {
        Seq::empty()
    } else {
        (match events[0] {
            BusEvent::Data(b) => b,
            BusEvent::Command(_) => Seq::empty(),
        }) + data_bytes(events.skip(1))
    }
}

} // verus!
