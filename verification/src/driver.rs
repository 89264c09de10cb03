//! The protocol engine: the ST7789 driver itself.

use vstd::prelude::*;
use crate::instruction::Instruction;
use crate::interface::BusTransport;
use crate::interface::DelayProvider;
use crate::interface::ResetLine;
use crate::laws::lemma_word_bytes_snoc;
use crate::trace::BusEvent;
use crate::trace::PinLevel;
use crate::trace::be_word;
use crate::trace::chunked_pixel_events;
use crate::trace::cmd;
use crate::trace::command_events;
use crate::trace::init_events;
use crate::trace::init_waits;
use crate::trace::pixel_events;
use crate::trace::reset_levels;
use crate::trace::reset_waits;
use crate::trace::set_pixel_events;
use crate::trace::set_pixels_chunked_events;
use crate::trace::set_pixels_events;
use crate::trace::window_events;
use crate::trace::word_bytes;

verus! {

/// Display orientation: rotation and mirroring of the scan order.
#[derive(Clone, Copy, PartialEq, Eq, Structural, Debug)]
pub enum Orientation {
    /// No inverting.
    Portrait,
    /// Invert column and page/column order.
    Landscape,
    /// Invert page and column order.
    PortraitSwapped,
    /// Invert page and page/column order.
    LandscapeSwapped,
}

impl Orientation {
    /// The memory-access-control configuration byte of this orientation.
    pub open spec fn madctl(self) -> u8 {
        match self {
            Orientation::Portrait => 0x00,
            Orientation::Landscape => 0x60,
            Orientation::PortraitSwapped => 0xc0,
            Orientation::LandscapeSwapped => 0xa0,
        }
    }

    /// Returns the orientation's configuration byte.
    pub fn to_u8(&self) -> (r: u8)
        ensures
            r == self.madctl(),
    {
        match self {
            Orientation::Portrait => 0x00,
            Orientation::Landscape => 0x60,
            Orientation::PortraitSwapped => 0xc0,
            Orientation::LandscapeSwapped => 0xa0,
        }
    }
}

/// An error holding its source: the bus, or the reset pin.
#[derive(Debug)]
pub enum Error<RSTE> {
    /// The transport failed; the underlying cause is not interpreted.
    DisplayError,
    /// The reset line could not be driven.
    Rst(RSTE),
}

/// ST7789 driver. It owns its transport, reset line and delay provider for
/// the whole display session, and issues every operation synchronously.
pub struct ST7789<DI, RST, DELAY> where
    DI: BusTransport,
    RST: ResetLine,
    DELAY: DelayProvider,
{
    // Display bus
    di: DI,
    // Reset pin
    rst: RST,
    // Screen size, fixed at construction
    size_x: u16,
    size_y: u16,
    // Delay provider
    delay: DELAY,
}

impl<DI, RST, DELAY> ST7789<DI, RST, DELAY> where
    DI: BusTransport,
    RST: ResetLine,
    DELAY: DelayProvider,
{
    /// The transfers issued on the bus so far.
    pub closed spec fn bus_trace(&self) -> Seq<BusEvent> {
        self.di.trace()
    }

    /// The levels driven onto the reset line so far.
    pub closed spec fn pin_trace(&self) -> Seq<PinLevel> {
        self.rst.trace()
    }

    /// The waits requested so far, in microseconds.
    pub closed spec fn delay_trace(&self) -> Seq<u32> {
        self.delay.trace()
    }

    /// The screen dimensions in pixels, fixed at construction.
    pub closed spec fn size(&self) -> (u16, u16) {
        (self.size_x, self.size_y)
    }

    /// Holds when a step left the dimensions, the reset line and the delay
    /// provider untouched: only the bus may have advanced.
    pub open spec fn bus_only_step(pre: Self, post: Self) -> bool {
        &&& post.size() == pre.size()
        &&& post.pin_trace() == pre.pin_trace()
        &&& post.delay_trace() == pre.delay_trace()
    }

    /// Creates a new driver instance around the given resources. Performs no
    /// I/O: every trace is left as handed in.
    pub fn new(di: DI, rst: RST, size_x: u16, size_y: u16, delay: DELAY) -> (r: Self)
        ensures
            r.bus_trace() == di.trace(),
            r.pin_trace() == rst.trace(),
            r.delay_trace() == delay.trace(),
            r.size() == (size_x, size_y),
    {
        ST7789 { di, rst, size_x, size_y, delay }
    }

    /// Borrows the transport, e.g. to read a recording mock back.
    pub fn transport(&self) -> (r: &DI)
        ensures
            r.trace() == self.bus_trace(),
    {
        &self.di
    }

    /// Borrows the reset line.
    pub fn reset_line(&self) -> (r: &RST)
        ensures
            r.trace() == self.pin_trace(),
    {
        &self.rst
    }

    /// Borrows the delay provider.
    pub fn delay_provider(&self) -> (r: &DELAY)
        ensures
            r.trace() == self.delay_trace(),
    {
        &self.delay
    }

    /// Sends one command: the opcode byte in command context, then its
    /// parameter bytes, if any, in data context. Never batched: each call
    /// brackets its own transfers, so the controller can tell opcodes from
    /// operands.
    fn write_command(&mut self, command: Instruction, params: Option<&[u8]>) -> (r: Result<
        (),
        Error<RST::Error>,
    >)
        ensures
            Self::bus_only_step(*old(self), *final (self)),
            r is Ok ==> final (self).bus_trace() == old(self).bus_trace() + command_events(
                command,
                opt_bytes(params),
            ),
            r is Err ==> r->Err_0 is DisplayError,
            r is Err ==> final (self).bus_trace() == old(self).bus_trace()
                || final (self).bus_trace() == old(self).bus_trace().push(cmd(command)),
            r is Err && params is None ==> final (self).bus_trace() == old(self).bus_trace(),
    {
        let mut opcode: Vec<u8> = Vec::new();
        opcode.push(command.to_u8());
        proof {
            assert(opcode@ =~= seq![command.opcode()]);
        }
        match self.di.send_command(opcode.as_slice()) {
            Ok(()) => {},
            Err(_) => {
                return Err(Error::DisplayError);
            },
        }
        match params {
            Some(p) => {
                match self.di.send_data(p) {
                    Ok(()) => {
                        proof {
                            assert(self.bus_trace() =~= old(self).bus_trace() + command_events(
                                command,
                                opt_bytes(params),
                            ));
                        }
                    },
                    Err(_) => {
                        return Err(Error::DisplayError);
                    },
                }
            },
            None => {
                proof {
                    assert(self.bus_trace() =~= old(self).bus_trace() + command_events(
                        command,
                        opt_bytes(params),
                    ));
                }
            },
        }
        Ok(())
    }

    /// Sends raw bytes in data context, bracketed on their own without a
    /// command opcode.
    fn write_data(&mut self, data: &[u8]) -> (r: Result<(), Error<RST::Error>>)
        ensures
            Self::bus_only_step(*old(self), *final (self)),
            r is Ok ==> final (self).bus_trace() == old(self).bus_trace().push(
                BusEvent::Data(data@),
            ),
            r is Err ==> r->Err_0 is DisplayError && final (self).bus_trace() == old(self).bus_trace(),
    {
        match self.di.send_data(data) {
            Ok(()) => Ok(()),
            Err(_) => Err(Error::DisplayError),
        }
    }

    /// Sends a 16-bit word as data, most significant byte first.
    fn write_word(&mut self, value: u16) -> (r: Result<(), Error<RST::Error>>)
        ensures
            Self::bus_only_step(*old(self), *final (self)),
            r is Ok ==> final (self).bus_trace() == old(self).bus_trace().push(
                BusEvent::Data(be_word(value)),
            ),
            r is Err ==> r->Err_0 is DisplayError && final (self).bus_trace() == old(self).bus_trace(),
    {
        let mut word: Vec<u8> = Vec::new();
        word.push((value / 256) as u8);
        word.push((value % 256) as u8);
        proof {
            assert(word@ =~= be_word(value));
        }
        self.write_data(word.as_slice())
    }

    /// Sets the address window: the rectangle of controller RAM that the next
    /// memory write will fill. Column extent first, then row extent, each as
    /// two big-endian words. The window is not retained; callers resend it
    /// before every write.
    fn set_address_window(&mut self, sx: u16, sy: u16, ex: u16, ey: u16) -> (r: Result<
        (),
        Error<RST::Error>,
    >)
        ensures
            Self::bus_only_step(*old(self), *final (self)),
            r is Ok ==> final (self).bus_trace() == old(self).bus_trace() + window_events(
                sx,
                sy,
                ex,
                ey,
            ),
            r is Err ==> r->Err_0 is DisplayError && exists|n: int|
                0 <= n < window_events(sx, sy, ex, ey).len() && final (self).bus_trace() == old(self).bus_trace() + window_events(sx, sy, ex, ey).take(n),
    {
        match self.write_command(Instruction::CASET, None) {
            Ok(()) => {},
            Err(e) => {
                proof {
                    assert(self.bus_trace() =~= old(self).bus_trace() + window_events(
                        sx,
                        sy,
                        ex,
                        ey,
                    ).take(0));
                }
                return Err(e);
            },
        }
        match self.write_word(sx) {
            Ok(()) => {},
            Err(e) => {
                proof {
                    assert(self.bus_trace() =~= old(self).bus_trace() + window_events(
                        sx,
                        sy,
                        ex,
                        ey,
                    ).take(1));
                }
                return Err(e);
            },
        }
        match self.write_word(ex) {
            Ok(()) => {},
            Err(e) => {
                proof {
                    assert(self.bus_trace() =~= old(self).bus_trace() + window_events(
                        sx,
                        sy,
                        ex,
                        ey,
                    ).take(2));
                }
                return Err(e);
            },
        }
        match self.write_command(Instruction::RASET, None) {
            Ok(()) => {},
            Err(e) => {
                proof {
                    assert(self.bus_trace() =~= old(self).bus_trace() + window_events(
                        sx,
                        sy,
                        ex,
                        ey,
                    ).take(3));
                }
                return Err(e);
            },
        }
        match self.write_word(sy) {
            Ok(()) => {},
            Err(e) => {
                proof {
                    assert(self.bus_trace() =~= old(self).bus_trace() + window_events(
                        sx,
                        sy,
                        ex,
                        ey,
                    ).take(4));
                }
                return Err(e);
            },
        }
        match self.write_word(ey) {
            Ok(()) => {},
            Err(e) => {
                proof {
                    assert(self.bus_trace() =~= old(self).bus_trace() + window_events(
                        sx,
                        sy,
                        ex,
                        ey,
                    ).take(5));
                }
                return Err(e);
            },
        }
        proof {
            assert(self.bus_trace() =~= old(self).bus_trace() + window_events(sx, sy, ex, ey));
        }
        Ok(())
    }

    /// Performs a hard reset: drives the reset line high, low, high again,
    /// with a settle wait after each change. The three waits are the
    /// controller's minimum pulse and settle times and are never coalesced.
    pub fn hard_reset(&mut self) -> (r: Result<(), Error<RST::Error>>)
        ensures
            final (self).size() == old(self).size(),
            final (self).bus_trace() == old(self).bus_trace(),
            r is Ok ==> final (self).pin_trace() == old(self).pin_trace() + reset_levels()
                && final (self).delay_trace() == old(self).delay_trace() + reset_waits(),
            r is Err ==> r->Err_0 is Rst && exists|k: int|
                0 <= k < reset_levels().len() && final (self).pin_trace() == old(self).pin_trace()
                    + reset_levels().take(k) && final (self).delay_trace() == old(self).delay_trace() + reset_waits().take(k),
    {
        match self.rst.set_high() {
            Ok(()) => {},
            Err(e) => {
                proof {
                    assert(self.pin_trace() =~= old(self).pin_trace() + reset_levels().take(0));
                    assert(self.delay_trace() =~= old(self).delay_trace() + reset_waits().take(0));
                }
                return Err(Error::Rst(e));
            },
        }
        self.delay.delay_us(10);
        match self.rst.set_low() {
            Ok(()) => {},
            Err(e) => {
                proof {
                    assert(self.pin_trace() =~= old(self).pin_trace() + reset_levels().take(1));
                    assert(self.delay_trace() =~= old(self).delay_trace() + reset_waits().take(1));
                }
                return Err(Error::Rst(e));
            },
        }
        self.delay.delay_us(10);
        match self.rst.set_high() {
            Ok(()) => {},
            Err(e) => {
                proof {
                    assert(self.pin_trace() =~= old(self).pin_trace() + reset_levels().take(2));
                    assert(self.delay_trace() =~= old(self).delay_trace() + reset_waits().take(2));
                }
                return Err(Error::Rst(e));
            },
        }
        self.delay.delay_us(10);
        proof {
            assert(self.pin_trace() =~= old(self).pin_trace() + reset_levels());
            assert(self.delay_trace() =~= old(self).delay_trace() + reset_waits());
        }
        Ok(())
    }

    /// Runs the commands that initialize the display: a hard reset, then the
    /// eight-command power-up sequence, strictly in order, with the
    /// controller's minimum settle wait after each step that needs one.
    /// Initialization is all-or-nothing: the first failure aborts the
    /// sequence with that step's error and no later step runs.
    ///
    /// The sequence turns color inversion off and back on; the panel needs
    /// the dual toggle, so it is preserved rather than simplified away.
    pub fn init(&mut self) -> (r: Result<(), Error<RST::Error>>)
        ensures
            final (self).size() == old(self).size(),
            r is Ok ==> final (self).bus_trace() == old(self).bus_trace() + init_events()
                && final (self).pin_trace() == old(self).pin_trace() + reset_levels()
                && final (self).delay_trace() == old(self).delay_trace() + reset_waits()
                + init_waits(),
            r is Err ==> r->Err_0 is Rst || r->Err_0 is DisplayError,
            r is Err && r->Err_0 is Rst ==> final (self).bus_trace() == old(self).bus_trace()
                && exists|k: int|
                0 <= k < reset_levels().len()
                    && final (self).pin_trace() == old(self).pin_trace() + reset_levels().take(k)
                    && final (self).delay_trace() == old(self).delay_trace() + reset_waits().take(
                    k,
                ),
            r is Err && r->Err_0 is DisplayError ==> final (self).pin_trace() == old(self).pin_trace()
                + reset_levels() && exists|n: int, j: int|
                0 <= n < init_events().len() && 0 <= j < init_waits().len()
                    && final (self).bus_trace() == old(self).bus_trace() + init_events().take(n)
                    && final (self).delay_trace() == old(self).delay_trace() + reset_waits()
                    + init_waits().take(j),
    {
        match self.hard_reset() {
            Ok(()) => {},
            Err(e) => {
                return Err(e);
            },
        }
        // software reset
        match self.write_command(Instruction::SWRESET, None) {
            Ok(()) => {},
            Err(e) => {
                proof {
                    assert(self.bus_trace() =~= old(self).bus_trace() + init_events().take(0));
                    assert(self.delay_trace() =~= old(self).delay_trace() + reset_waits()
                        + init_waits().take(0));
                }
                return Err(e);
            },
        }
        proof {
            assert(self.bus_trace() =~= old(self).bus_trace() + init_events().take(1));
        }
        self.delay.delay_us(150_000);
        proof {
            assert(self.delay_trace() =~= old(self).delay_trace() + reset_waits()
                + init_waits().take(1));
        }
        // turn off sleep
        match self.write_command(Instruction::SLPOUT, None) {
            Ok(()) => {},
            Err(e) => {
                return Err(e);
            },
        }
        proof {
            assert(self.bus_trace() =~= old(self).bus_trace() + init_events().take(2));
        }
        self.delay.delay_us(10_000);
        proof {
            assert(self.delay_trace() =~= old(self).delay_trace() + reset_waits()
                + init_waits().take(2));
        }
        // turn off color inversion; it is turned back on below
        match self.write_command(Instruction::INVOFF, None) {
            Ok(()) => {},
            Err(e) => {
                return Err(e);
            },
        }
        proof {
            assert(self.bus_trace() =~= old(self).bus_trace() + init_events().take(3));
        }
        // left -> right, bottom -> top, RGB
        let mut madctl_param: Vec<u8> = Vec::new();
        madctl_param.push(0b0000_0000);
        proof {
            assert(madctl_param@ =~= seq![0x00u8]);
        }
        match self.write_command(Instruction::MADCTL, Some(madctl_param.as_slice())) {
            Ok(()) => {},
            Err(e) => {
                proof {
                    if self.bus_trace() == old(self).bus_trace() + init_events().take(3) {
                        assert(self.bus_trace() =~= old(self).bus_trace() + init_events().take(3));
                    } else {
                        assert(self.bus_trace() =~= old(self).bus_trace() + init_events().take(4));
                    }
                }
                return Err(e);
            },
        }
        proof {
            assert(self.bus_trace() =~= old(self).bus_trace() + init_events().take(5));
        }
        // 16 bits per pixel, 65k colors
        let mut colmod_param: Vec<u8> = Vec::new();
        colmod_param.push(0b0101_0101);
        proof {
            assert(colmod_param@ =~= seq![0x55u8]);
        }
        match self.write_command(Instruction::COLMOD, Some(colmod_param.as_slice())) {
            Ok(()) => {},
            Err(e) => {
                proof {
                    if self.bus_trace() == old(self).bus_trace() + init_events().take(5) {
                        assert(self.bus_trace() =~= old(self).bus_trace() + init_events().take(5));
                    } else {
                        assert(self.bus_trace() =~= old(self).bus_trace() + init_events().take(6));
                    }
                }
                return Err(e);
            },
        }
        proof {
            assert(self.bus_trace() =~= old(self).bus_trace() + init_events().take(7));
        }
        // turn color inversion back on
        match self.write_command(Instruction::INVON, None) {
            Ok(()) => {},
            Err(e) => {
                return Err(e);
            },
        }
        proof {
            assert(self.bus_trace() =~= old(self).bus_trace() + init_events().take(8));
        }
        self.delay.delay_us(10_000);
        proof {
            assert(self.delay_trace() =~= old(self).delay_trace() + reset_waits()
                + init_waits().take(3));
        }
        // normal display mode on
        match self.write_command(Instruction::NORON, None) {
            Ok(()) => {},
            Err(e) => {
                return Err(e);
            },
        }
        proof {
            assert(self.bus_trace() =~= old(self).bus_trace() + init_events().take(9));
        }
        self.delay.delay_us(10_000);
        proof {
            assert(self.delay_trace() =~= old(self).delay_trace() + reset_waits()
                + init_waits().take(4));
        }
        // display on
        match self.write_command(Instruction::DISPON, None) {
            Ok(()) => {},
            Err(e) => {
                return Err(e);
            },
        }
        proof {
            assert(self.bus_trace() =~= old(self).bus_trace() + init_events());
        }
        self.delay.delay_us(10_000);
        proof {
            assert(self.delay_trace() =~= old(self).delay_trace() + reset_waits() + init_waits());
        }
        Ok(())
    }

    /// Sets the display orientation: one memory-access-control command whose
    /// single parameter byte is the orientation's constant. The engine keeps
    /// no orientation state.
    pub fn set_orientation(&mut self, orientation: &Orientation) -> (r: Result<
        (),
        Error<RST::Error>,
    >)
        ensures
            Self::bus_only_step(*old(self), *final (self)),
            r is Ok ==> final (self).bus_trace() == old(self).bus_trace() + madctl_events(
                *orientation,
            ),
            r is Err ==> r->Err_0 is DisplayError && (final (self).bus_trace() == old(self).bus_trace() || final (self).bus_trace() == old(self).bus_trace().push(
                cmd(Instruction::MADCTL),
            )),
    {
        let mut param: Vec<u8> = Vec::new();
        param.push(orientation.to_u8());
        proof {
            assert(param@ =~= seq![orientation.madctl()]);
        }
        match self.write_command(Instruction::MADCTL, Some(param.as_slice())) {
            Ok(()) => Ok(()),
            Err(e) => Err(e),
        }
    }

    /// Sets one pixel: the degenerate address window at `(x, y)`, memory
    /// write, then the color as one big-endian word. The coordinates are not
    /// clipped; keeping them inside the screen is the caller's charge.
    pub fn set_pixel(&mut self, x: u16, y: u16, color: u16) -> (r: Result<(), Error<RST::Error>>)
        ensures
            Self::bus_only_step(*old(self), *final (self)),
            r is Ok ==> final (self).bus_trace() == old(self).bus_trace() + set_pixel_events(
                x,
                y,
                color,
            ),
            r is Err ==> r->Err_0 is DisplayError && exists|n: int|
                0 <= n < set_pixel_events(x, y, color).len() && final (self).bus_trace() == old(self).bus_trace() + set_pixel_events(x, y, color).take(n),
    {
        match self.set_address_window(x, y, x, y) {
            Ok(()) => {},
            Err(e) => {
                proof {
                    let n = choose|n: int|
                        0 <= n < window_events(x, y, x, y).len() && self.bus_trace() == old(self).bus_trace() + window_events(x, y, x, y).take(n);
                    assert(set_pixel_events(x, y, color).take(n) =~= window_events(
                        x,
                        y,
                        x,
                        y,
                    ).take(n));
                    assert(self.bus_trace() == old(self).bus_trace() + set_pixel_events(
                        x,
                        y,
                        color,
                    ).take(n));
                }
                return Err(e);
            },
        }
        match self.write_command(Instruction::RAMWR, None) {
            Ok(()) => {},
            Err(e) => {
                proof {
                    assert(self.bus_trace() =~= old(self).bus_trace() + set_pixel_events(
                        x,
                        y,
                        color,
                    ).take(6));
                }
                return Err(e);
            },
        }
        match self.write_word(color) {
            Ok(()) => {},
            Err(e) => {
                proof {
                    assert(self.bus_trace() =~= old(self).bus_trace() + set_pixel_events(
                        x,
                        y,
                        color,
                    ).take(7));
                }
                return Err(e);
            },
        }
        proof {
            assert(self.bus_trace() =~= old(self).bus_trace() + set_pixel_events(x, y, color));
        }
        Ok(())
    }

    /// Streams pixel colors, each as one big-endian word in its own data
    /// transfer.
    fn write_pixels(&mut self, colors: &[u16]) -> (r: Result<(), Error<RST::Error>>)
        ensures
            Self::bus_only_step(*old(self), *final (self)),
            r is Ok ==> final (self).bus_trace() == old(self).bus_trace() + pixel_events(colors@),
            r is Err ==> r->Err_0 is DisplayError && exists|n: int|
                0 <= n < pixel_events(colors@).len() && final (self).bus_trace() == old(self).bus_trace() + pixel_events(colors@).take(n),
    {
        let mut i: usize = 0;
        while i < colors.len()
            invariant
                i <= colors@.len(),
                self.size() == old(self).size(),
                self.pin_trace() == old(self).pin_trace(),
                self.delay_trace() == old(self).delay_trace(),
                self.bus_trace() == old(self).bus_trace() + pixel_events(colors@.take(i as int)),
            decreases colors@.len() - i,
        {
            let c = colors[i];
            match self.write_word(c) {
                Ok(()) => {},
                Err(e) => {
                    proof {
                        assert(pixel_events(colors@).take(i as int) =~= pixel_events(
                            colors@.take(i as int),
                        ));
                        assert(self.bus_trace() == old(self).bus_trace() + pixel_events(
                            colors@,
                        ).take(i as int));
                    }
                    return Err(e);
                },
            }
            i += 1;
            proof {
                assert(self.bus_trace() =~= old(self).bus_trace() + pixel_events(
                    colors@.take(i as int),
                ));
            }
        }
        proof {
            assert(colors@.take(colors@.len() as int) =~= colors@);
        }
        Ok(())
    }

    /// Sets pixel colors in the given rectangle bounds: the address window,
    /// memory write, then every color as a big-endian word. The engine does
    /// not check that the color count matches the window's area; a mismatch
    /// gives controller-defined visual results, not an error.
    pub fn set_pixels(&mut self, sx: u16, sy: u16, ex: u16, ey: u16, colors: &[u16]) -> (r: Result<
        (),
        Error<RST::Error>,
    >)
        ensures
            Self::bus_only_step(*old(self), *final (self)),
            r is Ok ==> final (self).bus_trace() == old(self).bus_trace() + set_pixels_events(
                sx,
                sy,
                ex,
                ey,
                colors@,
            ),
            r is Err ==> r->Err_0 is DisplayError && exists|n: int|
                0 <= n < set_pixels_events(sx, sy, ex, ey, colors@).len() && final (self).bus_trace() == old(self).bus_trace() + set_pixels_events(
                    sx,
                    sy,
                    ex,
                    ey,
                    colors@,
                ).take(n),
    {
        match self.set_address_window(sx, sy, ex, ey) {
            Ok(()) => {},
            Err(e) => {
                proof {
                    let n = choose|n: int|
                        0 <= n < window_events(sx, sy, ex, ey).len() && self.bus_trace() == old(self).bus_trace() + window_events(sx, sy, ex, ey).take(n);
                    assert(set_pixels_events(sx, sy, ex, ey, colors@).take(n) =~= window_events(
                        sx,
                        sy,
                        ex,
                        ey,
                    ).take(n));
                    assert(self.bus_trace() == old(self).bus_trace() + set_pixels_events(
                        sx,
                        sy,
                        ex,
                        ey,
                        colors@,
                    ).take(n));
                }
                return Err(e);
            },
        }
        match self.write_command(Instruction::RAMWR, None) {
            Ok(()) => {},
            Err(e) => {
                proof {
                    assert(self.bus_trace() =~= old(self).bus_trace() + set_pixels_events(
                        sx,
                        sy,
                        ex,
                        ey,
                        colors@,
                    ).take(6));
                }
                return Err(e);
            },
        }
        proof {
            assert(self.bus_trace() =~= old(self).bus_trace() + set_pixels_events(
                sx,
                sy,
                ex,
                ey,
                colors@,
            ).take(7));
        }
        match self.write_pixels(colors) {
            Ok(()) => {},
            Err(e) => {
                proof {
                    let full = set_pixels_events(sx, sy, ex, ey, colors@);
                    let pre = old(self).bus_trace() + full.take(7);
                    let m = choose|m: int|
                        0 <= m < pixel_events(colors@).len() && self.bus_trace() == pre
                            + pixel_events(colors@).take(m);
                    assert(full.take(7 + m) =~= full.take(7) + pixel_events(colors@).take(m));
                    assert(self.bus_trace() =~= old(self).bus_trace() + full.take(7 + m));
                }
                return Err(e);
            },
        }
        proof {
            assert(self.bus_trace() =~= old(self).bus_trace() + set_pixels_events(
                sx,
                sy,
                ex,
                ey,
                colors@,
            ));
        }
        Ok(())
    }

    /// Streams pixel colors through a fixed-size staging buffer: whole
    /// big-endian words are accumulated and flushed one full buffer at a
    /// time, with a final partial flush.
    fn write_pixels_buffered(&mut self, colors: &[u16]) -> (r: Result<(), Error<RST::Error>>)
        ensures
            Self::bus_only_step(*old(self), *final (self)),
            r is Ok ==> final (self).bus_trace() == old(self).bus_trace() + chunked_pixel_events(
                colors@,
                STAGING_COLORS as nat,
            ),
            r is Err ==> r->Err_0 is DisplayError && exists|n: int|
                0 <= n < chunked_pixel_events(colors@, STAGING_COLORS as nat).len() && final (self).bus_trace() == old(self).bus_trace() + chunked_pixel_events(
                    colors@,
                    STAGING_COLORS as nat,
                ).take(n),
    {
        let ghost full = chunked_pixel_events(colors@, STAGING_COLORS as nat);
        let ghost mut emitted = Seq::<BusEvent>::empty();
        let mut i: usize = 0;
        proof {
            assert(old(self).bus_trace() + emitted =~= old(self).bus_trace());
            assert(colors@.skip(0) =~= colors@);
        }
        while i < colors.len()
            invariant
                i <= colors@.len(),
                full == chunked_pixel_events(colors@, STAGING_COLORS as nat),
                self.size() == old(self).size(),
                self.pin_trace() == old(self).pin_trace(),
                self.delay_trace() == old(self).delay_trace(),
                self.bus_trace() == old(self).bus_trace() + emitted,
                emitted + chunked_pixel_events(colors@.skip(i as int), STAGING_COLORS as nat)
                    == full,
            decreases colors@.len() - i,
        {
            let remaining = colors.len() - i;
            let count = if remaining < STAGING_COLORS {
                remaining
            } else {
                STAGING_COLORS
            };
            let end = i + count;
            // stage `count` colors as big-endian words
            let mut buf: Vec<u8> = Vec::new();
            proof {
                assert(colors@.subrange(i as int, i as int) =~= Seq::<u16>::empty());
            }
            let mut j = i;
            while j < end
                invariant
                    i <= j <= end,
                    end <= colors@.len(),
                    buf@ == word_bytes(colors@.subrange(i as int, j as int)),
                decreases end - j,
            {
                let c = colors[j];
                buf.push((c / 256) as u8);
                buf.push((c % 256) as u8);
                j += 1;
                proof {
                    assert(colors@.subrange(i as int, j as int) =~= colors@.subrange(
                        i as int,
                        j as int - 1,
                    ).push(colors@[j as int - 1]));
                    lemma_word_bytes_snoc(
                        colors@.subrange(i as int, j as int - 1),
                        colors@[j as int - 1],
                    );
                    assert(buf@ =~= word_bytes(colors@.subrange(i as int, j as int)));
                }
            }
            // flush the staged words as one data transfer
            match self.write_data(buf.as_slice()) {
                Ok(()) => {},
                Err(e) => {
                    proof {
                        let rest = chunked_pixel_events(
                            colors@.skip(i as int),
                            STAGING_COLORS as nat,
                        );
                        assert(rest.len() >= 1);
                        assert((emitted + rest).take(emitted.len() as int) =~= emitted);
                        assert(full.take(emitted.len() as int) == emitted);
                        assert(self.bus_trace() == old(self).bus_trace() + full.take(
                            emitted.len() as int,
                        ));
                    }
                    return Err(e);
                },
            }
            proof {
                let rest = chunked_pixel_events(colors@.skip(i as int), STAGING_COLORS as nat);
                let after = chunked_pixel_events(colors@.skip(end as int), STAGING_COLORS as nat);
                if colors@.len() - i <= STAGING_COLORS {
                    assert(colors@.skip(i as int) =~= colors@.subrange(i as int, end as int));
                    assert(after =~= Seq::<BusEvent>::empty());
                    assert(rest =~= seq![BusEvent::Data(buf@)] + after);
                } else {
                    assert(colors@.skip(i as int).take(STAGING_COLORS as int) =~= colors@.subrange(
                        i as int,
                        end as int,
                    ));
                    assert(colors@.skip(i as int).skip(STAGING_COLORS as int) =~= colors@.skip(
                        end as int,
                    ));
                    assert(rest =~= seq![BusEvent::Data(buf@)] + after);
                }
                emitted = emitted.push(BusEvent::Data(buf@));
                assert(emitted + after =~= full);
                assert(self.bus_trace() =~= old(self).bus_trace() + emitted);
            }
            i = end;
        }
        proof {
            assert(colors@.skip(i as int) =~= Seq::<u16>::empty());
            assert(emitted + chunked_pixel_events(Seq::<u16>::empty(), STAGING_COLORS as nat)
                =~= emitted);
            assert(self.bus_trace() =~= old(self).bus_trace() + full);
        }
        Ok(())
    }

    /// Sets pixel colors in the given rectangle bounds, staging the words
    /// through a fixed-size buffer. The transported bytes and their order are
    /// the same as `set_pixels`; only the grouping into data transfers
    /// differs.
    pub fn set_pixels_buffered(&mut self, sx: u16, sy: u16, ex: u16, ey: u16, colors: &[u16]) -> (r:
        Result<(), Error<RST::Error>>)
        ensures
            Self::bus_only_step(*old(self), *final (self)),
            r is Ok ==> final (self).bus_trace() == old(self).bus_trace()
                + set_pixels_chunked_events(sx, sy, ex, ey, colors@, STAGING_COLORS as nat),
            r is Err ==> r->Err_0 is DisplayError && exists|n: int|
                0 <= n < set_pixels_chunked_events(
                    sx,
                    sy,
                    ex,
                    ey,
                    colors@,
                    STAGING_COLORS as nat,
                ).len() && final (self).bus_trace() == old(self).bus_trace()
                    + set_pixels_chunked_events(
                    sx,
                    sy,
                    ex,
                    ey,
                    colors@,
                    STAGING_COLORS as nat,
                ).take(n),
    {
        let ghost full = set_pixels_chunked_events(sx, sy, ex, ey, colors@, STAGING_COLORS as nat);
        match self.set_address_window(sx, sy, ex, ey) {
            Ok(()) => {},
            Err(e) => {
                proof {
                    let n = choose|n: int|
                        0 <= n < window_events(sx, sy, ex, ey).len() && self.bus_trace() == old(
                            self,
                        ).bus_trace() + window_events(sx, sy, ex, ey).take(n);
                    assert(full.take(n) =~= window_events(sx, sy, ex, ey).take(n));
                    assert(self.bus_trace() == old(self).bus_trace() + full.take(n));
                }
                return Err(e);
            },
        }
        match self.write_command(Instruction::RAMWR, None) {
            Ok(()) => {},
            Err(e) => {
                proof {
                    assert(self.bus_trace() =~= old(self).bus_trace() + full.take(6));
                }
                return Err(e);
            },
        }
        proof {
            assert(self.bus_trace() =~= old(self).bus_trace() + full.take(7));
        }
        match self.write_pixels_buffered(colors) {
            Ok(()) => {},
            Err(e) => {
                proof {
                    let chunked = chunked_pixel_events(colors@, STAGING_COLORS as nat);
                    let pre = old(self).bus_trace() + full.take(7);
                    let m = choose|m: int|
                        0 <= m < chunked.len() && self.bus_trace() == pre + chunked.take(m);
                    assert(full.take(7 + m) =~= full.take(7) + chunked.take(m));
                    assert(self.bus_trace() =~= old(self).bus_trace() + full.take(7 + m));
                }
                return Err(e);
            },
        }
        proof {
            assert(self.bus_trace() =~= old(self).bus_trace() + full);
        }
        Ok(())
    }
}

/// Colors the staging buffer of the buffered write path holds at a time: 64
/// colors, or 128 bytes, per flush.
pub const STAGING_COLORS: usize = 64;

/// The bus suffix of a `set_orientation` call: memory access control with the
/// orientation's configuration byte.
pub open spec fn madctl_events(o: Orientation) -> Seq<BusEvent> {
    command_events(Instruction::MADCTL, Some(seq![o.madctl()]))
}

/// For every orientation, `set_orientation` issues exactly one
/// memory-access-control command, whose single parameter byte is the
/// orientation's fixed constant.
pub proof fn lemma_orientation_command()
    ensures
        Orientation::Portrait.madctl() == 0x00,
        Orientation::Landscape.madctl() == 0x60,
        Orientation::PortraitSwapped.madctl() == 0xc0,
        Orientation::LandscapeSwapped.madctl() == 0xa0,
        forall|o: Orientation|
            #[trigger] madctl_events(o) =~= seq![
                cmd(Instruction::MADCTL),
                BusEvent::Data(seq![o.madctl()]),
            ],
{
}

/// The parameter bytes handed to a command, as the ghost option of their
/// sequence.
pub open spec fn opt_bytes(params: Option<&[u8]>) -> Option<Seq<u8>> {
    match params {
        None => None,
        Some(p) => Some(p@),
    }
}

} // verus!
