//! Properties of the wire format, stated once and proved for every input.

use vstd::prelude::*;
use vstd::arithmetic::div_mod::lemma_fundamental_div_mod;
use crate::instruction::Instruction;
use crate::trace::BusEvent;
use crate::trace::be_word;
use crate::trace::chunked_pixel_events;
use crate::trace::data_bytes;
use crate::trace::pixel_events;
use crate::trace::set_pixel_events;
use crate::trace::set_pixels_events;
use crate::trace::cmd;
use crate::trace::window_events;
use crate::trace::word_bytes;

verus! {

/// A big-endian word is two bytes, most significant first, that reconstruct
/// the word.
pub proof fn lemma_be_word_value(w: u16)
    ensures
        be_word(w).len() == 2,
        be_word(w)[0] == w as int / 256,
        be_word(w)[1] == w as int % 256,
        256 * (be_word(w)[0] as int) + (be_word(w)[1] as int) == w as int,
{
    lemma_fundamental_div_mod(w as int, 256);
}

/// A single-pixel write leaves the same bus trace as a rectangle write over
/// the degenerate window at the same point carrying that one color.
pub proof fn lemma_single_pixel_trace(x: u16, y: u16, color: u16)
    ensures
        set_pixel_events(x, y, color) == set_pixels_events(x, y, x, y, seq![color]),
{
    assert(pixel_events(seq![color]) =~= seq![BusEvent::Data(be_word(color))]);
    assert(set_pixel_events(x, y, color) =~= set_pixels_events(x, y, x, y, seq![color]));
}

/// The address window is sent as column-address-set with the two column
/// bounds as big-endian words, then row-address-set with the two row bounds
/// as big-endian words.
pub proof fn lemma_window_parameters(sx: u16, sy: u16, ex: u16, ey: u16)
    ensures
        window_events(sx, sy, ex, ey).len() == 6,
        window_events(sx, sy, ex, ey)[0] == cmd(Instruction::CASET),
        window_events(sx, sy, ex, ey)[1] == BusEvent::Data(be_word(sx)),
        window_events(sx, sy, ex, ey)[2] == BusEvent::Data(be_word(ex)),
        window_events(sx, sy, ex, ey)[3] == cmd(Instruction::RASET),
        window_events(sx, sy, ex, ey)[4] == BusEvent::Data(be_word(sy)),
        window_events(sx, sy, ex, ey)[5] == BusEvent::Data(be_word(ey)),
{
}

/// Splitting a color sequence anywhere splits its serialized bytes there.
pub proof fn lemma_word_bytes_split(colors: Seq<u16>, i: int)
    requires
        0 <= i <= colors.len(),
    ensures
        word_bytes(colors) == word_bytes(colors.take(i)) + word_bytes(colors.skip(i)),
    decreases i,
{
    if i == 0 {
        assert(colors.take(0) =~= Seq::<u16>::empty());
        assert(colors.skip(0) =~= colors);
        assert(word_bytes(Seq::<u16>::empty()) + word_bytes(colors) =~= word_bytes(colors));
    } else {
        lemma_word_bytes_split(colors.skip(1), i - 1);
        let head = be_word(colors[0]);
        let mid = word_bytes(colors.skip(1).take(i - 1));
        let tail = word_bytes(colors.skip(1).skip(i - 1));
        assert(colors.skip(1).take(i - 1) =~= colors.take(i).skip(1));
        assert(colors.skip(1).skip(i - 1) =~= colors.skip(i));
        assert(colors.take(i)[0] == colors[0]);
        assert(word_bytes(colors.take(i)) == head + mid);
        assert(head + (mid + tail) =~= (head + mid) + tail);
        assert(word_bytes(colors) == word_bytes(colors.take(i)) + word_bytes(colors.skip(i)));
    }
}

/// Appending one color appends its big-endian word.
pub proof fn lemma_word_bytes_snoc(colors: Seq<u16>, c: u16)
    ensures
        word_bytes(colors.push(c)) == word_bytes(colors) + be_word(c),
{
    let s = colors.push(c);
    lemma_word_bytes_split(s, colors.len() as int);
    assert(s.take(colors.len() as int) =~= colors);
    assert(s.skip(colors.len() as int) =~= seq![c]);
    assert(seq![c].skip(1) =~= Seq::<u16>::empty());
    assert(word_bytes(seq![c]) == be_word(c) + word_bytes(Seq::<u16>::empty()));
    assert(be_word(c) + Seq::<u8>::empty() =~= be_word(c));
}

/// Streaming N colors emits exactly N big-endian words — 2N bytes — as data,
/// and staging them through a chunk buffer of any size changes neither the
/// bytes nor their order.
pub proof fn lemma_streaming_preserves_words(colors: Seq<u16>, chunk: nat)
    ensures
        pixel_events(colors).len() == colors.len(),
        word_bytes(colors).len() == 2 * colors.len(),
        data_bytes(pixel_events(colors)) == word_bytes(colors),
        data_bytes(chunked_pixel_events(colors, chunk)) == word_bytes(colors),
    decreases colors.len(),
{
    if colors.len() == 0 {
        assert(pixel_events(colors) =~= Seq::<BusEvent>::empty());
        assert(data_bytes(Seq::<BusEvent>::empty()) =~= word_bytes(colors));
        assert(chunked_pixel_events(colors, chunk) =~= Seq::<BusEvent>::empty());
    } else {
        lemma_streaming_preserves_words(colors.skip(1), chunk);
        // length of the serialized bytes
        assert(word_bytes(colors) == be_word(colors[0]) + word_bytes(colors.skip(1)));
        // one event per color, in order
        let pe = pixel_events(colors);
        assert(pe[0] == BusEvent::Data(be_word(colors[0])));
        assert(pe.skip(1) =~= pixel_events(colors.skip(1)));
        assert(data_bytes(pe) == be_word(colors[0]) + data_bytes(pe.skip(1)));
        // chunked form
        if colors.len() <= chunk || chunk == 0 {
            let whole = seq![BusEvent::Data(word_bytes(colors))];
            assert(whole.skip(1) =~= Seq::<BusEvent>::empty());
            assert(data_bytes(whole) == word_bytes(colors) + data_bytes(
                Seq::<BusEvent>::empty(),
            ));
            assert(word_bytes(colors) + Seq::<u8>::empty() =~= word_bytes(colors));
        } else {
            let rest = chunked_pixel_events(colors.skip(chunk as int), chunk);
            let whole = seq![BusEvent::Data(word_bytes(colors.take(chunk as int)))] + rest;
            assert(chunked_pixel_events(colors, chunk) == whole);
            assert(whole[0] == BusEvent::Data(word_bytes(colors.take(chunk as int))));
            assert(whole.skip(1) =~= rest);
            assert(data_bytes(whole) == word_bytes(colors.take(chunk as int)) + data_bytes(rest));
            lemma_streaming_preserves_words(colors.skip(chunk as int), chunk);
            lemma_word_bytes_split(colors, chunk as int);
        }
    }
}

} // verus!
