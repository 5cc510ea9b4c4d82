//! Helpers for trying plugins out: rendered audio and what can be said of it.
//!
//! Samples are bit patterns of single-precision numbers. Without their sign bit
//! such patterns are ordered as the numbers' magnitudes are.

use crate::error::{Error, ErrorView};
use crate::text;
use vstd::prelude::*;
use vstd::string::StringExecFns;

verus! {

/// The number of channels that plugins are tried out with.
pub const RENDER_CHANNELS: usize = 2;

/// Rendered audio.
#[derive(Debug)]
pub struct Rendered {
    /// Bit patterns of the samples, one plane per channel.
    pub output: Vec<Vec<u32>>,
}

/// The bit pattern of a sample's magnitude.
pub open spec fn magnitude(bits: u32) -> u32 {
    (bits % 0x8000_0000) as u32
}

/// Whether a bit pattern is no number: its exponent is all ones, and there is
/// something after it.
pub open spec fn is_nan(bits: u32) -> bool {
    magnitude(bits) > 0x7F80_0000
}

/// The largest magnitude in a plane; what is no number does not count.
pub open spec fn plane_peak(plane: Seq<u32>) -> u32
    decreases plane.len(),
{
    if plane.len() == 0 {
        0
    } else {
        let before = plane_peak(plane.drop_last());
        if !is_nan(plane.last()) && magnitude(plane.last()) > before {
            magnitude(plane.last())
        } else {
            before
        }
    }
}

/// The largest magnitude in all planes.
pub open spec fn peak_of(planes: Seq<Vec<u32>>) -> u32
    decreases planes.len(),
{
    if planes.len() == 0 {
        0
    } else {
        let before = peak_of(planes.drop_last());
        if plane_peak(planes.last()@) > before {
            plane_peak(planes.last()@)
        } else {
            before
        }
    }
}

/// Whether some sample of a plane is no number.
pub open spec fn plane_has_nan(plane: Seq<u32>) -> bool {
    exists|i: int| 0 <= i < plane.len() && is_nan(#[trigger] plane[i])
}

/// Whether some sample is no number.
pub open spec fn has_nan(planes: Seq<Vec<u32>>) -> bool {
    exists|p: int| 0 <= p < planes.len() && plane_has_nan((#[trigger] planes[p])@)
}

fn peak_of_plane(plane: &Vec<u32>) -> (peak: u32)
    ensures
        peak == plane_peak(plane@),
{
    let mut peak: u32 = 0;
    let mut i: usize = 0;
    while i < plane.len()
        invariant
            i <= plane.len(),
            peak == plane_peak(plane@.take(i as int)),
        decreases plane.len() - i,
    {
        proof {
            assert(plane@.take(i + 1).drop_last() =~= plane@.take(i as int));
        }
        let m: u32 = plane[i] % 0x8000_0000;
        if m <= 0x7F80_0000 && m > peak {
            peak = m;
        }
        i += 1;
    }
    assert(plane@.take(i as int) =~= plane@);
    peak
}

fn nan_in_plane(plane: &Vec<u32>) -> (found: bool)
    ensures
        found == plane_has_nan(plane@),
{
    let mut i: usize = 0;
    while i < plane.len()
        invariant
            i <= plane.len(),
            forall|j: int| 0 <= j < i ==> !is_nan(#[trigger] plane@[j]),
        decreases plane.len() - i,
    {
        if plane[i] % 0x8000_0000 > 0x7F80_0000 {
            assert(is_nan(plane@[i as int]));
            return true;
        }
        i += 1;
    }
    false
}

impl Rendered {
    /// The bit pattern of the largest magnitude across all channels.
    #[must_use]
    pub fn peak(&self) -> (peak: u32)
        ensures
            peak == peak_of(self.output@),
    {
        let mut peak: u32 = 0;
        let mut p: usize = 0;
        while p < self.output.len()
            invariant
                p <= self.output.len(),
                peak == peak_of(self.output@.take(p as int)),
            decreases self.output.len() - p,
        {
            proof {
                assert(self.output@.take(p + 1).drop_last() =~= self.output@.take(p as int));
            }
            let m: u32 = peak_of_plane(&self.output[p]);
            if m > peak {
                peak = m;
            }
            p += 1;
        }
        assert(self.output@.take(p as int) =~= self.output@);
        peak
    }

    /// Whether some sample is no number.
    #[must_use]
    pub fn any_nan(&self) -> (found: bool)
        ensures
            found == has_nan(self.output@),
    {
        let mut p: usize = 0;
        while p < self.output.len()
            invariant
                p <= self.output.len(),
                forall|q: int| 0 <= q < p ==> !plane_has_nan((#[trigger] self.output@[q])@),
            decreases self.output.len() - p,
        {
            if nan_in_plane(&self.output[p]) {
                assert(plane_has_nan(self.output@[p as int]@));
                return true;
            }
            p += 1;
        }
        false
    }
}

proof fn plane_peak_bounds(plane: Seq<u32>, i: int)
    requires
        0 <= i < plane.len(),
        !is_nan(plane[i]),
    ensures
        magnitude(plane[i]) <= plane_peak(plane),
    decreases plane.len(),
{
    if i < plane.len() - 1 {
        plane_peak_bounds(plane.drop_last(), i);
    }
}

/// No sample that is a number exceeds the peak.
pub proof fn no_sample_exceeds_the_peak(planes: Seq<Vec<u32>>, p: int, i: int)
    requires
        0 <= p < planes.len(),
        0 <= i < planes[p]@.len(),
        !is_nan(planes[p]@[i]),
    ensures
        magnitude(planes[p]@[i]) <= peak_of(planes),
    decreases planes.len(),
{
    if p < planes.len() - 1 {
        no_sample_exceeds_the_peak(planes.drop_last(), p, i);
    } else {
        plane_peak_bounds(planes[p]@, i);
    }
}

/// The planes of an input of `frames` frames, made of a sample for each channel
/// and frame.
pub fn generate<S, F: Fn(usize, usize) -> S>(channels: usize, frames: usize, generator: F) -> (
    planes: Vec<Vec<S>>)
    requires
        forall|ch: usize, frame: usize|
            ch < channels && frame < frames ==> call_requires(generator, (ch, frame)),
    ensures
        planes@.len() == channels,
        forall|ch: int|
            0 <= ch < channels ==> (#[trigger] planes@[ch])@.len() == frames,
        forall|ch: int, frame: int|
            0 <= ch < channels && 0 <= frame < frames ==> call_ensures(
                generator,
                (ch as usize, frame as usize),
                #[trigger] planes@[ch]@[frame],
            ),
{
    let mut planes: Vec<Vec<S>> = Vec::new();
    let mut ch: usize = 0;
    while ch < channels
        invariant
            ch <= channels,
            planes@.len() == ch,
            forall|c: usize, frame: usize|
                c < channels && frame < frames ==> call_requires(generator, (c, frame)),
            forall|c: int| 0 <= c < ch ==> (#[trigger] planes@[c])@.len() == frames,
            forall|c: int, frame: int|
                0 <= c < ch && 0 <= frame < frames ==> call_ensures(
                    generator,
                    (c as usize, frame as usize),
                    #[trigger] planes@[c]@[frame],
                ),
        decreases channels - ch,
    {
        let mut plane: Vec<S> = Vec::new();
        let mut frame: usize = 0;
        while frame < frames
            invariant
                frame <= frames,
                ch < channels,
                plane@.len() == frame,
                forall|c: usize, f: usize|
                    c < channels && f < frames ==> call_requires(generator, (c, f)),
                forall|f: int|
                    0 <= f < frame ==> call_ensures(
                        generator,
                        (ch, f as usize),
                        #[trigger] plane@[f],
                    ),
            decreases frames - frame,
        {
            plane.push(generator(ch, frame));
            frame += 1;
        }
        planes.push(plane);
        ch += 1;
    }
    planes
}

/// Whether saved state came back as it was: the same bytes both times.
pub fn assert_state_round_trip(first: &[u8], second: &[u8]) -> (result: Result<(), Error>)
    ensures
        match result {
            Ok(_) => first@ == second@,
            Err(e) => first@ != second@ && e@ == ErrorView::Other(
                "state round-trip mismatch: first "@ + text::decimal(first@.len())
                    + " bytes, second "@ + text::decimal(second@.len()) + " bytes"@,
            ),
        },
{
    let first_len: usize = first.len();
    let second_len: usize = second.len();
    if crate::lv2::urid::same_bytes(first, second) {
        return Ok(());
    }
    let mut message = String::from_str("state round-trip mismatch: first ");
    text::push_decimal(&mut message, first_len as u64);
    message.append(" bytes, second ");
    text::push_decimal(&mut message, second_len as u64);
    message.append(" bytes");
    Err(Error::Other(message))
}

/// The peak is a magnitude that some sample has, or 0 where there is none: louder
/// than silence only where a sample is.
pub proof fn some_sample_reaches_the_peak(planes: Seq<Vec<u32>>)
    ensures
        peak_of(planes) == 0 || exists|p: int, i: int|
            #![trigger planes[p]@[i]]
            0 <= p < planes.len() && 0 <= i < planes[p]@.len() && !is_nan(planes[p]@[i])
                && magnitude(planes[p]@[i]) == peak_of(planes),
    decreases planes.len(),
{
    if planes.len() > 0 {
        let less = planes.drop_last();
        some_sample_reaches_the_peak(less);
        let last = planes.len() - 1;
        plane_peak_is_reached(planes[last]@);
        if plane_peak(planes[last]@) > peak_of(less) {
            let i = choose|i: int|
                0 <= i < planes[last]@.len() && !is_nan(#[trigger] planes[last]@[i]) && magnitude(
                    planes[last]@[i],
                ) == plane_peak(planes[last]@);
            assert(magnitude(planes[last]@[i]) == peak_of(planes));
        } else if peak_of(less) != 0 {
            let (p, i) = choose|p: int, i: int|
                #![trigger less[p]@[i]]
                0 <= p < less.len() && 0 <= i < less[p]@.len() && !is_nan(less[p]@[i])
                    && magnitude(less[p]@[i]) == peak_of(less);
            assert(planes[p]@[i] == less[p]@[i]);
        }
    }
}

proof fn plane_peak_is_reached(plane: Seq<u32>)
    ensures
        plane_peak(plane) == 0 || exists|i: int|
            0 <= i < plane.len() && !is_nan(#[trigger] plane[i]) && magnitude(plane[i])
                == plane_peak(plane),
    decreases plane.len(),
{
    if plane.len() > 0 {
        let less = plane.drop_last();
        plane_peak_is_reached(less);
        let last = plane.len() - 1;
        assert(plane[last] == plane.last());
        if plane_peak(plane) == plane_peak(less) && plane_peak(less) != 0 {
            let i = choose|i: int|
                0 <= i < less.len() && !is_nan(#[trigger] less[i]) && magnitude(less[i])
                    == plane_peak(less);
            assert(plane[i] == less[i]);
        }
    }
}

/// A sample's magnitude is its pattern without the sign bit, and it is no number just
/// where all bits of its exponent are set and some bit after them is.
pub proof fn magnitudes_have_no_sign(bits: u32)
    ensures
        magnitude(bits) == bits & 0x7FFF_FFFF,
        magnitude(bits ^ 0x8000_0000) == magnitude(bits),
        is_nan(bits) <==> bits & 0x7F80_0000 == 0x7F80_0000 && bits & 0x7F_FFFF != 0,
{
    assert(bits % 0x8000_0000 == bits & 0x7FFF_FFFF && (bits ^ 0x8000_0000) % 0x8000_0000 == bits
        % 0x8000_0000 && (bits % 0x8000_0000 > 0x7F80_0000) == (bits & 0x7F80_0000 == 0x7F80_0000
        && bits & 0x7F_FFFF != 0)) by (bit_vector);
}

} // verus!
