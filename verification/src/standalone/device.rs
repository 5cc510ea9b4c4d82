//! Audio output device, channel routing and stream settings.

use crate::error::{Error, ErrorView};
use crate::text;
use vstd::prelude::*;
use vstd::string::StringExecFns;

verus! {

// ---------------------------------------------------------------------------
// Channel routes
// ---------------------------------------------------------------------------

/// How the plugin's output channels map onto the device's channels.
///
/// Users count channels from 1; `base` counts from 0.
#[derive(Clone, Copy, PartialEq, Eq, Debug, Structural)]
pub enum ChannelRoute {
    /// Plugin channel N goes to device channel N.
    Direct,
    /// Plugin channels 0 and 1 go to device channels `base` and `base + 1`, and
    /// every other device channel is silent.
    Stereo {
        /// First device channel.
        base: usize,
    },
    /// Plugin channels 0 and 1 are summed into device channel `base`, and every
    /// other device channel is silent.
    Mono {
        /// Device channel.
        base: usize,
    },
}

impl Default for ChannelRoute {
    fn default() -> (route: Self)
        ensures
            route == ChannelRoute::Direct,
    {
        ChannelRoute::Direct
    }
}

/// The channel number that `s` writes.
pub open spec fn channel_number(s: Seq<char>) -> Option<nat> {
    text::number_up_to(s, 10, usize::MAX as nat)
}

/// The route that `spec` names: `direct` or `all`, a channel, or a pair of
/// neighbouring channels with a dash between them. Channels count from 1; case
/// and surrounding white space do not matter.
pub open spec fn route_of(spec: Seq<char>) -> Option<ChannelRoute> {
    let s = text::ascii_lower(text::trimmed(spec));
    let dash = text::index_or_len(s, '-');
    if s == "direct"@ || s == "all"@ {
        Some(ChannelRoute::Direct)
    } else if dash < s.len() {
        match (
            channel_number(text::trimmed(s.take(dash))),
            channel_number(text::trimmed(s.skip(dash + 1))),
        ) {
            (Some(a), Some(b)) => if a >= 1 && b == a + 1 {
                Some(ChannelRoute::Stereo { base: (a - 1) as usize })
            } else {
                None
            },
            _ => None,
        }
    } else {
        match channel_number(s) {
            Some(c) => if c >= 1 {
                Some(ChannelRoute::Mono { base: (c - 1) as usize })
            } else {
                None
            },
            None => None,
        }
    }
}

/// The channel number that the characters write.
fn parse_channel(s: &[char]) -> (number: Option<usize>)
    ensures
        match number {
            Some(n) => channel_number(s@) == Some(n as nat),
            None => channel_number(s@) is None,
        },
{
    match text::parse_number(s, 10, usize::MAX as u64) {
        Some(n) => Some(n as usize),
        None => None,
    }
}

impl ChannelRoute {
    /// The route that `spec` names, where it names one.
    #[must_use]
    pub fn parse(spec: &str) -> (route: Option<ChannelRoute>)
        ensures
            route == route_of(spec@),
    {
        let chars = text::chars_of(spec);
        let lowered = text::lower(text::trim(chars.as_slice()));
        let s = lowered.as_slice();
        if text::is_text(s, "direct") || text::is_text(s, "all") {
            return Some(ChannelRoute::Direct);
        }
        let (first, rest) = text::split_first(s, '-');
        match rest {
            Some(second) => match (
                parse_channel(text::trim(first)),
                parse_channel(text::trim(second)),
            ) {
                (Some(a), Some(b)) => {
                    if a >= 1 && b > a && b - a == 1 {
                        Some(ChannelRoute::Stereo { base: a - 1 })
                    } else {
                        None
                    }
                },
                _ => None,
            },
            None => match parse_channel(s) {
                Some(c) => {
                    if c >= 1 {
                        Some(ChannelRoute::Mono { base: c - 1 })
                    } else {
                        None
                    }
                },
                None => None,
            },
        }
    }

    /// The number that stands for this route.
    pub open spec fn code(self) -> int {
        match self {
            ChannelRoute::Direct => 0,
            ChannelRoute::Stereo { base } => 1 + 2 * base,
            ChannelRoute::Mono { base } => 2 + 2 * base,
        }
    }

    /// The number that stands for this route. `Direct` is 0, so that a number
    /// that was never set means the default.
    #[must_use]
    pub fn encode(self) -> (code: usize)
        requires
            self.code() <= usize::MAX,
        ensures
            code == self.code(),
    {
        match self {
            ChannelRoute::Direct => 0,
            ChannelRoute::Stereo { base } => 1 + base * 2,
            ChannelRoute::Mono { base } => 2 + base * 2,
        }
    }

    /// The route that a number stands for.
    pub open spec fn of_code(code: usize) -> ChannelRoute {
        if code == 0 {
            ChannelRoute::Direct
        } else if code % 2 == 1 {
            ChannelRoute::Stereo { base: ((code - 1) / 2) as usize }
        } else {
            ChannelRoute::Mono { base: ((code - 2) / 2) as usize }
        }
    }

    /// The route that a number stands for.
    #[must_use]
    pub fn decode(v: usize) -> (route: ChannelRoute)
        ensures
            route == ChannelRoute::of_code(v),
    {
        if v == 0 {
            return ChannelRoute::Direct;
        }
        let k: usize = v - 1;
        if k % 2 == 0 {
            ChannelRoute::Stereo { base: k / 2 }
        } else {
            ChannelRoute::Mono { base: (k - 1) / 2 }
        }
    }
}

/// Every route that has a number comes back from it, and every number from its
/// route.
pub proof fn routes_round_trip(route: ChannelRoute, code: usize)
    ensures
        route.code() <= usize::MAX ==> ChannelRoute::of_code(route.code() as usize) == route,
        ChannelRoute::of_code(code).code() == code,
{
}

// ---------------------------------------------------------------------------
// Writing to the device
// ---------------------------------------------------------------------------

/// What a route puts into device channel `ch`.
#[derive(Clone, Copy, PartialEq, Eq, Debug, Structural)]
pub enum Source {
    /// Silence.
    Silence,
    /// This plugin channel.
    Plane(usize),
    /// The sum of plugin channels 0 and 1.
    Sum,
}

impl ChannelRoute {
    /// What this route puts into device channel `ch`, of `channels`, where the
    /// plugin has `planes` output channels. Where `Direct` runs out of plugin
    /// channels it repeats the last.
    pub open spec fn source(self, ch: int, channels: nat, planes: nat) -> Source {
        if planes == 0 || channels == 0 {
            Source::Silence
        } else {
            match self {
                ChannelRoute::Direct => Source::Plane(
                    (if ch < planes {
                        ch
                    } else {
                        planes - 1
                    }) as usize,
                ),
                ChannelRoute::Stereo { base } => if ch == base {
                    Source::Plane(0)
                } else if ch == base + 1 && planes > 1 {
                    Source::Plane(1)
                } else {
                    Source::Silence
                },
                ChannelRoute::Mono { base } => if ch == base {
                    if planes > 1 {
                        Source::Sum
                    } else {
                        Source::Plane(0)
                    }
                } else {
                    Source::Silence
                },
            }
        }
    }

    /// Whether the samples after the block are silenced.
    pub open spec fn silences_rest(self, channels: nat, planes: nat) -> bool {
        planes == 0 || channels == 0 || self != ChannelRoute::Direct
    }
}

/// Whether `value` is what `source` gives in frame `frame`, where `sum` adds
/// samples.
pub open spec fn is_sample<S, F: Fn(S, S) -> S>(
    value: S,
    source: Source,
    planes: Seq<Vec<S>>,
    frame: int,
    zero: S,
    sum: F,
) -> bool {
    match source {
        Source::Silence => value == zero,
        Source::Plane(p) => value == planes[p as int]@[frame],
        Source::Sum => call_ensures(sum, (planes[0]@[frame], planes[1]@[frame]), value),
    }
}

/// Whether sample `i` of the interleaved `out`, which was `before`, is what
/// `route` gives in the frame and the channel where it stands.
pub open spec fn is_routed<S, F: Fn(S, S) -> S>(
    route: ChannelRoute,
    before: Seq<S>,
    out: Seq<S>,
    i: int,
    planes: Seq<Vec<S>>,
    channels: nat,
    frames: nat,
    zero: S,
    sum: F,
) -> bool {
    if channels > 0 && i / (channels as int) < frames {
        is_sample(
            out[i],
            route.source(i % channels as int, channels, planes.len()),
            planes,
            i / channels as int,
            zero,
            sum,
        )
    } else if route.silences_rest(channels, planes.len()) {
        out[i] == zero
    } else {
        out[i] == before[i]
    }
}

/// Whether device channel `ch` of every frame lies within a buffer of `len`
/// samples.
pub open spec fn in_buffer(len: nat, channels: nat, frames: nat, ch: int) -> bool {
    frames == 0 || (frames - 1) * channels + ch < len
}

impl ChannelRoute {
    /// Whether a block can be written: the buffer holds what is written to it,
    /// and the planes what is read from them.
    pub open spec fn fits<S>(self, len: nat, planes: Seq<Vec<S>>, channels: nat, frames: nat) -> bool {
        planes.len() > 0 && channels > 0 ==> match self {
            ChannelRoute::Direct => in_buffer(len, channels, frames, channels - 1) && forall|p: int|
                0 <= p < planes.len() && p < channels ==> (#[trigger] planes[p])@.len() >= frames,
            ChannelRoute::Stereo { base } => {
                &&& base < channels ==> in_buffer(len, channels, frames, base as int)
                    && planes[0]@.len() >= frames
                &&& planes.len() > 1 ==> base < usize::MAX
                &&& planes.len() > 1 && base + 1 < channels ==> in_buffer(
                    len,
                    channels,
                    frames,
                    base + 1,
                ) && planes[1]@.len() >= frames
            },
            ChannelRoute::Mono { base } => {
                &&& base < channels ==> in_buffer(len, channels, frames, base as int)
                    && planes[0]@.len() >= frames
                &&& base < channels && planes.len() > 1 ==> planes[1]@.len() >= frames
            },
        }
    }
}

/// The place of channel `ch` of frame `frame` in an interleaved buffer.
proof fn place(frame: int, channels: int, ch: int)
    requires
        0 <= ch < channels,
        0 <= frame,
    ensures
        (frame * channels + ch) / channels == frame,
        (frame * channels + ch) % channels == ch,
        frame * channels >= 0,
{
    vstd::arithmetic::div_mod::lemma_fundamental_div_mod_converse(
        frame * channels + ch,
        channels,
        frame,
        ch,
    );
    assert(frame * channels >= 0) by (nonlinear_arith)
        requires
            frame >= 0,
            channels > 0,
    ;
}

/// A sample at `i` stands at one place only.
proof fn same_place(i: int, frame: int, channels: int, ch: int)
    requires
        channels > 0,
        i / channels == frame,
        i % channels == ch,
    ensures
        i == frame * channels + ch,
{
    vstd::arithmetic::div_mod::lemma_fundamental_div_mod(i, channels);
    assert(channels * frame == frame * channels) by (nonlinear_arith);
}

/// Channel `ch` of an earlier frame lies within the buffer too.
proof fn earlier_frames_fit(len: nat, channels: nat, frames: nat, frame: int, ch: int)
    requires
        in_buffer(len, channels, frames, ch),
        0 <= frame < frames,
    ensures
        frame * channels + ch < len,
{
    assert(frame * channels <= (frames - 1) * channels) by (nonlinear_arith)
        requires
            0 <= frame <= frames - 1,
            channels >= 0,
    ;
}

/// Fills `out` with `value`.
fn fill<S: Copy>(out: &mut [S], value: S)
    ensures
        final(out)@ == Seq::new(old(out)@.len(), |i: int| value),
{
    let len: usize = out.len();
    let mut i: usize = 0;
    while i < len
        invariant
            i <= len,
            len == out@.len(),
            out@.len() == old(out)@.len(),
            forall|j: int| 0 <= j < i ==> out@[j] == value,
        decreases len - i,
    {
        out[i] = value;
        i += 1;
    }
    assert(out@ =~= Seq::new(old(out)@.len(), |i: int| value));
}

impl ChannelRoute {
    /// Writes one block of plugin output into the interleaved device buffer
    /// `out`. `bufs` holds one plane per plugin output channel, `channels` is the
    /// device's channel count, and `sum` adds samples.
    pub fn write<S: Copy, F: Fn(S, S) -> S>(
        self,
        out: &mut [S],
        bufs: &[Vec<S>],
        channels: usize,
        frames: usize,
        zero: S,
        sum: F,
    )
        requires
            self.fits(old(out)@.len(), bufs@, channels as nat, frames as nat),
            forall|a: S, b: S| call_requires(sum, (a, b)),
        ensures
            final(out)@.len() == old(out)@.len(),
            forall|i: int|
                0 <= i < final(out)@.len() ==> #[trigger] is_routed(
                    self,
                    old(out)@,
                    final(out)@,
                    i,
                    bufs@,
                    channels as nat,
                    frames as nat,
                    zero,
                    sum,
                ),
    {
        let planes: usize = bufs.len();
        let len: usize = out.len();
        if planes == 0 || channels == 0 {
            fill(out, zero);
            return;
        }
        match self {
            ChannelRoute::Direct => {
                write_direct(out, bufs, channels, frames, zero, sum);
            },
            ChannelRoute::Stereo { base } => {
                fill(out, zero);
                let mut frame: usize = 0;
                while frame < frames
                    invariant
                        frame <= frames,
                        planes == bufs@.len(),
                        planes > 0,
                        channels > 0,
                        len == out@.len(),
                        self == (ChannelRoute::Stereo { base }),
                        self.fits(out@.len(), bufs@, channels as nat, frames as nat),
                        out@.len() == old(out)@.len(),
                        forall|i: int|
                            0 <= i < out@.len() ==> #[trigger] is_routed(
                                self,
                                old(out)@,
                                out@,
                                i,
                                bufs@,
                                channels as nat,
                                frame as nat,
                                zero,
                                sum,
                            ),
                    decreases frames - frame,
                {
                    let ghost before = out@;
                    if base < channels {
                        proof {
                            earlier_frames_fit(
                                out@.len(),
                                channels as nat,
                                frames as nat,
                                frame as int,
                                base as int,
                            );
                            place(frame as int, channels as int, base as int);
                        }
                        out[frame * channels + base] = bufs[0][frame];
                    }
                    if planes > 1 && base + 1 < channels {
                        proof {
                            earlier_frames_fit(
                                out@.len(),
                                channels as nat,
                                frames as nat,
                                frame as int,
                                base + 1,
                            );
                            place(frame as int, channels as int, base + 1);
                        }
                        out[frame * channels + base + 1] = bufs[1][frame];
                    }
                    let ghost done = frame;
                    frame += 1;
                    assert forall|i: int| 0 <= i < out@.len() implies #[trigger] is_routed(
                        self,
                        old(out)@,
                        out@,
                        i,
                        bufs@,
                        channels as nat,
                        frame as nat,
                        zero,
                        sum,
                    ) by {
                        assert(is_routed(
                            self,
                            old(out)@,
                            before,
                            i,
                            bufs@,
                            channels as nat,
                            done as nat,
                            zero,
                            sum,
                        ));
                        vstd::arithmetic::div_mod::lemma_mod_bound(i, channels as int);
                        if i / channels as int == done as int {
                            same_place(i, done as int, channels as int, i % channels as int);
                        }
                    }
                }
            },
            ChannelRoute::Mono { base } => {
                fill(out, zero);
                if base < channels {
                    let mut frame: usize = 0;
                    while frame < frames
                        invariant
                            frame <= frames,
                            planes == bufs@.len(),
                            planes > 0,
                            channels > 0,
                            base < channels,
                            len == out@.len(),
                            self == (ChannelRoute::Mono { base }),
                            self.fits(out@.len(), bufs@, channels as nat, frames as nat),
                            out@.len() == old(out)@.len(),
                            forall|a: S, b: S| call_requires(sum, (a, b)),
                            forall|i: int|
                                0 <= i < out@.len() ==> #[trigger] is_routed(
                                    self,
                                    old(out)@,
                                    out@,
                                    i,
                                    bufs@,
                                    channels as nat,
                                    frame as nat,
                                    zero,
                                    sum,
                                ),
                        decreases frames - frame,
                    {
                        let ghost before = out@;
                        let mut v = bufs[0][frame];
                        if planes > 1 {
                            v = sum(v, bufs[1][frame]);
                        }
                        proof {
                            earlier_frames_fit(
                                out@.len(),
                                channels as nat,
                                frames as nat,
                                frame as int,
                                base as int,
                            );
                            place(frame as int, channels as int, base as int);
                        }
                        out[frame * channels + base] = v;
                        let ghost done = frame;
                        frame += 1;
                        assert forall|i: int| 0 <= i < out@.len() implies #[trigger] is_routed(
                            self,
                            old(out)@,
                            out@,
                            i,
                            bufs@,
                            channels as nat,
                            frame as nat,
                            zero,
                            sum,
                        ) by {
                            assert(is_routed(
                                self,
                                old(out)@,
                                before,
                                i,
                                bufs@,
                                channels as nat,
                                done as nat,
                                zero,
                                sum,
                            ));
                            vstd::arithmetic::div_mod::lemma_mod_bound(i, channels as int);
                            if i / channels as int == done as int {
                                same_place(i, done as int, channels as int, i % channels as int);
                            }
                        }
                    }
                } else {
                    assert forall|i: int| 0 <= i < out@.len() implies #[trigger] is_routed(
                        self,
                        old(out)@,
                        out@,
                        i,
                        bufs@,
                        channels as nat,
                        frames as nat,
                        zero,
                        sum,
                    ) by {
                        vstd::arithmetic::div_mod::lemma_mod_bound(i, channels as int);
                    }
                }
            },
        }
    }
}

/// Writes one block with device channel N from plugin channel N.
fn write_direct<S: Copy, F: Fn(S, S) -> S>(
    out: &mut [S],
    bufs: &[Vec<S>],
    channels: usize,
    frames: usize,
    zero: S,
    sum: F,
)
    requires
        bufs@.len() > 0,
        channels > 0,
        ChannelRoute::Direct.fits(old(out)@.len(), bufs@, channels as nat, frames as nat),
    ensures
        final(out)@.len() == old(out)@.len(),
        forall|i: int|
            0 <= i < final(out)@.len() ==> #[trigger] is_routed(
                ChannelRoute::Direct,
                old(out)@,
                final(out)@,
                i,
                bufs@,
                channels as nat,
                frames as nat,
                zero,
                sum,
            ),
{
    let planes: usize = bufs.len();
    let len: usize = out.len();
    let mut frame: usize = 0;
    while frame < frames
        invariant
            frame <= frames,
            len == out@.len(),
            planes == bufs@.len(),
            planes > 0,
            channels > 0,
            ChannelRoute::Direct.fits(out@.len(), bufs@, channels as nat, frames as nat),
            out@.len() == old(out)@.len(),
            forall|i: int|
                0 <= i < out@.len() ==> #[trigger] is_routed(
                    ChannelRoute::Direct,
                    old(out)@,
                    out@,
                    i,
                    bufs@,
                    channels as nat,
                    frame as nat,
                    zero,
                    sum,
                ),
        decreases frames - frame,
    {
        let ghost before = out@;
        let mut ch: usize = 0;
        while ch < channels
            invariant
                ch <= channels,
                frame < frames,
                len == out@.len(),
                planes == bufs@.len(),
                planes > 0,
                channels > 0,
                ChannelRoute::Direct.fits(out@.len(), bufs@, channels as nat, frames as nat),
                out@.len() == before.len(),
                forall|i: int|
                    0 <= i < out@.len() ==> #[trigger] out@[i] == (if i / channels as int
                        == frame as int && i % (channels as int) < ch as int {
                        bufs@[if i % (channels as int) < planes as int {
                            i % channels as int
                        } else {
                            planes - 1
                        }]@[frame as int]
                    } else {
                        before[i]
                    }),
            decreases channels - ch,
        {
            let plane: usize = if ch < planes {
                ch
            } else {
                planes - 1
            };
            proof {
                earlier_frames_fit(
                    out@.len(),
                    channels as nat,
                    frames as nat,
                    frame as int,
                    channels - 1,
                );
                place(frame as int, channels as int, ch as int);
            }
            let ghost now = out@;
            out[frame * channels + ch] = bufs[plane][frame];
            assert forall|i: int| 0 <= i < out@.len() implies #[trigger] out@[i] == (if i
                / channels as int == frame as int && i % (channels as int) < ch + 1 {
                bufs@[if i % (channels as int) < planes as int {
                    i % channels as int
                } else {
                    planes - 1
                }]@[frame as int]
            } else {
                before[i]
            }) by {
                if i / channels as int == frame as int && i % channels as int == ch as int {
                    same_place(i, frame as int, channels as int, ch as int);
                } else {
                    assert(i != frame * channels + ch);
                    assert(out@[i] == now[i]);
                }
            }
            ch += 1;
        }
        let ghost done = frame;
        frame += 1;
        assert forall|i: int| 0 <= i < out@.len() implies #[trigger] is_routed(
            ChannelRoute::Direct,
            old(out)@,
            out@,
            i,
            bufs@,
            channels as nat,
            frame as nat,
            zero,
            sum,
        ) by {
            assert(is_routed(
                ChannelRoute::Direct,
                old(out)@,
                before,
                i,
                bufs@,
                channels as nat,
                done as nat,
                zero,
                sum,
            ));
            vstd::arithmetic::div_mod::lemma_mod_bound(i, channels as int);
        }
    }
}

// ---------------------------------------------------------------------------
// Settings
// ---------------------------------------------------------------------------

/// Device and stream choices.
#[derive(Debug)]
pub struct DeviceConfig {
    /// Part of the output device's name, whatever its case; the default device
    /// where there is none.
    pub output_device: Option<String>,
    /// How plugin output maps onto device channels.
    pub output_route: ChannelRoute,
    /// Sample rate in Hz; the device's own where there is none.
    pub sample_rate: Option<u32>,
    /// Buffer size in frames; the device's own where there is none.
    pub buffer_size: Option<u32>,
}

/// Device and stream choices, with text.
pub struct DeviceConfigView {
    /// Part of the output device's name.
    pub output_device: Option<Seq<char>>,
    /// How plugin output maps onto device channels.
    pub output_route: ChannelRoute,
    /// Sample rate.
    pub sample_rate: Option<u32>,
    /// Buffer size.
    pub buffer_size: Option<u32>,
}

/// The text of a string, where there is one.
pub open spec fn text_of(s: Option<String>) -> Option<Seq<char>> {
    match s {
        Some(s) => Some(s@),
        None => None,
    }
}

impl View for DeviceConfig {
    type V = DeviceConfigView;

    open spec fn view(&self) -> DeviceConfigView {
        DeviceConfigView {
            output_device: text_of(self.output_device),
            output_route: self.output_route,
            sample_rate: self.sample_rate,
            buffer_size: self.buffer_size,
        }
    }
}

/// The default device with its own settings, and every channel as it is.
pub open spec fn default_config() -> DeviceConfigView {
    DeviceConfigView {
        output_device: None,
        output_route: ChannelRoute::Direct,
        sample_rate: None,
        buffer_size: None,
    }
}

impl Default for DeviceConfig {
    fn default() -> (config: Self)
        ensures
            config@ == default_config(),
    {
        DeviceConfig {
            output_device: None,
            output_route: ChannelRoute::Direct,
            sample_rate: None,
            buffer_size: None,
        }
    }
}

impl Clone for DeviceConfig {
    fn clone(&self) -> (config: Self)
        ensures
            config@ == self@,
    {
        DeviceConfig {
            output_device: match &self.output_device {
                Some(name) => Some(name.clone()),
                None => None,
            },
            output_route: self.output_route,
            sample_rate: self.sample_rate,
            buffer_size: self.buffer_size,
        }
    }
}

/// The settings that a running host shares: the choices it was started with, and
/// the number of the route that applies now.
#[derive(Debug)]
pub struct DeviceSettings {
    /// The choices, once they were made.
    pub chosen: Option<DeviceConfig>,
    /// The route's number.
    pub live: usize,
}

impl DeviceSettings {
    /// Settings before any choice was made.
    #[must_use]
    pub fn new() -> (settings: Self)
        ensures
            settings.chosen is None,
            settings.live == 0,
    {
        DeviceSettings { chosen: None, live: 0 }
    }
}

/// The choices that apply: those that were made, or the default ones.
pub open spec fn config_spec(settings: DeviceSettings) -> DeviceConfigView {
    match settings.chosen {
        Some(config) => config@,
        None => default_config(),
    }
}

/// Makes the choices, whose route then applies. Only the first ones count: later
/// ones change nothing.
pub fn set_config(settings: &mut DeviceSettings, config: DeviceConfig)
    requires
        old(settings).chosen is None ==> config.output_route.code() <= usize::MAX,
    ensures
        final(settings).live == (if old(settings).chosen is Some {
            old(settings).live as int
        } else {
            config.output_route.code()
        }),
        final(settings).chosen == (if old(settings).chosen is Some {
            old(settings).chosen
        } else {
            Some(config)
        }),
{
    if settings.chosen.is_none() {
        settings.live = config.output_route.encode();
        settings.chosen = Some(config);
    }
}

/// The choices that apply.
#[must_use]
pub fn config(settings: &DeviceSettings) -> (config: DeviceConfig)
    ensures
        config@ == config_spec(*settings),
{
    match &settings.chosen {
        Some(config) => config.clone(),
        None => DeviceConfig::default(),
    }
}

/// The route that applies now.
#[must_use]
pub fn live_route(settings: &DeviceSettings) -> (route: ChannelRoute)
    ensures
        route == ChannelRoute::of_code(settings.live),
{
    ChannelRoute::decode(settings.live)
}

/// Changes the route that applies.
pub fn set_live_route(settings: &mut DeviceSettings, route: ChannelRoute)
    requires
        route.code() <= usize::MAX,
    ensures
        final(settings).live == route.code(),
        final(settings).chosen == old(settings).chosen,
        ChannelRoute::of_code(final(settings).live) == route,
{
    settings.live = route.encode();
}

// ---------------------------------------------------------------------------
// Devices
// ---------------------------------------------------------------------------

/// Whether a device's name, in small letters, holds `needle`.
#[must_use]
pub fn name_matches(lowered: &str, needle: &str) -> (found: bool)
    ensures
        found == text::contains_text(lowered@, needle@),
{
    text::contains(text::chars_of(lowered).as_slice(), text::chars_of(needle).as_slice())
}

/// Whether a device of this name is asked for by `wanted`; one without a name is
/// not.
pub open spec fn device_matches(name: Option<String>, wanted: Seq<char>) -> bool {
    match name {
        Some(n) => text::contains_text(text::lowercase(n@), text::lowercase(wanted)),
        None => false,
    }
}

/// The first device whose name holds `wanted`, whatever the case of either.
#[must_use]
pub fn find_output_device(names: &[Option<String>], wanted: &str) -> (found: Option<usize>)
    ensures
        match found {
            Some(i) => i < names@.len() && device_matches(names@[i as int], wanted@) && forall|
                j: int,
            |
                0 <= j < i ==> !device_matches(#[trigger] names@[j], wanted@),
            None => forall|j: int|
                0 <= j < names@.len() ==> !device_matches(#[trigger] names@[j], wanted@),
        },
{
    let needle = text::to_lowercase(wanted);
    let mut i: usize = 0;
    while i < names.len()
        invariant
            i <= names.len(),
            needle@ == text::lowercase(wanted@),
            forall|j: int| 0 <= j < i ==> !device_matches(#[trigger] names@[j], wanted@),
        decreases names.len() - i,
    {
        if let Some(name) = &names[i] {
            if name_matches(text::to_lowercase(name.as_str()).as_str(), needle.as_str()) {
                return Some(i);
            }
        }
        i += 1;
    }
    None
}

/// Which output device to open.
#[derive(Clone, Copy, PartialEq, Eq, Debug, Structural)]
pub enum OutputChoice {
    /// The default device.
    Default,
    /// The device with this index.
    Device(usize),
}

/// Which output device to open: the one that was asked for, where it was found
/// at `found`, or the default one.
pub fn open_output(wanted: Option<&str>, found: Option<usize>, has_default: bool) -> (result: Result<
    OutputChoice,
    Error,
>)
    ensures
        match result {
            Ok(OutputChoice::Device(i)) => wanted is Some && found == Some(i),
            Ok(OutputChoice::Default) => wanted is None && has_default,
            Err(e) => match wanted {
                Some(name) => found is None && e@ == ErrorView::Other(
                    "no output device matching "@ + text::quoted(name@),
                ),
                None => !has_default && e@ == ErrorView::Other("no default output device"@),
            },
        },
{
    match wanted {
        Some(name) => match found {
            Some(i) => Ok(OutputChoice::Device(i)),
            None => {
                let mut message = String::from_str("no output device matching ");
                message.append(text::quote(name).as_str());
                Err(Error::Other(message))
            },
        },
        None => {
            if has_default {
                Ok(OutputChoice::Default)
            } else {
                Err(Error::other("no default output device"))
            }
        },
    }
}

/// The settings of a stream.
#[derive(Debug)]
pub struct StreamChoice {
    /// Sample rate in Hz.
    pub sample_rate: u32,
    /// Buffer size in frames; the device's own where there is none.
    pub buffer_size: Option<u32>,
    /// What to warn of, where the rate that was asked for is not supported.
    pub warning: Option<String>,
}

/// Whether one of the device's rate ranges holds `rate`.
pub open spec fn supports(ranges: Seq<(u32, u32)>, rate: u32) -> bool {
    exists|i: int| 0 <= i < ranges.len() && (#[trigger] ranges[i]).0 <= rate <= ranges[i].1
}

/// The warning that a rate is not supported.
pub open spec fn rate_warning(rate: u32, default_rate: u32) -> Seq<char> {
    "[truce-rack-standalone] sample rate "@ + text::decimal(rate as nat)
        + " Hz not supported by this device; using default "@ + text::decimal(
        default_rate as nat,
    ) + " Hz"@
}

/// The settings of a stream on a device with this default rate and these rate
/// ranges, lowest and highest. A rate that no range holds is not taken.
#[must_use]
pub fn resolve_stream_config(config: &DeviceConfig, default_rate: u32, ranges: &[(u32, u32)]) -> (
    choice: StreamChoice)
    ensures
        choice.buffer_size == config.buffer_size,
        match config.sample_rate {
            Some(rate) if supports(ranges@, rate) => choice.sample_rate == rate && choice.warning
                is None,
            Some(rate) => choice.sample_rate == default_rate && (choice.warning matches Some(w)
                && w@ == rate_warning(rate, default_rate)),
            None => choice.sample_rate == default_rate && choice.warning is None,
        },
{
    let mut sample_rate: u32 = default_rate;
    let mut warning: Option<String> = None;
    if let Some(rate) = config.sample_rate {
        if rate_supported(ranges, rate) {
            sample_rate = rate;
        } else {
            let mut w = String::from_str("[truce-rack-standalone] sample rate ");
            text::push_decimal(&mut w, rate as u64);
            w.append(" Hz not supported by this device; using default ");
            text::push_decimal(&mut w, default_rate as u64);
            w.append(" Hz");
            warning = Some(w);
        }
    }
    StreamChoice { sample_rate, buffer_size: config.buffer_size, warning }
}

fn rate_supported(ranges: &[(u32, u32)], rate: u32) -> (supported: bool)
    ensures
        supported == supports(ranges@, rate),
{
    let mut i: usize = 0;
    while i < ranges.len()
        invariant
            i <= ranges.len(),
            forall|j: int|
                0 <= j < i ==> !((#[trigger] ranges@[j]).0 <= rate <= ranges@[j].1),
        decreases ranges.len() - i,
    {
        let (low, high) = ranges[i];
        if low <= rate && high >= rate {
            assert(ranges@[i as int].0 <= rate <= ranges@[i as int].1);
            return true;
        }
        i += 1;
    }
    false
}

/// The line that lists a device, which is the default one or not.
pub open spec fn device_text(name: Seq<char>, is_default: bool) -> Seq<char> {
    "  "@ + name + (if is_default {
        " (default)"@
    } else {
        Seq::empty()
    })
}

/// The line that lists a device; the default one is marked.
#[must_use]
pub fn device_line(name: &str, default_name: Option<&str>) -> (line: String)
    ensures
        line@ == device_text(name@, default_name matches Some(d) && d@ == name@),
{
    let mut line = String::from_str("  ");
    line.append(name);
    if let Some(d) = default_name {
        if text::same_str(d, name) {
            line.append(" (default)");
            return line;
        }
    }
    assert(line@ =~= "  "@ + name@ + Seq::<char>::empty());
    line
}

// ---------------------------------------------------------------------------
// Block buffers
// ---------------------------------------------------------------------------

/// The frames in a device buffer of `samples` samples; a device without channels
/// counts as having one.
pub open spec fn frames_in(samples: nat, channels: nat) -> int {
    samples as int / (if channels == 0 {
        1
    } else {
        channels as int
    })
}

/// The frames in a device buffer of `samples` samples; a device without channels
/// counts as having one.
#[must_use]
pub fn block_frames(samples: usize, channels: usize) -> (frames: usize)
    ensures
        frames == frames_in(samples as nat, channels as nat),
{
    if channels == 0 {
        samples
    } else {
        samples / channels
    }
}

/// A plane that holds at least `frames` samples, the first of them silent.
pub open spec fn silenced<S>(plane: Seq<S>, frames: nat, zero: S) -> Seq<S> {
    Seq::new(
        if plane.len() < frames {
            frames
        } else {
            plane.len()
        },
        |i: int|
            if i < frames {
                zero
            } else {
                plane[i]
            },
    )
}

/// Makes a plane hold at least `frames` samples, the first of them silent.
fn silence_plane<S: Copy>(plane: &mut Vec<S>, frames: usize, zero: S)
    ensures
        final(plane)@ == silenced(old(plane)@, frames as nat, zero),
{
    let ghost before = plane@;
    let mut i: usize = 0;
    while i < frames && i < plane.len()
        invariant
            i <= frames,
            i <= plane@.len(),
            plane@.len() == before.len(),
            forall|j: int|
                0 <= j < plane@.len() ==> #[trigger] plane@[j] == (if j < i {
                    zero
                } else {
                    before[j]
                }),
        decreases frames - i,
    {
        plane.set(i, zero);
        i += 1;
    }
    while plane.len() < frames
        invariant
            before.len() <= plane@.len(),
            before.len() < plane@.len() ==> plane@.len() <= frames,
            forall|j: int|
                0 <= j < plane@.len() ==> #[trigger] plane@[j] == (if j < frames {
                    zero
                } else {
                    before[j]
                }),
        decreases frames - plane.len(),
    {
        plane.push(zero);
    }
    assert(plane@ =~= silenced(before, frames as nat, zero));
}

/// Makes every plane hold at least `frames` samples, the first of them silent.
pub fn prepare_planes<S: Copy>(planes: &mut Vec<Vec<S>>, frames: usize, zero: S)
    ensures
        final(planes)@.len() == old(planes)@.len(),
        forall|p: int|
            0 <= p < final(planes)@.len() ==> (#[trigger] final(planes)@[p])@ == silenced(
                old(planes)@[p]@,
                frames as nat,
                zero,
            ),
{
    let mut p: usize = 0;
    while p < planes.len()
        invariant
            p <= planes@.len(),
            planes@.len() == old(planes)@.len(),
            forall|q: int|
                0 <= q < planes@.len() ==> (#[trigger] planes@[q])@ == (if q < p {
                    silenced(old(planes)@[q]@, frames as nat, zero)
                } else {
                    old(planes)@[q]@
                }),
        decreases planes.len() - p,
    {
        let ghost before = planes@;
        let mut plane = planes.remove(p);
        silence_plane(&mut plane, frames, zero);
        planes.insert(p, plane);
        assert forall|q: int| 0 <= q < planes@.len() implies (#[trigger] planes@[q])@ == (if q < p
            + 1 {
            silenced(old(planes)@[q]@, frames as nat, zero)
        } else {
            old(planes)@[q]@
        }) by {
            assert(before[q]@ == before[q]@);
        }
        p += 1;
    }
}

/// A route that is written with channel numbers counted from 1 is read as the route
/// to those channels: one number is one channel, two neighbours with a dash between
/// them are a pair, and any other pair is no route. Neither is channel 0.
pub proof fn written_routes_are_read(a: nat, b: nat)
    requires
        a <= usize::MAX,
        b <= usize::MAX,
    ensures
        route_of(text::decimal(a)) == (if a == 0 {
            None
        } else {
            Some(ChannelRoute::Mono { base: (a - 1) as usize })
        }),
        route_of(text::decimal(a) + seq!['-'] + text::decimal(b)) == (if a >= 1 && b == a + 1 {
            Some(ChannelRoute::Stereo { base: (a - 1) as usize })
        } else {
            None
        }),
        route_of("direct"@) == Some(ChannelRoute::Direct),
        route_of("all"@) == Some(ChannelRoute::Direct),
{
    reveal_strlit("direct");
    reveal_strlit("all");
    let d = text::decimal(a);
    let e = text::decimal(b);
    text::decimals_are_digits(a);
    text::decimals_are_digits(b);
    text::decimals_stay_as_they_are(a);
    text::decimals_stay_as_they_are(b);
    assert('0' <= d[0] <= '9');
    // One number.
    text::index_or_len_is_first(d, '-');
    if text::index_or_len(d, '-') < d.len() {
        assert(d.contains(d[text::index_or_len(d, '-')]));
    }
    // Two numbers.
    let s = d + seq!['-'] + e;
    assert('0' <= e[e.len() - 1] <= '9');
    assert(s[0] == d[0] && s.last() == e[e.len() - 1]);
    assert(text::trimmed(s) == s);
    assert(text::ascii_lower(s) =~= s) by {
        assert forall|i: int| 0 <= i < s.len() implies text::ascii_lower_char(#[trigger] s[i])
            == s[i] by {
            if i < d.len() {
                assert('0' <= d[i] <= '9');
            } else if i > d.len() {
                assert('0' <= e[i - d.len() - 1] <= '9');
            }
        }
    }
    text::index_or_len_is_first(s, '-');
    let i = text::index_or_len(s, '-');
    assert(s[d.len() as int] == '-');
    if i == s.len() {
        assert(s.contains(s[d.len() as int]));
    } else if i < d.len() {
        assert(d.contains(d[i]));
    }
    assert(i == d.len());
    assert(s.take(i) =~= d);
    assert(s.skip(i + 1) =~= e);
    assert(text::trimmed("direct"@) == "direct"@);
    assert(text::trimmed("all"@) == "all"@);
    assert(text::ascii_lower("direct"@) =~= "direct"@);
    assert(text::ascii_lower("all"@) =~= "all"@);
}

/// What stands in channel `ch` of frame `frame` of a written block: with a direct
/// route the plugin's channel of the same number, or its last; with a pair, the
/// plugin's first two channels in the pair; with one channel, their sum; and
/// silence everywhere else.
pub proof fn device_channels_play_what_the_route_says<S, F: Fn(S, S) -> S>(
    route: ChannelRoute,
    before: Seq<S>,
    out: Seq<S>,
    planes: Seq<Vec<S>>,
    channels: nat,
    frames: nat,
    zero: S,
    sum: F,
    frame: int,
    ch: int,
)
    requires
        0 <= ch < channels,
        0 <= frame < frames,
        frame * channels + ch < out.len(),
        planes.len() <= usize::MAX,
        forall|i: int|
            0 <= i < out.len() ==> #[trigger] is_routed(
                route,
                before,
                out,
                i,
                planes,
                channels,
                frames,
                zero,
                sum,
            ),
    ensures
        ({
            let sample = out[frame * channels + ch];
            &&& planes.len() == 0 ==> sample == zero
            &&& planes.len() > 0 && route == ChannelRoute::Direct ==> sample == (if ch
                < planes.len() {
                planes[ch]@[frame]
            } else {
                planes[planes.len() - 1]@[frame]
            })
            &&& route matches ChannelRoute::Stereo { base } ==> {
                &&& planes.len() > 0 && ch == base ==> sample == planes[0]@[frame]
                &&& planes.len() > 1 && ch == base + 1 ==> sample == planes[1]@[frame]
                &&& ch != base && ch != base + 1 ==> sample == zero
                &&& planes.len() == 1 && ch == base + 1 ==> sample == zero
            }
            &&& route matches ChannelRoute::Mono { base } ==> {
                &&& planes.len() == 1 && ch == base ==> sample == planes[0]@[frame]
                &&& planes.len() > 1 && ch == base ==> call_ensures(
                    sum,
                    (planes[0]@[frame], planes[1]@[frame]),
                    sample,
                )
                &&& ch != base ==> sample == zero
            }
        }),
{
    place(frame, channels as int, ch);
    let i = frame * channels + ch;
    assert(is_routed(route, before, out, i, planes, channels, frames, zero, sum));
}

/// What stands behind the block is silenced by a route to some channels and left by
/// the direct one.
pub proof fn what_is_behind_the_block<S, F: Fn(S, S) -> S>(
    route: ChannelRoute,
    before: Seq<S>,
    out: Seq<S>,
    planes: Seq<Vec<S>>,
    channels: nat,
    frames: nat,
    zero: S,
    sum: F,
    i: int,
)
    requires
        channels > 0,
        planes.len() > 0,
        i / (channels as int) >= frames,
        is_routed(route, before, out, i, planes, channels, frames, zero, sum),
    ensures
        out[i] == (if route == ChannelRoute::Direct {
            before[i]
        } else {
            zero
        }),
{
}

/// A buffer has as many frames as it has room for, with one sample per channel each.
pub proof fn buffers_have_whole_frames(samples: nat, channels: nat)
    requires
        channels > 0,
    ensures
        frames_in(samples, channels) * channels <= samples,
        samples < (frames_in(samples, channels) + 1) * channels,
        frames_in(samples, 0) == samples,
{
    let s = samples as int;
    let c = channels as int;
    vstd::arithmetic::div_mod::lemma_fundamental_div_mod(s, c);
    vstd::arithmetic::div_mod::lemma_mod_bound(s, c);
    assert((s / c + 1) * c == c * (s / c) + c) by (nonlinear_arith);
    assert((s / c) * c == c * (s / c)) by (nonlinear_arith);
}

/// A plane has room for every frame; its frames are silent, and nothing behind them
/// changes.
pub proof fn planes_start_silent<S>(plane: Seq<S>, frames: nat, zero: S)
    ensures
        silenced(plane, frames, zero).len() >= frames,
        silenced(plane, frames, zero).len() >= plane.len(),
        frames <= plane.len() ==> silenced(plane, frames, zero).skip(frames as int) == plane.skip(
            frames as int,
        ),
        forall|i: int| 0 <= i < frames ==> #[trigger] silenced(plane, frames, zero)[i] == zero,
{
    if frames <= plane.len() {
        assert(silenced(plane, frames, zero).skip(frames as int) =~= plane.skip(frames as int));
    }
}

/// A device is listed by its name, and the default one with a mark behind it.
pub proof fn devices_are_listed_by_name(name: Seq<char>)
    ensures
        device_text(name, false) == "  "@ + name,
        device_text(name, true) == device_text(name, false) + " (default)"@,
{
    assert(device_text(name, false) =~= "  "@ + name);
}

/// A warning names the rate that was asked for, and then the one that is used.
pub proof fn warnings_name_both_rates(rate: u32, default_rate: u32)
    ensures
        text::ends_with_text(
            rate_warning(rate, default_rate),
            text::decimal(rate as nat) + " Hz not supported by this device; using default "@
                + text::decimal(default_rate as nat) + " Hz"@,
        ),
{
    let w = rate_warning(rate, default_rate);
    let front = "[truce-rack-standalone] sample rate "@;
    assert(w.skip(front.len() as int) =~= text::decimal(rate as nat)
        + " Hz not supported by this device; using default "@ + text::decimal(default_rate as nat)
        + " Hz"@);
}

/// A rate is supported just where some range of the device reaches from it down and
/// from it up; more ranges support more.
pub proof fn ranges_support_what_they_hold(ranges: Seq<(u32, u32)>, low: u32, high: u32, rate: u32)
    ensures
        low <= rate <= high ==> supports(ranges.push((low, high)), rate),
        supports(ranges, rate) ==> supports(ranges.push((low, high)), rate),
        !(low <= rate <= high) && !supports(ranges, rate) ==> !supports(
            ranges.push((low, high)),
            rate,
        ),
        !supports(Seq::empty(), rate),
{
    let more = ranges.push((low, high));
    let n = ranges.len() as int;
    assert(more[n] == (low, high));
    if supports(ranges, rate) {
        let i = choose|i: int|
            0 <= i < ranges.len() && (#[trigger] ranges[i]).0 <= rate <= ranges[i].1;
        assert(more[i] == ranges[i]);
    }
    if supports(more, rate) {
        let i = choose|i: int| 0 <= i < more.len() && (#[trigger] more[i]).0 <= rate <= more[i].1;
        if i < n {
            assert(ranges[i] == more[i]);
        }
    }
}

/// A device is asked for by any part of its name, whatever the case of either; one
/// without a name never is.
pub proof fn devices_are_asked_for_by_name(name: String, wanted: Seq<char>, before: Seq<char>)
    ensures
        !device_matches(None, wanted),
        text::lowercase(name@) == before + text::lowercase(wanted) ==> device_matches(
            Some(name),
            wanted,
        ),
        text::lowercase(wanted).len() > text::lowercase(name@).len() ==> !device_matches(
            Some(name),
            wanted,
        ),
{
    if text::lowercase(name@) == before + text::lowercase(wanted) {
        text::texts_are_found_where_they_are(before, text::lowercase(wanted), Seq::empty());
        assert(before + text::lowercase(wanted) + Seq::<char>::empty() =~= text::lowercase(name@));
    }
}

} // verus!
