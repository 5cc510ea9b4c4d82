//! The runner's own transport.
//!
//! There is no timeline behind the runner, so it makes one: a clock that moves
//! on by each block's length, with a fixed tempo and time signature. The tempo
//! is kept as the bit pattern of a double-precision number; positions in beats
//! are worked out from it where numbers of that kind are at hand.

use crate::clap::host;
use vstd::prelude::*;

verus! {

/// The bit pattern of 120.
pub const DEFAULT_TEMPO_BITS: u64 = 0x405E_0000_0000_0000;

/// Transport choices.
#[derive(Debug, Clone, Copy, PartialEq, Eq)]
pub struct TransportConfig {
    /// Whether any transport is reported.
    pub enabled: bool,
    /// The bit pattern of the tempo in quarter notes per minute.
    pub tempo_bits: u64,
    /// Numerator and denominator of the time signature.
    pub time_sig: (u32, u32),
    /// Whether the transport rolls. Otherwise its position stands still.
    pub playing: bool,
}

/// A rolling transport at 120 quarter notes per minute in four-four time.
pub open spec fn default_config() -> TransportConfig {
    TransportConfig {
        enabled: true,
        tempo_bits: DEFAULT_TEMPO_BITS,
        time_sig: (4u32, 4u32),
        playing: true,
    }
}

impl Default for TransportConfig {
    fn default() -> (config: Self)
        ensures
            config == default_config(),
    {
        TransportConfig {
            enabled: true,
            tempo_bits: DEFAULT_TEMPO_BITS,
            time_sig: (4, 4),
            playing: true,
        }
    }
}

/// The settings that a running host shares: the choices it was started with.
#[derive(Debug)]
pub struct TransportSettings {
    /// The choices, once they were made.
    pub chosen: Option<TransportConfig>,
}

impl TransportSettings {
    /// Settings before any choice was made.
    #[must_use]
    pub fn new() -> (settings: Self)
        ensures
            settings.chosen is None,
    {
        TransportSettings { chosen: None }
    }
}

/// Makes the choices. Only the first ones count.
pub fn set_config(settings: &mut TransportSettings, config: TransportConfig)
    ensures
        final(settings).chosen == (if old(settings).chosen is Some {
            old(settings).chosen
        } else {
            Some(config)
        }),
{
    if settings.chosen.is_none() {
        settings.chosen = Some(config);
    }
}

/// The choices that apply: those that were made, or the default ones.
pub open spec fn config_spec(settings: TransportSettings) -> TransportConfig {
    match settings.chosen {
        Some(config) => config,
        None => default_config(),
    }
}

/// The choices that apply.
#[must_use]
pub fn config(settings: &TransportSettings) -> (config: TransportConfig)
    ensures
        config == config_spec(*settings),
{
    match settings.chosen {
        Some(config) => config,
        None => TransportConfig::default(),
    }
}

/// What the transport reports of one block.
#[derive(Debug, Clone, Copy, PartialEq, Eq)]
pub struct TransportReading {
    /// The bit pattern of the tempo.
    pub tempo_bits: u64,
    /// Time signature.
    pub time_signature: (u32, u32),
    /// Position in samples at the start of the block.
    pub song_position_samples: i64,
    /// Whether the transport rolls.
    pub playing: bool,
    /// Whether it records.
    pub recording: bool,
    /// Whether it loops.
    pub loop_active: bool,
}

/// A clock of one audio stream.
#[derive(Debug)]
pub struct TransportClock {
    /// The choices that apply.
    pub config: TransportConfig,
    /// Position in samples since the stream started.
    pub sample_pos: i64,
}

/// What a clock at `pos` reports. It never records or loops.
pub open spec fn reading(config: TransportConfig, pos: i64) -> Option<TransportReading> {
    if config.enabled {
        Some(
            TransportReading {
                tempo_bits: config.tempo_bits,
                time_signature: config.time_sig,
                song_position_samples: pos,
                playing: config.playing,
                recording: false,
                loop_active: false,
            },
        )
    } else {
        None
    }
}

/// Where a clock at `pos` is after a block of `frames` frames.
pub open spec fn position_after(config: TransportConfig, pos: i64, frames: nat) -> i64 {
    if config.enabled && config.playing {
        host::time_after(pos, frames)
    } else {
        pos
    }
}

impl TransportClock {
    /// A clock at the start, with the choices that apply.
    #[must_use]
    pub fn new(settings: &TransportSettings) -> (clock: Self)
        ensures
            clock.config == config_spec(*settings),
            clock.sample_pos == 0,
    {
        TransportClock { config: config(settings), sample_pos: 0 }
    }

    /// What the transport reports of a block of `frames` frames, after which it
    /// moves on while it rolls. Where no transport is reported there is nothing.
    pub fn next_block(&mut self, frames: usize) -> (info: Option<TransportReading>)
        ensures
            info == reading(old(self).config, old(self).sample_pos),
            final(self).config == old(self).config,
            final(self).sample_pos == position_after(
                old(self).config,
                old(self).sample_pos,
                frames as nat,
            ),
    {
        if !self.config.enabled {
            return None;
        }
        let info = TransportReading {
            tempo_bits: self.config.tempo_bits,
            time_signature: self.config.time_sig,
            song_position_samples: self.sample_pos,
            playing: self.config.playing,
            recording: false,
            loop_active: false,
        };
        if self.config.playing {
            self.sample_pos = host::advance(self.sample_pos, frames);
        }
        Some(info)
    }
}

/// Where a clock is after blocks of these lengths.
pub open spec fn position_after_blocks(config: TransportConfig, pos: i64, blocks: Seq<nat>) -> i64
    decreases blocks.len(),
{
    if blocks.len() == 0 {
        pos
    } else {
        position_after(
            config,
            position_after_blocks(config, pos, blocks.drop_last()),
            blocks.last(),
        )
    }
}

/// A clock that does not roll stands still, however many blocks go by.
pub proof fn a_paused_clock_stands_still(config: TransportConfig, pos: i64, blocks: Seq<nat>)
    requires
        !config.playing,
    ensures
        position_after_blocks(config, pos, blocks) == pos,
    decreases blocks.len(),
{
    if blocks.len() > 0 {
        a_paused_clock_stands_still(config, pos, blocks.drop_last());
    }
}

/// The number of frames in `blocks`.
pub open spec fn total_frames(blocks: Seq<nat>) -> nat
    decreases blocks.len(),
{
    if blocks.len() == 0 {
        0
    } else {
        total_frames(blocks.drop_last()) + blocks.last()
    }
}

/// A clock that rolls counts every frame, as long as their number can be stated.
pub proof fn a_rolling_clock_counts_frames(config: TransportConfig, pos: i64, blocks: Seq<nat>)
    requires
        config.enabled,
        config.playing,
        0 <= pos,
        pos + total_frames(blocks) <= i64::MAX,
    ensures
        position_after_blocks(config, pos, blocks) == pos + total_frames(blocks),
    decreases blocks.len(),
{
    if blocks.len() > 0 {
        a_rolling_clock_counts_frames(config, pos, blocks.drop_last());
    }
}

/// After any blocks, a clock that started at 0 reports the frames of those
/// blocks as its position, or 0 where it does not roll, with the tempo and the
/// time signature that were chosen, and that it neither records nor loops. Where
/// no transport is to be reported it reports nothing.
pub proof fn a_clock_reports_where_it_is(config: TransportConfig, blocks: Seq<nat>)
    requires
        total_frames(blocks) <= i64::MAX,
    ensures
        match reading(config, position_after_blocks(config, 0, blocks)) {
            None => !config.enabled,
            Some(info) => {
                &&& config.enabled
                &&& info.song_position_samples == (if config.playing {
                    total_frames(blocks) as int
                } else {
                    0
                })
                &&& info.playing == config.playing
                &&& info.tempo_bits == config.tempo_bits
                &&& info.time_signature == config.time_sig
                &&& !info.recording
                &&& !info.loop_active
            },
        },
{
    if config.enabled && config.playing {
        a_rolling_clock_counts_frames(config, 0, blocks);
    } else if !config.playing {
        a_paused_clock_stands_still(config, 0, blocks);
    }
}

/// A clock never goes back.
pub proof fn a_clock_never_goes_back(config: TransportConfig, pos: i64, frames: nat)
    ensures
        position_after(config, pos, frames) >= pos,
{
}

/// The tempo of the default transport is 120: its bit pattern is that of a
/// double-precision number with the sign of plus, whose exponent and fraction give
/// that value. It reports itself, rolls from the start, and counts in quarters.
pub proof fn the_default_transport_rolls_at_120()
    ensures
        ({
            let c = default_config();
            let exponent = c.tempo_bits / 0x10_0000_0000_0000;
            let fraction = c.tempo_bits % 0x10_0000_0000_0000;
            &&& exponent == 1023 + 6
            &&& (0x10_0000_0000_0000 + fraction) * 64 == 120 * 0x10_0000_0000_0000
            &&& c.time_sig == (4u32, 4u32)
            &&& reading(c, 0) matches Some(info)
            &&& info.playing
            &&& info.tempo_bits == c.tempo_bits
        }),
{
}

} // verus!
