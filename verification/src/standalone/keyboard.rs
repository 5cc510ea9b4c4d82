//! The computer keyboard as a piano.
//!
//! Two rows of keys are a piano that starts at middle C:
//!
//! ```text
//!  Upper: W E   T Y U   O P
//!        C#D#  F#G#A#  C#D#
//! Lower: A S D F G H J K L ;
//!        C D E F G A B C D E
//! ```
//!
//! Keys are told by where they are, not by what is printed on them.

use crate::events::{EventBody, MidiData};
use vstd::prelude::*;

verus! {

/// A key, named by what stands there on a US keyboard.
#[derive(Clone, Copy, PartialEq, Eq, Debug, Structural)]
pub enum Key {
    /// A.
    A,
    /// S.
    S,
    /// D.
    D,
    /// F.
    F,
    /// G.
    G,
    /// H.
    H,
    /// J.
    J,
    /// K.
    K,
    /// L.
    L,
    /// Semicolon.
    Semicolon,
    /// W.
    W,
    /// E.
    E,
    /// T.
    T,
    /// Y.
    Y,
    /// U.
    U,
    /// O.
    O,
    /// P.
    P,
    /// Z.
    Z,
    /// X.
    X,
    /// Space.
    Space,
    /// Any other key.
    Other,
}

/// The middle C.
pub const MIDDLE_C: i16 = 60;

/// How many semitones a key lies above the piano's lowest.
pub open spec fn semitones(key: Key) -> Option<int> {
    match key {
        Key::A => Some(0),
        Key::W => Some(1),
        Key::S => Some(2),
        Key::E => Some(3),
        Key::D => Some(4),
        Key::F => Some(5),
        Key::T => Some(6),
        Key::G => Some(7),
        Key::Y => Some(8),
        Key::H => Some(9),
        Key::U => Some(10),
        Key::J => Some(11),
        Key::K => Some(12),
        Key::O => Some(13),
        Key::L => Some(14),
        Key::P => Some(15),
        Key::Semicolon => Some(16),
        _ => None,
    }
}

/// The note of a key, with the piano moved by `octave_offset` octaves, where
/// MIDI has it.
pub open spec fn note_of(key: Key, octave_offset: int) -> Option<u8> {
    match semitones(key) {
        Some(n) => {
            let note = MIDDLE_C + 12 * octave_offset + n;
            if 0 <= note <= 127 {
                Some(note as u8)
            } else {
                None
            }
        },
        None => None,
    }
}

/// The note of a key, with the piano moved by `octave_offset` octaves.
#[must_use]
pub fn code_to_midi_note(key: Key, octave_offset: i8) -> (note: Option<u8>)
    ensures
        note == note_of(key, octave_offset as int),
{
    let base: i16 = MIDDLE_C + octave_offset as i16 * 12;
    let offset: i16 = match key {
        Key::A => 0,
        Key::S => 2,
        Key::D => 4,
        Key::F => 5,
        Key::G => 7,
        Key::H => 9,
        Key::J => 11,
        Key::K => 12,
        Key::L => 14,
        Key::Semicolon => 16,
        Key::W => 1,
        Key::E => 3,
        Key::T => 6,
        Key::Y => 8,
        Key::U => 10,
        Key::O => 13,
        Key::P => 15,
        _ => return None,
    };
    let note: i16 = base + offset;
    if 0 <= note && note <= 127 {
        Some(note as u8)
    } else {
        None
    }
}

/// By how many octaves a key moves the piano.
#[must_use]
pub fn code_to_octave_shift(key: Key) -> (shift: Option<i8>)
    ensures
        shift == (match key {
            Key::Z => Some(-1i8),
            Key::X => Some(1i8),
            _ => None,
        }),
{
    match key {
        Key::Z => Some(-1),
        Key::X => Some(1),
        _ => None,
    }
}

/// No two keys have the same note.
pub proof fn notes_are_distinct(a: Key, b: Key, octave_offset: int)
    requires
        note_of(a, octave_offset) is Some,
        note_of(a, octave_offset) == note_of(b, octave_offset),
    ensures
        a == b,
{
}

/// Moving the piano by an octave moves its notes by twelve.
pub proof fn octaves_are_twelve_notes(key: Key, octave_offset: int)
    requires
        note_of(key, octave_offset) is Some,
        note_of(key, octave_offset + 1) is Some,
    ensures
        note_of(key, octave_offset + 1)->0 == note_of(key, octave_offset)->0 + 12,
{
}

// ---------------------------------------------------------------------------
// Key presses
// ---------------------------------------------------------------------------

/// How far the piano can be moved either way.
pub const MAX_OCTAVES: i8 = 3;

/// The velocity of notes from the keyboard.
pub const KEY_VELOCITY: u8 = 102;

/// What a key does.
#[derive(Clone, Copy, PartialEq, Eq, Debug)]
pub enum KeyAction {
    /// Save the plugin's state.
    SaveState,
    /// Load the plugin's state.
    LoadState,
    /// Start or stop the transport.
    ToggleTransport,
    /// Move the piano, which is done.
    OctaveShift,
    /// Play or end a note.
    Note(EventBody),
    /// Nothing.
    Ignored,
}

/// `octave` within what the piano can be moved.
pub open spec fn within_octaves(octave: int) -> int {
    if octave < -3 {
        -3
    } else if octave > 3 {
        3
    } else {
        octave
    }
}

/// What a key does that goes `down` or up, where `command` tells whether the
/// platform's command key is held, and the octave offset afterwards.
pub open spec fn key_effect(octave: i8, key: Key, down: bool, command: bool) -> (KeyAction, int) {
    if down && key == Key::S && command {
        (KeyAction::SaveState, octave as int)
    } else if down && key == Key::O && command {
        (KeyAction::LoadState, octave as int)
    } else if down && key == Key::Space {
        (KeyAction::ToggleTransport, octave as int)
    } else if down && key == Key::Z {
        (KeyAction::OctaveShift, within_octaves(octave - 1))
    } else if down && key == Key::X {
        (KeyAction::OctaveShift, within_octaves(octave + 1))
    } else {
        match note_of(key, octave as int) {
            Some(note) => (
                KeyAction::Note(
                    if down {
                        EventBody::Midi(
                            MidiData::NoteOn { channel: 0, note, velocity: KEY_VELOCITY },
                        )
                    } else {
                        EventBody::Midi(MidiData::NoteOff { channel: 0, note, velocity: 0 })
                    },
                ),
                octave as int,
            ),
            None => (KeyAction::Ignored, octave as int),
        }
    }
}

/// The state of the keyboard.
#[derive(Clone, Copy, PartialEq, Eq, Debug, Structural)]
pub struct Keyboard {
    /// By how many octaves the piano is moved.
    pub octave_offset: i8,
}

impl Keyboard {
    /// Whether the piano is moved no further than it can be.
    pub open spec fn wf(self) -> bool {
        -3 <= self.octave_offset <= 3
    }

    /// A piano that starts at middle C.
    #[must_use]
    pub fn new() -> (keyboard: Self)
        ensures
            keyboard.wf(),
            keyboard.octave_offset == 0,
    {
        Keyboard { octave_offset: 0 }
    }

    /// Takes a key that goes `down` or up, and tells what it does.
    pub fn handle_keyboard(&mut self, key: Key, down: bool, command: bool) -> (action: KeyAction)
        requires
            old(self).wf(),
        ensures
            final(self).wf(),
            action == key_effect(old(self).octave_offset, key, down, command).0,
            final(self).octave_offset == key_effect(
                old(self).octave_offset,
                key,
                down,
                command,
            ).1,
    {
        if down && key == Key::S && command {
            return KeyAction::SaveState;
        }
        if down && key == Key::O && command {
            return KeyAction::LoadState;
        }
        if down && key == Key::Space {
            return KeyAction::ToggleTransport;
        }
        if down {
            if let Some(shift) = code_to_octave_shift(key) {
                let moved: i8 = self.octave_offset + shift;
                self.octave_offset = if moved < -MAX_OCTAVES {
                    -MAX_OCTAVES
                } else if moved > MAX_OCTAVES {
                    MAX_OCTAVES
                } else {
                    moved
                };
                return KeyAction::OctaveShift;
            }
        }
        match code_to_midi_note(key, self.octave_offset) {
            Some(note) => {
                if down {
                    KeyAction::Note(
                        EventBody::Midi(
                            MidiData::NoteOn { channel: 0, note, velocity: KEY_VELOCITY },
                        ),
                    )
                } else {
                    KeyAction::Note(
                        EventBody::Midi(MidiData::NoteOff { channel: 0, note, velocity: 0 }),
                    )
                }
            },
            None => KeyAction::Ignored,
        }
    }
}

/// A note that a key begins is ended when the key goes up, as long as the piano
/// is not moved meanwhile.
pub proof fn released_keys_end_their_notes(octave: i8, key: Key, note: u8, velocity: u8)
    requires
        key_effect(octave, key, true, false).0 == KeyAction::Note(
            EventBody::Midi(MidiData::NoteOn { channel: 0, note, velocity }),
        ),
    ensures
        key_effect(octave, key, false, false) == (
            KeyAction::Note(EventBody::Midi(MidiData::NoteOff { channel: 0, note, velocity: 0 })),
            octave as int,
        ),
{
}

/// The lower row plays the white keys upwards from middle C: from key to key the
/// notes rise by the steps of the major scale.
pub proof fn the_lower_row_is_a_major_scale()
    ensures
        note_of(Key::A, 0) == Some(60u8),
        note_of(Key::S, 0) matches Some(n) && n == note_of(Key::A, 0)->0 + 2,
        note_of(Key::D, 0) matches Some(n) && n == note_of(Key::S, 0)->0 + 2,
        note_of(Key::F, 0) matches Some(n) && n == note_of(Key::D, 0)->0 + 1,
        note_of(Key::G, 0) matches Some(n) && n == note_of(Key::F, 0)->0 + 2,
        note_of(Key::H, 0) matches Some(n) && n == note_of(Key::G, 0)->0 + 2,
        note_of(Key::J, 0) matches Some(n) && n == note_of(Key::H, 0)->0 + 2,
        note_of(Key::K, 0) matches Some(n) && n == note_of(Key::J, 0)->0 + 1,
        note_of(Key::L, 0) matches Some(n) && n == note_of(Key::K, 0)->0 + 2,
        note_of(Key::Semicolon, 0) matches Some(n) && n == note_of(Key::L, 0)->0 + 2,
{
}

/// Each key of the upper row plays the black key between the two keys of the lower
/// row that it stands between.
pub proof fn the_upper_row_is_the_black_keys()
    ensures
        note_of(Key::W, 0) matches Some(n) && note_of(Key::A, 0)->0 < n < note_of(Key::S, 0)->0,
        note_of(Key::E, 0) matches Some(n) && note_of(Key::S, 0)->0 < n < note_of(Key::D, 0)->0,
        note_of(Key::T, 0) matches Some(n) && note_of(Key::F, 0)->0 < n < note_of(Key::G, 0)->0,
        note_of(Key::Y, 0) matches Some(n) && note_of(Key::G, 0)->0 < n < note_of(Key::H, 0)->0,
        note_of(Key::U, 0) matches Some(n) && note_of(Key::H, 0)->0 < n < note_of(Key::J, 0)->0,
        note_of(Key::O, 0) matches Some(n) && note_of(Key::K, 0)->0 < n < note_of(Key::L, 0)->0,
        note_of(Key::P, 0) matches Some(n) && note_of(Key::L, 0)->0 < n < note_of(
            Key::Semicolon,
            0,
        )->0,
{
}

/// Wherever the piano is moved to, a key plays its note of the unmoved piano, twelve
/// notes higher for each octave, where MIDI has that note; keys that are not on the
/// piano play none.
pub proof fn moving_the_piano_moves_every_key(key: Key, octave_offset: int)
    ensures
        match (note_of(key, 0), note_of(key, octave_offset)) {
            (Some(home), Some(note)) => note == home + 12 * octave_offset,
            (Some(home), None) => !(0 <= home + 12 * octave_offset <= 127),
            (None, moved) => moved is None,
        },
        note_of(key, 0) is None <==> (key == Key::Z || key == Key::X || key == Key::Space || key
            == Key::Other),
{
}

/// Only Z and X that go down move the piano, by one octave down or up, and never
/// beyond three octaves either way.
pub proof fn z_and_x_move_the_piano(octave: i8, key: Key, down: bool, command: bool)
    requires
        -3 <= octave <= 3,
    ensures
        ({
            let after = key_effect(octave, key, down, command).1;
            &&& -3 <= after <= 3
            &&& down && key == Key::Z && octave > -3 ==> after == octave - 1
            &&& down && key == Key::X && octave < 3 ==> after == octave + 1
            &&& after != octave ==> down && (key == Key::Z || key == Key::X)
            &&& (key_effect(octave, key, down, command).0 is OctaveShift) == (down && (key == Key::Z
                || key == Key::X))
        }),
{
}

/// Every other key does one thing: S and O with the command key save and load the
/// state, the space bar starts and stops the transport, and a key of the piano
/// begins its note when it goes down and ends it when it goes up.
pub proof fn keys_do_one_thing(octave: i8, key: Key, down: bool, command: bool)
    requires
        !(down && (key == Key::Z || key == Key::X)),
    ensures
        match key_effect(octave, key, down, command).0 {
            KeyAction::SaveState => down && command && key == Key::S,
            KeyAction::LoadState => down && command && key == Key::O,
            KeyAction::ToggleTransport => down && key == Key::Space,
            KeyAction::Note(EventBody::Midi(MidiData::NoteOn { channel, note, velocity })) => down
                && channel == 0 && note_of(key, octave as int) == Some(note) && 0 < velocity < 128
                && !(command && (key == Key::S || key == Key::O)),
            KeyAction::Note(EventBody::Midi(MidiData::NoteOff { channel, note, .. })) => !down
                && channel == 0 && note_of(key, octave as int) == Some(note),
            KeyAction::Ignored => note_of(key, octave as int) is None && !(down && key
                == Key::Space),
            _ => false,
        },
{
}

} // verus!
