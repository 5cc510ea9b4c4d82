//! Versioned envelope around plugin state blobs.
//!
//! Plugin state is opaque to the host. To defend the host against a corrupt
//! blob, or one that another format wrote, each blob is wrapped in an envelope
//! before it is persisted and unwrapped before it is handed to a plugin.
//!
//! ```text
//! 0..4   "RKST" magic
//! 4..6   u16 envelope version (little-endian)
//! 6      u8  format id
//! 7      u8  reserved (written as 0)
//! 8..12  u32 payload length (little-endian)
//! 12..   payload bytes
//! ```

use vstd::prelude::*;

verus! {

/// Magic bytes prefixing every envelope, the ASCII codes of `RKST`.
pub const ENVELOPE_MAGIC: [u8; 4] = [0x52, 0x4B, 0x53, 0x54];

/// Version of the envelope layout.
pub const ENVELOPE_VERSION: u16 = 1;

/// Bytes before the payload.
pub const HEADER_LEN: usize = 12;

/// Tag for the format that produced a payload.
#[derive(Clone, Copy, Debug, PartialEq, Eq, Structural)]
pub enum FormatId {
    /// Reserved sentinel; no stored envelope carries it.
    Unknown,
    /// CLAP.
    Clap,
    /// VST3.
    Vst3,
    /// Audio Unit v2.
    AuV2,
    /// Audio Unit v3.
    AuV3,
    /// VST2.
    Vst2,
    /// LV2.
    Lv2,
    /// AAX.
    Aax,
}

impl FormatId {
    /// The byte that stands for a format in the header.
    pub open spec fn tag_spec(self) -> u8 {
        match self {
            FormatId::Unknown => 0,
            FormatId::Clap => 1,
            FormatId::Vst3 => 2,
            FormatId::AuV2 => 3,
            FormatId::AuV3 => 4,
            FormatId::Vst2 => 5,
            FormatId::Lv2 => 6,
            FormatId::Aax => 7,
        }
    }

    /// The byte that stands for this format in the header.
    pub fn tag(self) -> (tag: u8)
        ensures
            tag == self.tag_spec(),
    {
        match self {
            FormatId::Unknown => 0,
            FormatId::Clap => 1,
            FormatId::Vst3 => 2,
            FormatId::AuV2 => 3,
            FormatId::AuV3 => 4,
            FormatId::Vst2 => 5,
            FormatId::Lv2 => 6,
            FormatId::Aax => 7,
        }
    }

    /// The known format that `tag` stands for.
    pub fn from_tag(tag: u8) -> (format: Option<FormatId>)
        ensures
            match format {
                Some(f) => f != FormatId::Unknown && f.tag_spec() == tag,
                None => tag == 0 || tag > 7,
            },
    {
        match tag {
            1 => Some(FormatId::Clap),
            2 => Some(FormatId::Vst3),
            3 => Some(FormatId::AuV2),
            4 => Some(FormatId::AuV3),
            5 => Some(FormatId::Vst2),
            6 => Some(FormatId::Lv2),
            7 => Some(FormatId::Aax),
            _ => None,
        }
    }
}

/// Failure modes when unwrapping an envelope.
#[derive(Clone, Copy, Debug, PartialEq, Eq, Structural)]
#[allow(inconsistent_fields)]
pub enum StateLoadError {
    /// The buffer is shorter than the header.
    Truncated {
        /// Minimum bytes required.
        expected: usize,
        /// Bytes available.
        actual: usize,
    },
    /// The magic prefix did not match.
    BadMagic,
    /// The envelope version is newer than this library knows.
    UnsupportedVersion {
        /// Version field in the blob.
        found: u16,
        /// Newest version understood.
        supported: u16,
    },
    /// The format byte is not one of the known formats.
    UnknownFormat {
        /// Format byte in the blob.
        found: u8,
    },
    /// The payload-length field disagrees with the bytes that follow the header.
    LengthMismatch {
        /// Length field in the header.
        declared: u32,
        /// Bytes after the header.
        actual: usize,
    },
    /// The payload is from a different format than the host expected.
    FormatMismatch {
        /// Format tag in the envelope.
        found: FormatId,
        /// Format the host was loading into.
        expected: FormatId,
    },
}

/// Host-side wrapper around a plugin state payload.
#[derive(Clone, Copy, Debug)]
pub struct StateEnvelope<'a> {
    /// Source format of the payload.
    pub format: FormatId,
    /// Opaque plugin bytes.
    pub payload: &'a [u8],
}



/// The number that `b0`, `b1`, `b2`, `b3` spell in little-endian order.
pub open spec fn le_u32(b0: u8, b1: u8, b2: u8, b3: u8) -> nat {
    (b0 + 0x100 * b1 + 0x1_0000 * b2 + 0x100_0000 * b3) as nat
}

/// The bytes of `n` modulo 2^32 in little-endian order.
pub open spec fn le_u32_bytes(n: nat) -> Seq<u8> {
    seq![
        (n % 0x100) as u8,
        ((n / 0x100) % 0x100) as u8,
        ((n / 0x1_0000) % 0x100) as u8,
        ((n / 0x100_0000) % 0x100) as u8,
    ]
}

/// The stored form of `payload` written by `format`.
pub open spec fn encoded(format: FormatId, payload: Seq<u8>) -> Seq<u8> {
    ENVELOPE_MAGIC@ + seq![1u8, 0u8, format.tag_spec(), 0u8] + le_u32_bytes(payload.len())
        + payload
}

/// What an envelope holds, or why it is refused: the first check that fails, in
/// the order length, magic, version, format, payload length.
pub open spec fn decoded(bytes: Seq<u8>) -> Result<(FormatId, Seq<u8>), StateLoadError> {
    let version = bytes[4] + 0x100 * bytes[5];
    let declared = le_u32(bytes[8], bytes[9], bytes[10], bytes[11]);
    let payload = bytes.skip(HEADER_LEN as int);
    if bytes.len() < HEADER_LEN {
        Err(
            StateLoadError::Truncated { expected: HEADER_LEN, actual: bytes.len() as usize },
        )
    } else if bytes.take(4) != ENVELOPE_MAGIC@ {
        Err(StateLoadError::BadMagic)
    } else if version > ENVELOPE_VERSION {
        Err(
            StateLoadError::UnsupportedVersion {
                found: version as u16,
                supported: ENVELOPE_VERSION,
            },
        )
    } else if !(1 <= bytes[6] <= 7) {
        Err(StateLoadError::UnknownFormat { found: bytes[6] })
    } else if declared != payload.len() {
        Err(
            StateLoadError::LengthMismatch {
                declared: declared as u32,
                actual: payload.len() as usize,
            },
        )
    } else {
        Ok((format_of_tag(bytes[6]), payload))
    }
}

/// The format that a header byte stands for; the sentinel for any byte that
/// stands for none.
pub open spec fn format_of_tag(tag: u8) -> FormatId {
    if tag == 1 {
        FormatId::Clap
    } else if tag == 2 {
        FormatId::Vst3
    } else if tag == 3 {
        FormatId::AuV2
    } else if tag == 4 {
        FormatId::AuV3
    } else if tag == 5 {
        FormatId::Vst2
    } else if tag == 6 {
        FormatId::Lv2
    } else if tag == 7 {
        FormatId::Aax
    } else {
        FormatId::Unknown
    }
}

impl<'a> StateEnvelope<'a> {
    /// Serializes this envelope. A payload of 2^32 bytes or more has its length
    /// field reduced modulo 2^32.
    #[must_use]
    pub fn encode(&self) -> (out: Vec<u8>)
        ensures
            out@ == encoded(self.format, self.payload@),
    {
        let len: u64 = self.payload.len() as u64;
        let mut out: Vec<u8> = Vec::new();
        out.extend_from_slice(&ENVELOPE_MAGIC);
        out.push((ENVELOPE_VERSION % 0x100) as u8);
        out.push((ENVELOPE_VERSION / 0x100) as u8);
        out.push(self.format.tag());
        out.push(0);
        out.push((len % 0x100) as u8);
        out.push(((len / 0x100) % 0x100) as u8);
        out.push(((len / 0x1_0000) % 0x100) as u8);
        out.push(((len / 0x100_0000) % 0x100) as u8);
        out.extend_from_slice(self.payload);
        assert(out@ =~= encoded(self.format, self.payload@));
        out
    }

    /// Parses an envelope from `bytes`, whose payload the result borrows.
    pub fn decode(bytes: &'a [u8]) -> (result: Result<StateEnvelope<'a>, StateLoadError>)
        ensures
            match result {
                Ok(env) => decoded(bytes@) == Ok::<(FormatId, Seq<u8>), StateLoadError>(
                    (env.format, env.payload@),
                ),
                Err(e) => decoded(bytes@) == Err::<(FormatId, Seq<u8>), StateLoadError>(e),
            },
    {
        if bytes.len() < HEADER_LEN {
            return Err(
                StateLoadError::Truncated { expected: HEADER_LEN, actual: bytes.len() },
            );
        }
        assert(bytes@.take(4) =~= seq![bytes@[0], bytes@[1], bytes@[2], bytes@[3]]);
        if bytes[0] != ENVELOPE_MAGIC[0] || bytes[1] != ENVELOPE_MAGIC[1] || bytes[2]
            != ENVELOPE_MAGIC[2] || bytes[3] != ENVELOPE_MAGIC[3] {
            assert(bytes@.take(4)[0] != ENVELOPE_MAGIC@[0] || bytes@.take(4)[1]
                != ENVELOPE_MAGIC@[1] || bytes@.take(4)[2] != ENVELOPE_MAGIC@[2] || bytes@.take(
                4,
            )[3] != ENVELOPE_MAGIC@[3]);
            return Err(StateLoadError::BadMagic);
        }
        assert(bytes@.take(4) =~= ENVELOPE_MAGIC@);
        let version: u16 = bytes[4] as u16 + 0x100 * bytes[5] as u16;
        if version > ENVELOPE_VERSION {
            return Err(
                StateLoadError::UnsupportedVersion {
                    found: version,
                    supported: ENVELOPE_VERSION,
                },
            );
        }
        let format = match FormatId::from_tag(bytes[6]) {
            Some(format) => format,
            None => return Err(StateLoadError::UnknownFormat { found: bytes[6] }),
        };
        let declared: u32 = bytes[8] as u32 + 0x100 * bytes[9] as u32 + 0x1_0000 * bytes[10] as u32
            + 0x100_0000 * bytes[11] as u32;
        let payload = vstd::slice::slice_subrange(bytes, HEADER_LEN, bytes.len());
        assert(payload@ =~= bytes@.skip(HEADER_LEN as int));
        if declared as u64 != payload.len() as u64 {
            return Err(StateLoadError::LengthMismatch { declared, actual: payload.len() });
        }
        Ok(StateEnvelope { format, payload })
    }
}

/// Unwrapping an envelope gives back the format and the payload it was made
/// from: for every known format, and every payload whose length the header can
/// state.
pub proof fn decode_undoes_encode(format: FormatId, payload: Seq<u8>)
    requires
        format != FormatId::Unknown,
        payload.len() < 0x1_0000_0000,
    ensures
        decoded(encoded(format, payload)) == Ok::<(FormatId, Seq<u8>), StateLoadError>(
            (format, payload),
        ),
{
    let b = encoded(format, payload);
    assert(b.take(4) =~= ENVELOPE_MAGIC@);
    assert(b.skip(HEADER_LEN as int) =~= payload);
    assert(b.subrange(8, 12) =~= le_u32_bytes(payload.len()));
    assert(b[8] == b.subrange(8, 12)[0] && b[9] == b.subrange(8, 12)[1] && b[10] == b.subrange(
        8,
        12,
    )[2] && b[11] == b.subrange(8, 12)[3]);
    assert(b[4] == 1 && b[5] == 0 && b[6] == format.tag_spec());
}

/// Four bytes come back out of the number that they spell.
proof fn le_u32_bytes_undoes_le_u32(b0: u8, b1: u8, b2: u8, b3: u8)
    ensures
        le_u32_bytes(le_u32(b0, b1, b2, b3)) == seq![b0, b1, b2, b3],
{
    let n = le_u32(b0, b1, b2, b3);
    let n1 = (b1 + 0x100 * b2 + 0x1_0000 * b3) as nat;
    let n2 = (b2 + 0x100 * b3) as nat;
    assert(n == 0x100 * n1 + b0);
    assert(n1 == 0x100 * n2 + b1);
    assert(n / 0x100 == n1);
    assert(n1 / 0x100 == n2);
    assert(n2 / 0x100 == b3);
    assert(n / 0x1_0000 == n1 / 0x100);
    assert(n / 0x100_0000 == n2 / 0x100);
    assert(le_u32_bytes(n) =~= seq![b0, b1, b2, b3]);
}

/// An accepted blob of the current version whose reserved byte is 0 is what
/// wrapping its contents writes: no two such blobs mean the same.
pub proof fn encode_undoes_decode(bytes: Seq<u8>)
    requires
        decoded(bytes) is Ok,
        bytes[4] == 1,
        bytes[7] == 0,
    ensures
        encoded(decoded(bytes)->Ok_0.0, decoded(bytes)->Ok_0.1) == bytes,
{
    let (format, payload) = decoded(bytes)->Ok_0;
    let b = encoded(format, payload);
    assert(bytes[5] == 0);
    le_u32_bytes_undoes_le_u32(bytes[8], bytes[9], bytes[10], bytes[11]);
    let quad = seq![bytes[8], bytes[9], bytes[10], bytes[11]];
    assert(b == ENVELOPE_MAGIC@ + seq![1u8, 0u8, format.tag_spec(), 0u8] + quad + payload);
    assert(format.tag_spec() == bytes[6]);
    assert(bytes.take(4) == ENVELOPE_MAGIC@);
    assert forall|i: int| 0 <= i < 12 implies b[i] == bytes[i] by {
        if i < 4 {
            assert(bytes.take(4)[i] == bytes[i]);
        }
    }
    assert forall|i: int| 12 <= i < bytes.len() implies b[i] == bytes[i] by {
        assert(payload[i - 12] == bytes[i]);
    }
    assert(b =~= bytes);
}

/// An envelope that states another format than the one it was wrapped for is
/// told apart by its format alone: wrapping the same payload for two known
/// formats gives two different blobs.
pub proof fn formats_stay_apart(a: FormatId, b: FormatId, payload: Seq<u8>)
    requires
        a != b,
    ensures
        encoded(a, payload) != encoded(b, payload),
{
    assert(encoded(a, payload)[6] == a.tag_spec());
    assert(encoded(b, payload)[6] == b.tag_spec());
}

/// A stored envelope starts with the letters RKST, states version 1, a byte for the
/// format, and the length of the payload, each lowest byte first, and ends with the
/// payload.
pub proof fn envelopes_have_their_layout(format: FormatId, payload: Seq<u8>)
    requires
        payload.len() < 0x1_0000_0000,
    ensures
        ({
            let b = encoded(format, payload);
            &&& b.len() == 12 + payload.len()
            &&& b[0] == 'R' as u8 && b[1] == 'K' as u8 && b[2] == 'S' as u8 && b[3] == 'T' as u8
            &&& b[4] == 1 && b[5] == 0
            &&& b[6] == match format {
                FormatId::Unknown => 0u8,
                FormatId::Clap => 1u8,
                FormatId::Vst3 => 2u8,
                FormatId::AuV2 => 3u8,
                FormatId::AuV3 => 4u8,
                FormatId::Vst2 => 5u8,
                FormatId::Lv2 => 6u8,
                FormatId::Aax => 7u8,
            }
            &&& b[7] == 0
            &&& b[8] + 256 * b[9] + 65536 * b[10] + 16777216 * b[11] == payload.len()
            &&& b.skip(12) == payload
        }),
{
    let b = encoded(format, payload);
    assert(b.skip(12) =~= payload);
    assert(b.subrange(8, 12) =~= le_u32_bytes(payload.len()));
    assert(b[8] == b.subrange(8, 12)[0] && b[9] == b.subrange(8, 12)[1] && b[10] == b.subrange(
        8,
        12,
    )[2] && b[11] == b.subrange(8, 12)[3]);
}

/// A blob is refused for the first thing that is wrong with it, and taken where
/// nothing is: it is long enough, starts with RKST, is of no newer version, names a
/// known format, and is as long as it says.
pub proof fn blobs_are_refused_for_what_is_wrong(b: Seq<u8>)
    ensures
        ({
            let starts = b[0] == 'R' as u8 && b[1] == 'K' as u8 && b[2] == 'S' as u8 && b[3]
                == 'T' as u8;
            let version = b[4] + 256 * b[5];
            let declared = b[8] + 256 * b[9] + 65536 * b[10] + 16777216 * b[11];
            match decoded(b) {
                Err(StateLoadError::Truncated { .. }) => b.len() < 12,
                Err(StateLoadError::BadMagic) => b.len() >= 12 && !starts,
                Err(StateLoadError::UnsupportedVersion { found, supported }) => b.len() >= 12
                    && starts && version > 1 && found == version && supported == 1,
                Err(StateLoadError::UnknownFormat { found }) => b.len() >= 12 && starts && version
                    <= 1 && found == b[6] && (b[6] == 0 || b[6] > 7),
                Err(StateLoadError::LengthMismatch { declared: said, .. }) => b.len() >= 12 && starts
                    && version <= 1 && 1 <= b[6] <= 7 && said == declared && declared != b.len()
                    - 12,
                Err(StateLoadError::FormatMismatch { .. }) => false,
                Ok((format, payload)) => b.len() >= 12 && starts && version <= 1 && 1 <= b[6] <= 7
                    && declared == b.len() - 12 && payload == b.skip(12) && format == (match b[6] {
                    1 => FormatId::Clap,
                    2 => FormatId::Vst3,
                    3 => FormatId::AuV2,
                    4 => FormatId::AuV3,
                    5 => FormatId::Vst2,
                    6 => FormatId::Lv2,
                    _ => FormatId::Aax,
                }),
            }
        }),
{
    if b.len() >= 12 {
        let m = b.take(4);
        assert(m[0] == b[0] && m[1] == b[1] && m[2] == b[2] && m[3] == b[3]);
        if b[0] == 'R' as u8 && b[1] == 'K' as u8 && b[2] == 'S' as u8 && b[3] == 'T' as u8 {
            assert(m =~= ENVELOPE_MAGIC@);
        }
    }
}

} // verus!
