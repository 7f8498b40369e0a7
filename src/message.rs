//! The unit of transport between the gathering and the mixing process.
use vstd::prelude::*;

verus! {

/// Which driver produced a sample.
#[derive(Clone, Copy, Debug, PartialEq, Eq, Structural)]
pub enum EntropySourceType {
    Pkcs11,
    Gpg,
    Rdseed,
    Hwrng,
    Jitterentropy,
    Sound,
}

/// Number of known source tags.
pub const SOURCE_COUNT: u32 = 6;

/// The tag a source carries on the wire.
pub open spec fn source_tag(s: EntropySourceType) -> nat {
    match s {
        EntropySourceType::Pkcs11 => 0,
        EntropySourceType::Gpg => 1,
        EntropySourceType::Rdseed => 2,
        EntropySourceType::Hwrng => 3,
        EntropySourceType::Jitterentropy => 4,
        EntropySourceType::Sound => 5,
    }
}

/// The source that carries a given tag, for tags below `SOURCE_COUNT`.
pub open spec fn source_of_tag(t: nat) -> EntropySourceType {
    if t == 0 {
        EntropySourceType::Pkcs11
    } else if t == 1 {
        EntropySourceType::Gpg
    } else if t == 2 {
        EntropySourceType::Rdseed
    } else if t == 3 {
        EntropySourceType::Hwrng
    } else if t == 4 {
        EntropySourceType::Jitterentropy
    } else {
        EntropySourceType::Sound
    }
}

impl EntropySourceType {
    /// The wire tag of this source.
    pub fn tag(&self) -> (r: u32)
        ensures
            r == source_tag(*self),
            r < SOURCE_COUNT,
    {
        match self {
            EntropySourceType::Pkcs11 => 0,
            EntropySourceType::Gpg => 1,
            EntropySourceType::Rdseed => 2,
            EntropySourceType::Hwrng => 3,
            EntropySourceType::Jitterentropy => 4,
            EntropySourceType::Sound => 5,
        }
    }

    /// The source with wire tag `t`, if `t` is a known tag.
    pub fn from_tag(t: u32) -> (r: Option<EntropySourceType>)
        ensures
            t < SOURCE_COUNT ==> r == Some(source_of_tag(t as nat)),
            t >= SOURCE_COUNT ==> r is None,
    {
        if t == 0 {
            Some(EntropySourceType::Pkcs11)
        } else if t == 1 {
            Some(EntropySourceType::Gpg)
        } else if t == 2 {
            Some(EntropySourceType::Rdseed)
        } else if t == 3 {
            Some(EntropySourceType::Hwrng)
        } else if t == 4 {
            Some(EntropySourceType::Jitterentropy)
        } else if t == 5 {
            Some(EntropySourceType::Sound)
        } else {
            None
        }
    }
}

/// What a sample holds, as mathematical values.
pub struct MessageView {
    pub source: EntropySourceType,
    pub bytes: Seq<u8>,
    pub bits: nat,
}

/// A sample is valid when it holds at least one byte and claims no more
/// entropy than the bits it physically carries.
pub open spec fn valid_sample(bytes: Seq<u8>, bits: nat) -> bool {
    bytes.len() > 0 && bits <= bytes.len() * 8
}

/// Why a sample could not be built.
#[derive(Clone, Copy, Debug, PartialEq, Eq, Structural)]
pub enum MessageError {
    /// The sample holds no bytes.
    EmptySample,
    /// The claim exceeds the number of bits in the sample.
    ClaimExceedsLength,
}

/// The error that `EntropyMessage::new` reports for a byte sequence and a claim.
pub open spec fn sample_error(bytes: Seq<u8>, bits: nat) -> Option<MessageError> {
    if bytes.len() == 0 {
        Some(MessageError::EmptySample)
    } else if bits > bytes.len() * 8 {
        Some(MessageError::ClaimExceedsLength)
    } else {
        None
    }
}

/// One sample of a source: its raw bytes and the entropy claimed for them.
/// The claim never exceeds the bit length of the bytes.
pub struct EntropyMessage {
    source: EntropySourceType,
    random_bytes: Vec<u8>,
    entropy_bits: u32,
}

impl View for EntropyMessage {
    type V = MessageView;

    closed spec fn view(&self) -> MessageView {
        MessageView {
            source: self.source,
            bytes: self.random_bytes@,
            bits: self.entropy_bits as nat,
        }
    }
}

impl EntropyMessage {
    #[verifier::type_invariant]
    spec fn well_formed(self) -> bool {
        valid_sample(self.random_bytes@, self.entropy_bits as nat)
    }

    /// Builds a sample; fails when it would be empty or claim too much.
    pub fn new(source: EntropySourceType, random_bytes: Vec<u8>, entropy_bits: u32) -> (r: Result<
        EntropyMessage,
        MessageError,
    >)
        ensures
            match sample_error(random_bytes@, entropy_bits as nat) {
                Some(e) => r == Err::<EntropyMessage, MessageError>(e),
                None => r matches Ok(m) && m@ == (MessageView {
                    source,
                    bytes: random_bytes@,
                    bits: entropy_bits as nat,
                }),
            },
    {
        if random_bytes.len() == 0 {
            Err(MessageError::EmptySample)
        } else if random_bytes.len() as u64 <= 536870911 && entropy_bits as u64 > random_bytes.len() as u64 * 8 {
            Err(MessageError::ClaimExceedsLength)
        } else {
            Ok(EntropyMessage { source, random_bytes, entropy_bits })
        }
    }

    /// The driver that produced the sample.
    pub fn source(&self) -> (r: EntropySourceType)
        ensures
            r == self@.source,
    {
        self.source
    }

    /// The raw bytes of the sample.
    pub fn random_bytes(&self) -> (r: &Vec<u8>)
        ensures
            r@ == self@.bytes,
            valid_sample(r@, self@.bits),
    {
        proof {
            use_type_invariant(self);
        }
        &self.random_bytes
    }

    /// The entropy claimed for the sample, in bits.
    pub fn entropy_bits(&self) -> (r: u32)
        ensures
            r == self@.bits,
            valid_sample(self@.bytes, self@.bits),
    {
        proof {
            use_type_invariant(self);
        }
        self.entropy_bits
    }

    /// Gives up the sample's bytes.
    pub fn into_random_bytes(self) -> (r: Vec<u8>)
        ensures
            r@ == self@.bytes,
    {
        self.random_bytes
    }
}

/// The claim of a fully trusted sample of `len` bytes: all of its bits.
pub fn full_claim(len: usize) -> (r: Option<u32>)
    ensures
        len * 8 <= u32::MAX ==> r == Some((len * 8) as u32),
        len * 8 > u32::MAX ==> r is None,
{
    if len <= 536870911 {
        Some((len * 8) as u32)
    } else {
        None
    }
}

} // verus!
