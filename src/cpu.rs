//! The CPU-instruction source: which random instruction the processor
//! offers, the retry of a single instruction, and the filling of a sample
//! from the 64-bit words it returns.
use vstd::prelude::*;

use crate::message::{EntropyMessage, EntropySourceType, MessageError};

verus! {

/// The random instruction a processor offers.
#[derive(Clone, Copy, Debug, PartialEq, Eq, Structural)]
pub enum InstructionRng {
    /// The seed-quality instruction (RDSEED).
    Seed,
    /// Only the lower-quality instruction (RDRAND).
    Basic,
    /// Neither: the source is disabled.
    Unavailable,
}

/// Bit 18 of EBX for CPUID leaf 7 flags the seed instruction.
pub open spec fn has_seed_bit(leaf7_ebx: u32) -> bool {
    (leaf7_ebx >> 18u32) & 1u32 == 1u32
}

/// Bit 30 of ECX for CPUID leaf 1 flags the basic instruction.
pub open spec fn has_basic_bit(leaf1_ecx: u32) -> bool {
    (leaf1_ecx >> 30u32) & 1u32 == 1u32
}

/// The instruction to use, preferring the seed-quality one.
pub open spec fn instruction_for(leaf1_ecx: u32, leaf7_ebx: u32) -> InstructionRng {
    if has_seed_bit(leaf7_ebx) {
        InstructionRng::Seed
    } else if has_basic_bit(leaf1_ecx) {
        InstructionRng::Basic
    } else {
        InstructionRng::Unavailable
    }
}

/// Reads the processor's capability bits: ECX of CPUID leaf 1 and EBX of
/// CPUID leaf 7.
pub fn probe_instruction_rng(leaf1_ecx: u32, leaf7_ebx: u32) -> (r: InstructionRng)
    ensures
        r == instruction_for(leaf1_ecx, leaf7_ebx),
{
    if (leaf7_ebx >> 18u32) & 1u32 == 1u32 {
        InstructionRng::Seed
    } else if (leaf1_ecx >> 30u32) & 1u32 == 1u32 {
        InstructionRng::Basic
    } else {
        InstructionRng::Unavailable
    }
}

/// The bits a CPU sample of `len` bytes claims: all of them on the
/// seed-quality path, none on the fallback.
pub open spec fn cpu_claim(q: InstructionRng, len: nat) -> nat {
    if q == InstructionRng::Seed {
        len * 8
    } else {
        0
    }
}

/// The first attempt that produced a value.
pub open spec fn first_success(attempts: Seq<Option<u64>>) -> Option<u64>
    decreases attempts.len(),
{
    if attempts.len() == 0 {
        None
    } else if attempts[0] is Some {
        attempts[0]
    } else {
        first_success(attempts.drop_first())
    }
}

/// Retries the instruction until it reports success: given the outcomes of
/// successive attempts, the value of the first that succeeded. Whenever any
/// attempt succeeds, a value comes back.
pub fn rdseed(attempts: &[Option<u64>]) -> (r: Option<u64>)
    ensures
        r == first_success(attempts@),
        r is Some <==> exists|i: int| 0 <= i < attempts@.len() && (#[trigger] attempts@[i]) is Some,
{
    let mut i: usize = 0;
    assert(attempts@.subrange(0, attempts@.len() as int) =~= attempts@);
    while i < attempts.len()
        invariant
            i <= attempts@.len(),
            first_success(attempts@) == first_success(attempts@.subrange(i as int, attempts@.len() as int)),
            forall|j: int| 0 <= j < i ==> (#[trigger] attempts@[j]) is None,
        decreases attempts.len() - i,
    {
        let ghost rest = attempts@.subrange(i as int, attempts@.len() as int);
        if let Some(w) = attempts[i] {
            assert(rest[0] == attempts@[i as int]);
            return Some(w);
        }
        assert(rest.drop_first() =~= attempts@.subrange(i + 1, attempts@.len() as int));
        i = i + 1;
    }
    assert(attempts@.subrange(i as int, attempts@.len() as int).len() == 0);
    None
}

/// The eight bytes of a word, least significant first.
pub open spec fn word_le(w: u64) -> Seq<u8> {
    seq![
        w as u8,
        (w >> 8u64) as u8,
        (w >> 16u64) as u8,
        (w >> 24u64) as u8,
        (w >> 32u64) as u8,
        (w >> 40u64) as u8,
        (w >> 48u64) as u8,
        (w >> 56u64) as u8,
    ]
}

fn push_word_le(buf: &mut Vec<u8>, w: u64)
    ensures
        final(buf)@ == old(buf)@ + word_le(w),
{
    buf.push(w as u8);
    buf.push((w >> 8u64) as u8);
    buf.push((w >> 16u64) as u8);
    buf.push((w >> 24u64) as u8);
    buf.push((w >> 32u64) as u8);
    buf.push((w >> 40u64) as u8);
    buf.push((w >> 48u64) as u8);
    buf.push((w >> 56u64) as u8);
    assert(final(buf)@ =~= old(buf)@ + word_le(w));
}

/// Failed attempts in a row after which a CPU sample is given up.
pub const RETRY_LIMIT: u64 = 1024;

/// A CPU sample being filled: the instruction in use, the size wanted, the
/// bytes collected so far, and the failed attempts since the last success.
pub struct CpuSamplerView {
    pub quality: InstructionRng,
    pub len: nat,
    pub bytes: Seq<u8>,
    pub failures: nat,
}

/// Where a CPU sample stands after an attempt.
#[derive(Clone, Copy, Debug, PartialEq, Eq, Structural)]
pub enum SamplerStatus {
    /// More words are needed: try the instruction again.
    NeedMore,
    /// The sample holds all its bytes.
    Full,
    /// The instruction failed `RETRY_LIMIT` times in a row: stop trying.
    GaveUp,
}

/// The status of a sample.
pub open spec fn status_of(v: CpuSamplerView) -> SamplerStatus {
    if v.bytes.len() == v.len {
        SamplerStatus::Full
    } else if v.failures >= RETRY_LIMIT {
        SamplerStatus::GaveUp
    } else {
        SamplerStatus::NeedMore
    }
}

/// The bytes and failure count after one attempt: a value is appended and
/// clears the failures, a failure is counted; a full or abandoned sample
/// stays as it is.
pub open spec fn attempt_next(v: CpuSamplerView, attempt: Option<u64>) -> (Seq<u8>, nat) {
    if status_of(v) != SamplerStatus::NeedMore {
        (v.bytes, v.failures)
    } else {
        match attempt {
            Some(w) => (v.bytes + word_le(w), 0),
            None => (v.bytes, v.failures + 1),
        }
    }
}

/// Whether a CPU sample of `len` bytes can be taken: a whole number of
/// words, at least one, with a claim that fits in 32 bits.
pub open spec fn cpu_len_ok(len: nat) -> bool {
    0 < len && len % 8 == 0 && len * 8 <= u32::MAX
}

/// Fills a CPU sample word by word, little-endian.
pub struct CpuSampler {
    quality: InstructionRng,
    len: usize,
    buf: Vec<u8>,
    failures: u64,
}

impl View for CpuSampler {
    type V = CpuSamplerView;

    closed spec fn view(&self) -> CpuSamplerView {
        CpuSamplerView {
            quality: self.quality,
            len: self.len as nat,
            bytes: self.buf@,
            failures: self.failures as nat,
        }
    }
}

impl CpuSampler {
    #[verifier::type_invariant]
    spec fn well_formed(self) -> bool {
        &&& cpu_len_ok(self.len as nat)
        &&& self.quality != InstructionRng::Unavailable
        &&& self.buf@.len() <= self.len
        &&& self.buf@.len() % 8 == 0
        &&& self.failures <= RETRY_LIMIT
    }

    /// Starts a sample of `len` bytes; `None` when the source is disabled
    /// or the size is not a whole number of words.
    pub fn new(quality: InstructionRng, len: usize) -> (r: Option<CpuSampler>)
        ensures
            quality == InstructionRng::Unavailable || !cpu_len_ok(len as nat) ==> r is None,
            quality != InstructionRng::Unavailable && cpu_len_ok(len as nat) ==> (r matches Some(s)
                && s@ == (CpuSamplerView { quality, len: len as nat, bytes: Seq::empty(), failures: 0 })),
    {
        if quality == InstructionRng::Unavailable || len == 0 || len % 8 != 0 || len > 536870911 {
            None
        } else {
            Some(CpuSampler { quality, len, buf: Vec::new(), failures: 0 })
        }
    }

    /// Whether the sample holds all its bytes.
    pub fn is_full(&self) -> (r: bool)
        ensures
            r == (self@.bytes.len() == self@.len),
    {
        self.buf.len() == self.len
    }

    /// Takes the outcome of one instruction attempt. A value is appended
    /// little-endian; a failure is counted, and after `RETRY_LIMIT` failures
    /// in a row the sample is given up. Returns where the sample stands.
    pub fn on_attempt(&mut self, attempt: Option<u64>) -> (st: SamplerStatus)
        ensures
            final(self)@.quality == old(self)@.quality,
            final(self)@.len == old(self)@.len,
            (final(self)@.bytes, final(self)@.failures) == attempt_next(old(self)@, attempt),
            st == status_of(final(self)@),
    {
        proof {
            use_type_invariant(&*self);
        }
        if self.buf.len() < self.len && self.failures < RETRY_LIMIT {
            match attempt {
                Some(w) => {
                    let mut buf: Vec<u8> = Vec::new();
                    std::mem::swap(&mut self.buf, &mut buf);
                    push_word_le(&mut buf, w);
                    std::mem::swap(&mut self.buf, &mut buf);
                    self.failures = 0;
                },
                None => {
                    self.failures = self.failures + 1;
                },
            }
        }
        if self.buf.len() == self.len {
            SamplerStatus::Full
        } else if self.failures >= RETRY_LIMIT {
            SamplerStatus::GaveUp
        } else {
            SamplerStatus::NeedMore
        }
    }

    /// The finished sample, tagged as a CPU-instruction sample; `None`
    /// while bytes are still missing.
    pub fn finish(self) -> (r: Option<EntropyMessage>)
        ensures
            self@.bytes.len() < self@.len ==> r is None,
            self@.bytes.len() == self@.len ==> (r matches Some(m) && m@.source
                == EntropySourceType::Rdseed && m@.bytes == self@.bytes && m@.bits == cpu_claim(
                self@.quality,
                self@.len,
            )),
    {
        proof {
            use_type_invariant(&self);
        }
        if self.buf.len() < self.len {
            return None;
        }
        let bits: u32 = if self.quality == InstructionRng::Seed {
            (self.len * 8) as u32
        } else {
            0
        };
        match EntropyMessage::new(EntropySourceType::Rdseed, self.buf, bits) {
            Ok(m) => Some(m),
            Err(_) => None,
        }
    }
}

} // verus!
