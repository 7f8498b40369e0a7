//! The unprivileged side: what each source samples per round, whether it
//! claims entropy, the life of one gathering thread, and the registry of
//! discovered cards.
use vstd::prelude::*;

use crate::cpu::InstructionRng;
use crate::digest::{concat, condense, shake256_output};
use crate::message::{EntropyMessage, EntropySourceType};
use vstd::slice::slice_to_vec;

verus! {

/// Pause between two rounds of a source, in milliseconds.
pub const ROUND_INTERVAL_MS: u64 = 10000;

/// Bytes condensed from the audio recordings into one sample.
pub const SOUND_SAMPLE_LEN: usize = 64;

/// Bytes in one sample of a source.
pub open spec fn sample_len_of(s: EntropySourceType) -> nat {
    match s {
        EntropySourceType::Pkcs11 => 128,
        EntropySourceType::Sound => 64,
        _ => 32,
    }
}

/// Sampling calls per round; for the GPG-card source, per card.
pub open spec fn calls_per_round_of(s: EntropySourceType) -> nat {
    match s {
        EntropySourceType::Gpg => 31,
        EntropySourceType::Hwrng => 100,
        EntropySourceType::Jitterentropy => 10,
        EntropySourceType::Sound => 10,
        _ => 1,
    }
}

/// Whether a source claims entropy for its samples: the token always, the
/// CPU instruction only on its seed-quality path, the others never.
pub open spec fn claims_entropy(s: EntropySourceType, cpu: InstructionRng) -> bool {
    match s {
        EntropySourceType::Pkcs11 => true,
        EntropySourceType::Rdseed => cpu == InstructionRng::Seed,
        _ => false,
    }
}

/// The claim for one sample of a source.
pub open spec fn claim_of(s: EntropySourceType, cpu: InstructionRng) -> nat {
    if claims_entropy(s, cpu) {
        sample_len_of(s) * 8
    } else {
        0
    }
}

/// Whether a round of captures all succeeded, and there was at least one.
pub open spec fn all_captured(captures: Seq<Option<Vec<u8>>>) -> bool {
    captures.len() > 0 && forall|i: int| 0 <= i < captures.len() ==> (#[trigger] captures[i]) is Some
}

/// The bytes of one capture; none for a failed one.
pub open spec fn capture_bytes(c: Option<Vec<u8>>) -> Seq<u8> {
    match c {
        Some(b) => b@,
        None => Seq::empty(),
    }
}

/// Bytes in one sample of a source.
pub fn sample_len(s: EntropySourceType) -> (r: usize)
    ensures
        r == sample_len_of(s),
{
    match s {
        EntropySourceType::Pkcs11 => 128,
        EntropySourceType::Sound => 64,
        _ => 32,
    }
}

/// Sampling calls per round; for the GPG-card source, per card.
pub fn calls_per_round(s: EntropySourceType) -> (r: usize)
    ensures
        r == calls_per_round_of(s),
{
    match s {
        EntropySourceType::Gpg => 31,
        EntropySourceType::Hwrng => 100,
        EntropySourceType::Jitterentropy => 10,
        EntropySourceType::Sound => 10,
        _ => 1,
    }
}

/// Where a gathering thread stands.
#[derive(Clone, Copy, Debug, PartialEq, Eq, Structural)]
pub enum GatherState {
    /// The driver's handle is not open yet.
    Opening,
    /// The handle is open and rounds are running.
    Running,
    /// The handle could not be opened: the source is off for good.
    Disabled,
}

/// The liveness event a thread announces once its driver is open.
#[derive(Clone, Copy, Debug, PartialEq, Eq, Structural)]
pub enum Liveness {
    Initialized(EntropySourceType),
}

/// One sampling call of a round: the card it reads from, if any, whether
/// that card is to be selected first, and the number of bytes to pull.
#[derive(Clone, Copy, Debug, PartialEq, Eq, Structural)]
pub struct SampleCall {
    pub card: Option<usize>,
    pub select: bool,
    pub len: usize,
}

/// The decisions of one gathering thread. The thread opens its driver,
/// announces itself, then per round makes the calls this plans, turns each
/// result into a sample, and sleeps.
pub struct Gatherer {
    pub source: EntropySourceType,
    pub cpu: InstructionRng,
    pub state: GatherState,
}

/// Whether the processor lets a source run: only the CPU-instruction
/// source depends on it, and needs one of the random instructions.
pub open spec fn source_available(s: EntropySourceType, cpu: InstructionRng) -> bool {
    !(s == EntropySourceType::Rdseed && cpu == InstructionRng::Unavailable)
}

/// One outcome of opening the driver, applied to a thread: its next state
/// and the liveness event it gives, if any.
pub open spec fn open_next(g: Gatherer, opened: bool) -> (GatherState, Option<Liveness>) {
    if g.state != GatherState::Opening {
        (g.state, None)
    } else if opened && source_available(g.source, g.cpu) {
        (GatherState::Running, Some(Liveness::Initialized(g.source)))
    } else {
        (GatherState::Disabled, None)
    }
}

/// The number of liveness events a thread gives over a series of open
/// outcomes.
pub open spec fn announcements(g: Gatherer, outcomes: Seq<bool>) -> nat
    decreases outcomes.len(),
{
    if outcomes.len() == 0 {
        0
    } else {
        let (st, ev) = open_next(g, outcomes[0]);
        let rest = announcements(
            Gatherer { source: g.source, cpu: g.cpu, state: st },
            outcomes.drop_first(),
        );
        if ev is Some {
            rest + 1
        } else {
            rest
        }
    }
}

proof fn lemma_no_announcement_after_open(g: Gatherer, outcomes: Seq<bool>)
    requires
        g.state != GatherState::Opening,
    ensures
        announcements(g, outcomes) == 0,
    decreases outcomes.len(),
{
    if outcomes.len() > 0 {
        lemma_no_announcement_after_open(g, outcomes.drop_first());
    }
}

/// A thread announces itself at most once, whatever its open outcomes: it
/// does so exactly when the first outcome is a success on a source the
/// processor allows.
pub proof fn lemma_announced_at_most_once(g: Gatherer, outcomes: Seq<bool>)
    requires
        g.state == GatherState::Opening,
    ensures
        announcements(g, outcomes) <= 1,
        announcements(g, outcomes) == 1 <==> outcomes.len() > 0 && outcomes[0] && source_available(
            g.source,
            g.cpu,
        ),
{
    if outcomes.len() > 0 {
        let (st, ev) = open_next(g, outcomes[0]);
        lemma_no_announcement_after_open(
            Gatherer { source: g.source, cpu: g.cpu, state: st },
            outcomes.drop_first(),
        );
    }
}

impl Gatherer {
    /// A thread for `source`; `cpu` is what the processor offers, which
    /// only the CPU-instruction source looks at.
    pub fn new(source: EntropySourceType, cpu: InstructionRng) -> (r: Gatherer)
        ensures
            r == (Gatherer { source, cpu, state: GatherState::Opening }),
    {
        Gatherer { source, cpu, state: GatherState::Opening }
    }

    /// Takes the outcome of opening the driver. The first successful open
    /// starts the rounds and gives the one liveness event; a failed open,
    /// or a CPU-instruction source on a processor without the instructions,
    /// disables the source. Later outcomes change nothing.
    pub fn on_open(&mut self, opened: bool) -> (r: Option<Liveness>)
        ensures
            final(self).source == old(self).source,
            final(self).cpu == old(self).cpu,
            (final(self).state, r) == open_next(*old(self), opened),
    {
        if self.state == GatherState::Opening {
            if opened && !(self.source == EntropySourceType::Rdseed && self.cpu
                == InstructionRng::Unavailable) {
                self.state = GatherState::Running;
                Some(Liveness::Initialized(self.source))
            } else {
                self.state = GatherState::Disabled;
                None
            }
        } else {
            None
        }
    }

    /// The sampling calls of one round. A running GPG-card thread selects
    /// each known card in turn and pulls its samples from it; with no card
    /// it makes no call. Other running sources make their fixed number of
    /// calls; a thread that is not running makes none.
    pub fn plan_round(&self, cards: &Vec<String>) -> (r: Vec<SampleCall>)
        ensures
            self.state != GatherState::Running ==> r@.len() == 0,
            self.state == GatherState::Running && self.source == EntropySourceType::Gpg ==> {
                &&& r@.len() == cards@.len() * calls_per_round_of(self.source)
                &&& forall|i: int|
                    0 <= i < r@.len() ==> #[trigger] r@[i] == (SampleCall {
                        card: Some((i / calls_per_round_of(self.source) as int) as usize),
                        select: i % calls_per_round_of(self.source) as int == 0,
                        len: sample_len_of(self.source) as usize,
                    })
            },
            self.state == GatherState::Running && self.source != EntropySourceType::Gpg ==> {
                &&& r@.len() == calls_per_round_of(self.source)
                &&& forall|i: int|
                    0 <= i < r@.len() ==> #[trigger] r@[i] == (SampleCall {
                        card: None,
                        select: false,
                        len: sample_len_of(self.source) as usize,
                    })
            },
    {
        let mut plan: Vec<SampleCall> = Vec::new();
        if self.state != GatherState::Running {
            return plan;
        }
        let per = calls_per_round(self.source);
        let len = sample_len(self.source);
        if self.source == EntropySourceType::Gpg {
            let mut c: usize = 0;
            while c < cards.len()
                invariant
                    self.state == GatherState::Running,
                    self.source == EntropySourceType::Gpg,
                    per == 31,
                    len == 32,
                    c <= cards@.len(),
                    plan@.len() == c * 31,
                    forall|i: int|
                        0 <= i < plan@.len() ==> #[trigger] plan@[i] == (SampleCall {
                            card: Some((i / 31) as usize),
                            select: i % 31 == 0,
                            len: 32,
                        }),
                decreases cards.len() - c,
            {
                let mut k: usize = 0;
                while k < per
                    invariant
                        per == 31,
                        len == 32,
                        c < cards@.len(),
                        k <= 31,
                        plan@.len() == c * 31 + k,
                        forall|i: int|
                            0 <= i < plan@.len() ==> #[trigger] plan@[i] == (SampleCall {
                                card: Some((i / 31) as usize),
                                select: i % 31 == 0,
                                len: 32,
                            }),
                    decreases per - k,
                {
                    proof {
                        let i = c * 31 + k;
                        assert(i / 31 == c && i % 31 == k) by (nonlinear_arith)
                            requires
                                i == c * 31 + k,
                                k < 31,
                        ;
                    }
                    plan.push(SampleCall { card: Some(c), select: k == 0, len });
                    k = k + 1;
                }
                c = c + 1;
            }
        } else {
            let mut k: usize = 0;
            while k < per
                invariant
                    per == calls_per_round_of(self.source),
                    len == sample_len_of(self.source),
                    k <= per,
                    plan@.len() == k,
                    forall|i: int|
                        0 <= i < plan@.len() ==> #[trigger] plan@[i] == (SampleCall {
                            card: None,
                            select: false,
                            len,
                        }),
                decreases per - k,
            {
                plan.push(SampleCall { card: None, select: false, len });
                k = k + 1;
            }
        }
        plan
    }

    /// Turns the result of one sampling call into a sample. A failed call,
    /// a result of the wrong size, or a thread that is not running gives
    /// nothing: the call is skipped and the next round tries again.
    pub fn on_sample(&self, result: Option<Vec<u8>>) -> (r: Option<EntropyMessage>)
        ensures
            match result {
                Some(b) => if self.state == GatherState::Running && b@.len() == sample_len_of(
                    self.source,
                ) {
                    r matches Some(m) && m@.source == self.source && m@.bytes == b@ && m@.bits
                        == claim_of(self.source, self.cpu)
                } else {
                    r is None
                },
                None => r is None,
            },
    {
        match result {
            Some(b) => {
                if self.state != GatherState::Running || b.len() != sample_len(self.source) {
                    return None;
                }
                let bits: u32 = if self.source == EntropySourceType::Pkcs11 || (self.source
                    == EntropySourceType::Rdseed && self.cpu == InstructionRng::Seed) {
                    (sample_len(self.source) * 8) as u32
                } else {
                    0
                };
                match EntropyMessage::new(self.source, b, bits) {
                    Ok(m) => Some(m),
                    Err(_) => None,
                }
            },
            None => None,
        }
    }

    /// Condenses a round of audio captures into one sample for a running
    /// audio thread; it claims nothing. A round in which no capture was
    /// made, or any capture failed, is skipped.
    pub fn on_recordings(&self, captures: &Vec<Option<Vec<u8>>>) -> (r: Option<EntropyMessage>)
        ensures
            self.state == GatherState::Running && self.source == EntropySourceType::Sound
                && all_captured(captures@) ==> (r matches Some(m) && m@.source
                == EntropySourceType::Sound && m@.bits == 0 && m@.bytes == shake256_output(
                concat(captures@.map_values(|c: Option<Vec<u8>>| capture_bytes(c))),
                SOUND_SAMPLE_LEN as nat,
            )),
            !(self.state == GatherState::Running && self.source == EntropySourceType::Sound
                && all_captured(captures@)) ==> r is None,
    {
        if self.state != GatherState::Running || self.source != EntropySourceType::Sound
            || captures.len() == 0 {
            return None;
        }
        let mut chunks: Vec<Vec<u8>> = Vec::new();
        let mut i: usize = 0;
        while i < captures.len()
            invariant
                0 < captures@.len(),
                i <= captures@.len(),
                forall|j: int| 0 <= j < i ==> (#[trigger] captures@[j]) is Some,
                chunks@.map_values(|c: Vec<u8>| c@) =~= captures@.subrange(0, i as int).map_values(
                    |c: Option<Vec<u8>>| capture_bytes(c),
                ),
            decreases captures.len() - i,
        {
            match &captures[i] {
                Some(b) => {
                    let chunk = slice_to_vec(b.as_slice());
                    proof {
                        let before = captures@.subrange(0, i as int);
                        let after = captures@.subrange(0, i + 1);
                        assert(after =~= before.push(captures@[i as int]));
                        assert(chunks@.push(chunk).map_values(|c: Vec<u8>| c@) =~= chunks@.map_values(
                            |c: Vec<u8>| c@,
                        ).push(chunk@));
                        assert(after.map_values(|c: Option<Vec<u8>>| capture_bytes(c)) =~= before.map_values(
                            |c: Option<Vec<u8>>| capture_bytes(c),
                        ).push(chunk@));
                    }
                    chunks.push(chunk);
                },
                None => {
                    return None;
                },
            }
            i = i + 1;
        }
        assert(captures@.subrange(0, i as int) =~= captures@);
        let digest = condense(&chunks, SOUND_SAMPLE_LEN);
        match EntropyMessage::new(EntropySourceType::Sound, digest, 0) {
            Ok(m) => Some(m),
            Err(_) => None,
        }
    }

    /// The pause after each round.
    pub fn interval_ms(&self) -> (r: u64)
        ensures
            r == ROUND_INTERVAL_MS,
    {
        ROUND_INTERVAL_MS
    }
}

/// Whether a token's handle counts as open: the handle was obtained and the
/// administrative login and logout at startup both reported success (0).
pub fn token_opened(handle_ok: bool, login_status: i32, logout_status: i32) -> (r: bool)
    ensures
        r == (handle_ok && login_status == 0 && logout_status == 0),
{
    handle_ok && login_status == 0 && logout_status == 0
}

/// The serial numbers of the cards found so far, in the order reported.
/// The enumeration callback adds to it; the GPG-card thread reads it
/// before each round. Callers share it behind one lock.
pub struct CardRegistry {
    serials: Vec<String>,
}

impl View for CardRegistry {
    type V = Seq<Seq<char>>;

    closed spec fn view(&self) -> Seq<Seq<char>> {
        self.serials@.map_values(|s: String| s@)
    }
}

impl CardRegistry {
    /// A registry with no card.
    pub fn new() -> (r: CardRegistry)
        ensures
            r@ == Seq::<Seq<char>>::empty(),
    {
        let r = CardRegistry { serials: Vec::new() };
        assert(r@ =~= Seq::<Seq<char>>::empty());
        r
    }

    /// Records a card reported by the enumeration.
    pub fn report(&mut self, serial: String)
        ensures
            final(self)@ == old(self)@.push(serial@),
    {
        self.serials.push(serial);
        assert(final(self)@ =~= old(self)@.push(serial@));
    }

    /// A copy of the serial numbers known now.
    pub fn cards(&self) -> (r: Vec<String>)
        ensures
            r@.map_values(|s: String| s@) == self@,
    {
        let mut out: Vec<String> = Vec::new();
        let mut i: usize = 0;
        while i < self.serials.len()
            invariant
                i <= self.serials@.len(),
                out@.map_values(|s: String| s@) =~= self.serials@.subrange(0, i as int).map_values(
                    |s: String| s@,
                ),
            decreases self.serials.len() - i,
        {
            let serial = self.serials[i].clone();
            proof {
                let before = self.serials@.subrange(0, i as int);
                let after = self.serials@.subrange(0, i + 1);
                assert(after =~= before.push(self.serials@[i as int]));
                assert(out@.push(serial).map_values(|s: String| s@) =~= out@.map_values(
                    |s: String| s@,
                ).push(serial@));
                assert(after.map_values(|s: String| s@) =~= before.map_values(|s: String| s@).push(
                    serial@,
                ));
            }
            out.push(serial);
            i = i + 1;
        }
        assert(self.serials@.subrange(0, i as int) =~= self.serials@);
        out
    }
}

} // verus!
