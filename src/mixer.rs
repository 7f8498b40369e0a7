//! The privileged side: absorbs received samples into the pool digest,
//! keeps the running credit, and prepares injections into the kernel pool.
use vstd::prelude::*;

use crate::digest::{shake256_output, shake_absorbed, shake_new, shake_read, shake_update, ShakeState};
use crate::message::{EntropyMessage, MessageView};
use crate::wire::{decode, wire_decode, WireError};

verus! {

/// Bytes drained from the pool digest for one injection, at the least.
pub const INJECTION_LEN: usize = 256;

/// The credit at which an accounted injection is due: every bit of a
/// payload of `INJECTION_LEN` bytes.
pub const INJECTION_BITS: u64 = 2048;

/// The most credit the mixer holds: the largest count the kernel's
/// accounted injection call takes (a 32-bit signed integer). One injection
/// always carries the whole credit.
pub const CREDIT_MAX: u64 = 2147483647;

/// Samples absorbed since the last injection after which the digest is
/// injected without credit, when too little credit has built up.
pub const INJECTION_BATCH: u64 = 64;

/// The credit after adding `bits`, saturating at `CREDIT_MAX`.
pub open spec fn add_credit(c: int, bits: nat) -> int {
    if c + bits > CREDIT_MAX {
        CREDIT_MAX as int
    } else {
        c + bits
    }
}

/// The credit after absorbing `msgs` in order, starting from `c`.
pub open spec fn credit_after(c: int, msgs: Seq<MessageView>) -> int {
    msgs.fold_left(c, |acc: int, m: MessageView| add_credit(acc, m.bits))
}

/// What the mixer holds: all bytes absorbed so far, the unspent credit, and
/// the number of samples absorbed since the last successful injection.
pub struct MixerView {
    pub absorbed: Seq<u8>,
    pub credit: nat,
    pub pending: nat,
}

/// The injection that is due, if any: an accounted one once the credit
/// fills a payload, else an unaccounted one once a batch has arrived.
pub open spec fn due_injection(v: MixerView) -> Option<bool> {
    if v.credit >= INJECTION_BITS {
        Some(true)
    } else if v.pending >= INJECTION_BATCH {
        Some(false)
    } else {
        None
    }
}

/// The bytes an accounted injection of `credit` bits drains: enough for
/// every credited bit, and never fewer than `INJECTION_LEN`.
pub open spec fn payload_len(credit: nat) -> nat {
    if credit <= INJECTION_BITS {
        INJECTION_LEN as nat
    } else {
        ((credit + 7) / 8) as nat
    }
}

/// A payload ready for the kernel pool, with the credit that goes with it.
/// Bytes and credit are handed over together, in one call.
pub struct Injection {
    pub bytes: Vec<u8>,
    pub credited_bits: u32,
    pub accounted: bool,
}

/// The pool state of the privileged process.
pub struct Mixer {
    pool: ShakeState,
    credit: u64,
    pending: u64,
}

impl View for Mixer {
    type V = MixerView;

    closed spec fn view(&self) -> MixerView {
        MixerView {
            absorbed: shake_absorbed(self.pool),
            credit: self.credit as nat,
            pending: self.pending as nat,
        }
    }
}

impl Mixer {
    #[verifier::type_invariant]
    spec fn well_formed(self) -> bool {
        self.credit <= CREDIT_MAX
    }

    /// A mixer that has absorbed nothing and holds no credit.
    pub fn new() -> (r: Mixer)
        ensures
            r@.absorbed == Seq::<u8>::empty(),
            r@.credit == 0,
            r@.pending == 0,
    {
        Mixer { pool: shake_new(), credit: 0, pending: 0 }
    }

    /// The unspent credit, in bits.
    pub fn credit(&self) -> (r: u64)
        ensures
            r == self@.credit,
            r <= CREDIT_MAX,
    {
        proof {
            use_type_invariant(self);
        }
        self.credit
    }

    /// Absorbs a sample: its bytes always go into the digest, whatever it
    /// claims, and its claim is added to the credit.
    pub fn absorb(&mut self, m: &EntropyMessage)
        ensures
            final(self)@.absorbed == old(self)@.absorbed + m@.bytes,
            final(self)@.credit == add_credit(old(self)@.credit as int, m@.bits),
            final(self)@.credit == credit_after(old(self)@.credit as int, seq![m@]),
            final(self)@.pending == if old(self)@.pending < u64::MAX {
                old(self)@.pending + 1
            } else {
                old(self)@.pending
            },
    {
        proof {
            use_type_invariant(&*self);
        }
        let mut pool = shake_new();
        std::mem::swap(&mut self.pool, &mut pool);
        shake_update(&mut pool, m.random_bytes().as_slice());
        std::mem::swap(&mut self.pool, &mut pool);
        let bits = m.entropy_bits() as u64;
        if self.credit + bits > CREDIT_MAX {
            self.credit = CREDIT_MAX;
        } else {
            self.credit = self.credit + bits;
        }
        if self.pending < u64::MAX {
            self.pending = self.pending + 1;
        }
        proof {
            let f = |acc: int, x: MessageView| add_credit(acc, x.bits);
            let one = seq![m@];
            assert(one.drop_last() =~= Seq::<MessageView>::empty());
            assert(one.fold_left(old(self)@.credit as int, f) == f(
                one.drop_last().fold_left(old(self)@.credit as int, f),
                m@,
            ));
        }
    }

    /// Handles one received datagram: a sample that decodes is absorbed and
    /// its claim returned; anything else is dropped and changes nothing.
    pub fn receive(&mut self, datagram: &[u8]) -> (r: Result<u32, WireError>)
        ensures
            match wire_decode(datagram@) {
                Ok((v, _)) => r == Ok::<u32, WireError>(v.bits as u32) && final(self)@ == (MixerView {
                    absorbed: old(self)@.absorbed + v.bytes,
                    credit: add_credit(old(self)@.credit as int, v.bits) as nat,
                    pending: if old(self)@.pending < u64::MAX {
                        old(self)@.pending + 1
                    } else {
                        old(self)@.pending
                    },
                }),
                Err(e) => r == Err::<u32, WireError>(e) && final(self)@ == old(self)@,
            },
    {
        match decode(datagram) {
            Ok((m, _)) => {
                self.absorb(&m);
                Ok(m.entropy_bits())
            },
            Err(e) => Err(e),
        }
    }

    /// Whether enough credit has built up for a fully credited injection.
    pub fn ready(&self) -> (r: bool)
        ensures
            r == (self@.credit >= INJECTION_BITS),
    {
        self.credit >= INJECTION_BITS
    }

    /// The injection that is due: `Some(true)` for an accounted one,
    /// `Some(false)` for an unaccounted one, `None` for none yet.
    pub fn due(&self) -> (r: Option<bool>)
        ensures
            r == due_injection(self@),
    {
        if self.credit >= INJECTION_BITS {
            Some(true)
        } else if self.pending >= INJECTION_BATCH {
            Some(false)
        } else {
            None
        }
    }

    /// Drains the digest into a payload. An accounted injection carries the
    /// whole credit, with at least as many payload bits as it credits; an
    /// unaccounted one carries none. The digest keeps everything it has
    /// absorbed.
    pub fn injection(&self, accounted: bool) -> (r: Injection)
        ensures
            r.accounted == accounted,
            accounted ==> r.credited_bits == self@.credit && r.bytes@ == shake256_output(
                self@.absorbed,
                payload_len(self@.credit),
            ),
            !accounted ==> r.credited_bits == 0 && r.bytes@ == shake256_output(
                self@.absorbed,
                INJECTION_LEN as nat,
            ),
            r.bytes@.len() >= INJECTION_LEN,
            r.credited_bits <= r.bytes@.len() * 8,
    {
        proof {
            use_type_invariant(self);
        }
        if !accounted {
            let bytes = shake_read(&self.pool, INJECTION_LEN);
            return Injection { bytes, credited_bits: 0, accounted };
        }
        let len: usize = if self.credit <= INJECTION_BITS {
            INJECTION_LEN
        } else {
            ((self.credit + 7) / 8) as usize
        };
        let bytes = shake_read(&self.pool, len);
        Injection { bytes, credited_bits: self.credit as u32, accounted }
    }

    /// Records the outcome of an injection call. A successful accounted
    /// injection spends the whole credit; an unaccounted one, or one that
    /// failed, leaves it as it was. A success starts a new batch. The digest
    /// is never reset.
    pub fn injection_done(&mut self, inj: &Injection, succeeded: bool)
        ensures
            final(self)@.absorbed == old(self)@.absorbed,
            final(self)@.credit == if succeeded && inj.accounted {
                0
            } else {
                old(self)@.credit
            },
            final(self)@.pending == if succeeded {
                0
            } else {
                old(self)@.pending
            },
    {
        proof {
            use_type_invariant(&*self);
        }
        if succeeded && inj.accounted {
            self.credit = 0;
        }
        if succeeded {
            self.pending = 0;
        }
    }
}

/// Credit accounting does not depend on the order in which samples arrive:
/// absorbing the same samples in any two orders leaves the same credit.
pub proof fn lemma_credit_order_independent(c: int, a: Seq<MessageView>, b: Seq<MessageView>)
    requires
        a.to_multiset() == b.to_multiset(),
    ensures
        credit_after(c, a) == credit_after(c, b),
{
    let f = |acc: int, m: MessageView| add_credit(acc, m.bits);
    assert(vstd::seq_lib::commutative_foldl(f));
    vstd::seq_lib::lemma_fold_left_permutation(a, b, f, c);
}

} // verus!
