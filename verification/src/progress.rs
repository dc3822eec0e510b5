//! Two-tier progress reporting and cooperative cancellation.
//!
//! Fractions are carried as integer basis points (0 to 10000) so that the
//! monotonicity of reported progress is a proved property, not a convention.

use std::sync::mpsc::Receiver;
use std::sync::mpsc::Sender;
use vstd::prelude::*;

verus! {

/// The value that stands for a fraction of 1.0: progress is measured in
/// basis points, ten-thousandths of the whole.
pub const PROGRESS_SCALE: u32 = 10000;

/// One observation of an operation's progress: the overall stage fraction
/// and the current stage's own fraction, both in basis points.
#[derive(Clone, Copy, Debug, PartialEq, Eq, Structural)]
pub struct ProgressSample {
    pub stage_bp: u32,
    pub sub_bp: u32,
}

/// Tracks one operation's progress over a fixed number of stages.
///
/// The overall fraction is `(completed stages + current stage's fraction)
/// divided by the total stage count`; every mutation keeps it from
/// decreasing, and it reaches the full scale exactly when every stage has
/// completed.
pub struct ProgressTracker {
    pub total: u32,
    pub completed: u32,
    pub sub: u32,
}

impl ProgressTracker {
    pub open spec fn wf(self) -> bool {
        &&& 1 <= self.total <= 8
        &&& self.completed <= self.total
        &&& self.sub <= PROGRESS_SCALE
        &&& self.completed == self.total ==> self.sub == 0
    }

    /// The overall stage fraction, in basis points.
    pub open spec fn frac(self) -> int {
        (self.completed * PROGRESS_SCALE + self.sub) / self.total as int
    }

    pub open spec fn is_done(self) -> bool {
        self.completed == self.total
    }

    proof fn lemma_frac_le_scale(self)
        requires
            self.wf(),
        ensures
            0 <= self.frac() <= PROGRESS_SCALE,
            self.is_done() ==> self.frac() == PROGRESS_SCALE,
    {
        assert(0 <= self.frac() <= PROGRESS_SCALE && (self.is_done() ==> self.frac()
            == PROGRESS_SCALE)) by (nonlinear_arith)
            requires
                self.wf(),
        {
        }
    }

    pub fn new(total: u32) -> (r: ProgressTracker)
        requires
            1 <= total <= 8,
        ensures
            r.wf(),
            r.total == total,
            r.completed == 0,
            r.sub == 0,
            r.frac() == 0,
    {
        let r = ProgressTracker { total, completed: 0, sub: 0 };
        proof {
            assert(r.frac() == 0) by (nonlinear_arith)
                requires
                    r.completed == 0 && r.sub == 0 && 1 <= r.total,
            {
            }
        }
        r
    }

    /// Raises the current stage's own fraction; the overall fraction
    /// cannot decrease.
    pub fn set_sub(&mut self, bp: u32)
        requires
            old(self).wf(),
            old(self).completed < old(self).total,
            old(self).sub <= bp <= PROGRESS_SCALE,
        ensures
            final(self).wf(),
            final(self).total == old(self).total,
            final(self).completed == old(self).completed,
            final(self).sub == bp,
            old(self).frac() <= final(self).frac() <= PROGRESS_SCALE,
    {
        self.sub = bp;
        proof {
            vstd::arithmetic::div_mod::lemma_div_is_ordered(
                old(self).completed * PROGRESS_SCALE + old(self).sub,
                self.completed * PROGRESS_SCALE + self.sub,
                self.total as int,
            );
            self.lemma_frac_le_scale();
        }
    }

    /// Marks the current stage finished and opens the next one; the overall
    /// fraction cannot decrease, and reaches the full scale once the last
    /// stage completes.
    pub fn complete_stage(&mut self)
        requires
            old(self).wf(),
            old(self).completed < old(self).total,
        ensures
            final(self).wf(),
            final(self).total == old(self).total,
            final(self).completed == old(self).completed + 1,
            final(self).sub == 0,
            old(self).frac() <= final(self).frac() <= PROGRESS_SCALE,
            final(self).is_done() ==> final(self).frac() == PROGRESS_SCALE,
    {
        self.completed = self.completed + 1;
        self.sub = 0;
        proof {
            let oldc = old(self).completed as int;
            let olds = old(self).sub as int;
            let newc = self.completed as int;
            assert(oldc * PROGRESS_SCALE + olds <= newc * PROGRESS_SCALE) by (nonlinear_arith)
                requires
                    newc == oldc + 1 && olds <= PROGRESS_SCALE,
            {
            }
            vstd::arithmetic::div_mod::lemma_div_is_ordered(
                old(self).completed * PROGRESS_SCALE + old(self).sub,
                self.completed * PROGRESS_SCALE + self.sub,
                self.total as int,
            );
            self.lemma_frac_le_scale();
        }
    }

    /// Reads the current progress as one sample.
    pub fn sample(&self) -> (r: ProgressSample)
        requires
            self.wf(),
        ensures
            r.stage_bp == self.frac(),
            r.sub_bp == self.sub,
            r.stage_bp <= PROGRESS_SCALE,
    {
        proof {
            self.lemma_frac_le_scale();
            assert(self.completed * PROGRESS_SCALE + self.sub <= 8 * PROGRESS_SCALE
                + PROGRESS_SCALE) by (nonlinear_arith)
                requires
                    self.completed <= 8 && self.sub <= PROGRESS_SCALE,
            {
            }
        }
        let stage_bp = (self.completed * PROGRESS_SCALE + self.sub) / self.total;
        ProgressSample { stage_bp, sub_bp: self.sub }
    }
}

/// The fraction `done / total` in basis points, rounded down.
pub open spec fn ratio_bp_spec(done: int, total: int) -> int {
    done * PROGRESS_SCALE / total
}

proof fn lemma_ratio_bounds(done: int, total: int)
    requires
        0 < total,
        0 <= done <= total,
    ensures
        0 <= ratio_bp_spec(done, total) <= PROGRESS_SCALE,
{
    assert(0 <= done * PROGRESS_SCALE / total <= PROGRESS_SCALE) by (nonlinear_arith)
        requires
            0 < total && 0 <= done <= total,
    {
    }
}

/// Computes `done / total` in basis points.
pub fn ratio_bp(done: usize, total: usize) -> (r: u32)
    requires
        0 < total,
        done <= total,
    ensures
        r == ratio_bp_spec(done as int, total as int),
        r <= PROGRESS_SCALE,
{
    proof {
        lemma_ratio_bounds(done as int, total as int);
    }
    ((done as u128 * PROGRESS_SCALE as u128) / total as u128) as u32
}

/// The worker-to-owner end of the progress channel. The library only ever
/// pushes samples into it; whether and when the owner reads them is the
/// owner's business, and a slow owner never blocks the worker.
#[verifier::external_body]
pub struct ProgressSink {
    tx: Sender<ProgressSample>,
}

#[verifier::external_type_specification]
#[verifier::external_body]
#[verifier::reject_recursive_types(T)]
pub struct ExReceiver<T>(Receiver<T>);

/// Relies on std::sync::mpsc::channel: returns a connected sender/receiver
/// pair; samples pushed into the sink can be read from the receiver.
#[verifier::external_body]
pub fn progress_channel() -> (ProgressSink, Receiver<ProgressSample>) {
    let (tx, rx) = std::sync::mpsc::channel();
    (ProgressSink { tx }, rx)
}

/// Relies on std::sync::mpsc::Sender::send: a send never blocks, and its
/// result only reports a hung-up receiver, which the library tolerates.
#[verifier::external_body]
pub fn send_sample(sink: &ProgressSink, s: ProgressSample) {
    let _ = sink.tx.send(s);
}

/// A shared cooperative-cancellation flag. The library never assumes
/// anything about when it flips: every read is taken as the environment's
/// answer of the moment.
#[verifier::external_body]
pub struct CancelFlag {
    flag: std::sync::Arc<std::sync::atomic::AtomicBool>,
}

impl CancelFlag {
    /// Relies on std::sync::Arc::new and AtomicBool::new to allocate a
    /// fresh shared flag.
    #[verifier::external_body]
    pub fn new() -> CancelFlag {
        CancelFlag { flag: std::sync::Arc::new(std::sync::atomic::AtomicBool::new(false)) }
    }

    /// Relies on std::sync::Arc::clone: the result reads and writes the
    /// same shared flag.
    #[verifier::external_body]
    pub fn clone_ref(&self) -> CancelFlag {
        CancelFlag { flag: std::sync::Arc::clone(&self.flag) }
    }

    /// Relies on std::sync::atomic::AtomicBool::store to request
    /// cancellation.
    #[verifier::external_body]
    pub fn trigger(&self) {
        self.flag.store(true, std::sync::atomic::Ordering::Relaxed);
    }

    /// Relies on std::sync::atomic::AtomicBool::load; the answer depends on
    /// the environment, so nothing is claimed of it.
    #[verifier::external_body]
    pub fn is_cancelled(&self) -> bool {
        self.flag.load(std::sync::atomic::Ordering::Relaxed)
    }
}

} // verus!
