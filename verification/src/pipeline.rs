//! The pipeline orchestrator.
//!
//! An `Operation` is the state machine of one run: forward it passes
//! through building the archive and compressing it, backward through
//! decompressing and extracting. Failures carry the originating error
//! unchanged, cancellation is a distinct failure reason, and progress is
//! proved never to regress and to reach the full scale exactly on success.

use vstd::prelude::*;

use crate::archive::ArchiveEntry;
use crate::archive::ArchiveError;
use crate::archive::build_archive;
use crate::archive::entries_model;
use crate::archive::extract_archive;
use crate::archive::tar_bytes;
use crate::archive::valid_entries;
use crate::codec::CodecError;
use crate::codec::CompressType;
use crate::codec::LzmaCompress;
use crate::codec::StageError;
use crate::codec::ZstdCompress;
use crate::codec::encoded;
use crate::config::Mode;
use crate::config::level_in_range;
use crate::progress::CancelFlag;
use crate::progress::PROGRESS_SCALE;
use crate::progress::ProgressSample;
use crate::progress::ProgressSink;
use crate::progress::ProgressTracker;
use crate::progress::send_sample;

verus! {

/// A request rejected before any file or codec work starts.
#[derive(Clone, Copy, Debug, PartialEq, Eq, Structural)]
pub enum ConfigValidationError {
    LevelOutOfRange,
    EmptyInputs,
}

/// A terminal failure of one operation, carrying the originating error
/// unchanged.
#[derive(Clone, Copy, Debug, PartialEq, Eq, Structural)]
pub enum PipelineError {
    Validation(ConfigValidationError),
    Archive(ArchiveError),
    Codec(CodecError),
    Cancelled,
}

/// Checks a request's level and input count; nothing else runs until this
/// accepts.
pub fn validate_request(level: i32, input_count: usize) -> (r: Result<(), ConfigValidationError>)
    ensures
        !level_in_range(level) ==> r == Err::<(), ConfigValidationError>(
            ConfigValidationError::LevelOutOfRange,
        ),
        level_in_range(level) && input_count == 0 ==> r == Err::<(), ConfigValidationError>(
            ConfigValidationError::EmptyInputs,
        ),
        level_in_range(level) && input_count > 0 ==> r is Ok,
{
    if level < crate::config::MIN_LEVEL || level > crate::config::MAX_LEVEL {
        Err(ConfigValidationError::LevelOutOfRange)
    } else if input_count == 0 {
        Err(ConfigValidationError::EmptyInputs)
    } else {
        Ok(())
    }
}

/// The discrete phases of one operation.
#[derive(Clone, Copy, Debug, PartialEq, Eq, Structural)]
pub enum Stage {
    Idle,
    BuildingArchive,
    Compressing,
    Decompressing,
    ExtractingArchive,
    Completed,
    Failed,
}

/// The state machine of one in-flight operation.
pub struct Operation {
    pub mode: Mode,
    pub stage: Stage,
    pub failure: Option<PipelineError>,
    pub tracker: ProgressTracker,
    pub temp_live: bool,
}

impl Operation {
    /// Ties each stage to the count of completed stages and keeps a failure
    /// reason exactly in the failed state.
    pub open spec fn wf(self) -> bool {
        &&& self.tracker.wf()
        &&& self.tracker.total == 2
        &&& match self.stage {
            Stage::Idle => self.tracker.completed == 0 && self.tracker.sub == 0 && self.failure
                is None,
            Stage::BuildingArchive => self.mode == Mode::Store && self.tracker.completed == 0
                && self.failure is None,
            Stage::Compressing => self.mode == Mode::Store && self.tracker.completed == 1
                && self.failure is None,
            Stage::Decompressing => self.mode == Mode::Retrieve && self.tracker.completed == 0
                && self.failure is None,
            Stage::ExtractingArchive => self.mode == Mode::Retrieve && self.tracker.completed == 1
                && self.failure is None,
            Stage::Completed => self.tracker.completed == 2 && self.failure is None,
            Stage::Failed => self.failure is Some,
        }
    }

    pub open spec fn is_terminal(self) -> bool {
        self.stage == Stage::Completed || self.stage == Stage::Failed
    }

    /// The overall stage fraction, in basis points.
    pub open spec fn frac(self) -> int {
        self.tracker.frac()
    }

    /// The intermediate archive still exists on a terminal operation and
    /// must be removed.
    pub open spec fn needs_cleanup(self) -> bool {
        self.temp_live && self.is_terminal()
    }

    /// The stage that follows the current one on success.
    pub open spec fn next_stage_spec(self) -> Stage {
        match self.stage {
            Stage::Idle => if self.mode == Mode::Store {
                Stage::BuildingArchive
            } else {
                Stage::Decompressing
            },
            Stage::BuildingArchive => Stage::Compressing,
            Stage::Compressing => Stage::Completed,
            Stage::Decompressing => Stage::ExtractingArchive,
            Stage::ExtractingArchive => Stage::Completed,
            Stage::Completed => Stage::Completed,
            Stage::Failed => Stage::Failed,
        }
    }

    /// Validates a request and hands back an idle operation; invalid levels
    /// and, for the forward direction, empty input sets are rejected here,
    /// before anything else runs.
    pub fn start(mode: Mode, level: i32, input_count: usize) -> (r: Result<
        Operation,
        ConfigValidationError,
    >)
        ensures
            mode == Mode::Store && !level_in_range(level) ==> r == Err::<
                Operation,
                ConfigValidationError,
            >(ConfigValidationError::LevelOutOfRange),
            mode == Mode::Store && level_in_range(level) && input_count == 0 ==> r == Err::<
                Operation,
                ConfigValidationError,
            >(ConfigValidationError::EmptyInputs),
            mode == Mode::Retrieve || (level_in_range(level) && input_count > 0) ==> (
            r matches Ok(op) && op.wf() && op.stage == Stage::Idle && op.mode == mode && op.frac()
                == 0 && !op.temp_live),
    {
        if mode == Mode::Store {
            match validate_request(level, input_count) {
                Ok(_) => {},
                Err(e) => {
                    return Err(e);
                },
            }
        }
        Ok(
            Operation {
                mode,
                stage: Stage::Idle,
                failure: None,
                tracker: ProgressTracker::new(2),
                temp_live: false,
            },
        )
    }

    /// Moves to the next stage; the overall fraction cannot decrease, and
    /// reaches the full scale exactly when the operation completes.
    pub fn advance(&mut self)
        requires
            old(self).wf(),
            !old(self).is_terminal(),
        ensures
            final(self).wf(),
            final(self).mode == old(self).mode,
            final(self).temp_live == old(self).temp_live,
            final(self).stage == old(self).next_stage_spec(),
            final(self).failure is None,
            old(self).frac() <= final(self).frac(),
            final(self).stage == Stage::Completed ==> final(self).frac() == PROGRESS_SCALE,
    {
        match self.stage {
            Stage::Idle => {
                if self.mode == Mode::Store {
                    self.stage = Stage::BuildingArchive;
                } else {
                    self.stage = Stage::Decompressing;
                }
            },
            Stage::BuildingArchive => {
                self.tracker.complete_stage();
                self.stage = Stage::Compressing;
            },
            Stage::Compressing => {
                self.tracker.complete_stage();
                self.stage = Stage::Completed;
            },
            Stage::Decompressing => {
                self.tracker.complete_stage();
                self.stage = Stage::ExtractingArchive;
            },
            Stage::ExtractingArchive => {
                self.tracker.complete_stage();
                self.stage = Stage::Completed;
            },
            Stage::Completed => {},
            Stage::Failed => {},
        }
    }

    /// Stops the operation, forwarding the originating error unchanged.
    pub fn fail(&mut self, e: PipelineError)
        requires
            old(self).wf(),
            !old(self).is_terminal(),
        ensures
            final(self).wf(),
            final(self).stage == Stage::Failed,
            final(self).failure == Some(e),
            final(self).mode == old(self).mode,
            final(self).temp_live == old(self).temp_live,
            final(self).tracker == old(self).tracker,
    {
        self.stage = Stage::Failed;
        self.failure = Some(e);
    }

    /// Stops the operation with the distinct cancellation reason.
    pub fn cancel(&mut self)
        requires
            old(self).wf(),
            !old(self).is_terminal(),
        ensures
            final(self).wf(),
            final(self).stage == Stage::Failed,
            final(self).failure == Some(PipelineError::Cancelled),
            final(self).mode == old(self).mode,
            final(self).temp_live == old(self).temp_live,
            final(self).tracker == old(self).tracker,
    {
        self.fail(PipelineError::Cancelled);
    }

    /// Records that this operation's private intermediate archive now
    /// exists on disk.
    pub fn mark_temp_created(&mut self)
        ensures
            *final(self) == (Operation { temp_live: true, ..*old(self) }),
    {
        self.temp_live = true;
    }

    /// Records that the intermediate archive was removed again.
    pub fn cleanup_done(&mut self)
        ensures
            *final(self) == (Operation { temp_live: false, ..*old(self) }),
    {
        self.temp_live = false;
    }

    /// Whether the intermediate archive still has to be removed.
    pub fn cleanup_required(&self) -> (r: bool)
        ensures
            r == self.needs_cleanup(),
    {
        self.temp_live && (self.stage == Stage::Completed || self.stage == Stage::Failed)
    }

    /// Reads the operation's progress as one sample.
    pub fn sample(&self) -> (r: ProgressSample)
        requires
            self.wf(),
        ensures
            r.stage_bp == self.frac(),
            r.stage_bp <= PROGRESS_SCALE,
    {
        self.tracker.sample()
    }
}

/// Runs the forward pipeline in memory: archive the entries, compress the
/// archive with the selected backend, return the artifact bytes.
///
/// Progress samples are pushed after every stage change and every codec
/// chunk; cancellation is honoured between stages and at chunk granularity
/// inside compression.
pub fn store_to_bytes(
    entries: &Vec<ArchiveEntry>,
    level: i32,
    kind: CompressType,
    op: &mut Operation,
    sink: &ProgressSink,
    cancel: &CancelFlag,
) -> (r: Result<Vec<u8>, PipelineError>)
    requires
        old(op).wf(),
        old(op).stage == Stage::Idle,
        old(op).mode == Mode::Store,
        level_in_range(level),
        entries@.len() > 0,
    ensures
        final(op).wf(),
        final(op).mode == Mode::Store,
        old(op).frac() <= final(op).frac(),
        r matches Ok(art) ==> art@ == encoded(kind, tar_bytes(entries_model(entries@)), level as int)
            && valid_entries(entries_model(entries@)) && final(op).stage == Stage::Completed
            && final(op).frac() == PROGRESS_SCALE,
        r matches Err(e) ==> final(op).stage == Stage::Failed && final(op).failure == Some(e) && (
        e matches PipelineError::Archive(_) || e matches PipelineError::Codec(_) || e
            == PipelineError::Cancelled),
        !valid_entries(entries_model(entries@)) ==> r == Err::<Vec<u8>, PipelineError>(
            PipelineError::Archive(ArchiveError::InvalidName),
        ) || r == Err::<Vec<u8>, PipelineError>(PipelineError::Archive(ArchiveError::EntryTooLarge))
            || r == Err::<Vec<u8>, PipelineError>(PipelineError::Cancelled),
        valid_entries(entries_model(entries@)) ==> (r matches Err(PipelineError::Archive(ae))
            ==> ae == ArchiveError::Io),
{
    op.advance();
    send_sample(sink, op.sample());
    if cancel.is_cancelled() {
        op.cancel();
        return Err(PipelineError::Cancelled);
    }
    let archive = match build_archive(entries, &mut op.tracker, sink) {
        Ok(a) => a,
        Err(e) => {
            op.fail(PipelineError::Archive(e));
            return Err(PipelineError::Archive(e));
        },
    };
    op.advance();
    send_sample(sink, op.sample());
    if cancel.is_cancelled() {
        op.cancel();
        return Err(PipelineError::Cancelled);
    }
    let compressed = match kind {
        CompressType::LZMA => LzmaCompress.compress(&archive, level, &mut op.tracker, sink, cancel),
        CompressType::Zstd => ZstdCompress.compress(&archive, level, &mut op.tracker, sink, cancel),
    };
    match compressed {
        Ok(art) => {
            op.advance();
            send_sample(sink, op.sample());
            Ok(art)
        },
        Err(StageError::Cancelled) => {
            op.cancel();
            Err(PipelineError::Cancelled)
        },
        Err(StageError::Codec(ce)) => {
            op.fail(PipelineError::Codec(ce));
            Err(PipelineError::Codec(ce))
        },
    }
}

/// Runs the reverse pipeline in memory: decompress the artifact with the
/// selected backend, then list the archived entries.
///
/// Any artifact the forward pipeline produced from validly named entries
/// comes back as exactly those entries, unless cancellation stops the run.
pub fn retrieve_from_bytes(
    artifact: &Vec<u8>,
    kind: CompressType,
    op: &mut Operation,
    sink: &ProgressSink,
    cancel: &CancelFlag,
) -> (r: Result<Vec<ArchiveEntry>, PipelineError>)
    requires
        old(op).wf(),
        old(op).stage == Stage::Idle,
        old(op).mode == Mode::Retrieve,
    ensures
        final(op).wf(),
        final(op).mode == Mode::Retrieve,
        old(op).frac() <= final(op).frac(),
        r matches Ok(v) ==> final(op).stage == Stage::Completed && final(op).frac()
            == PROGRESS_SCALE && forall|es: Seq<(Seq<u8>, Seq<u8>)>, lvl: int|
            valid_entries(es) && 0 <= lvl <= 9 && artifact@ == #[trigger] encoded(
                kind,
                tar_bytes(es),
                lvl,
            ) ==> entries_model(v@) == es,
        r matches Err(e) ==> final(op).stage == Stage::Failed && final(op).failure == Some(e) && (
        e matches PipelineError::Archive(_) || e matches PipelineError::Codec(_) || e
            == PipelineError::Cancelled),
        r matches Err(PipelineError::Codec(ce)) ==> ce == CodecError::CorruptStream || ce
            == CodecError::Io,
        r == Err::<Vec<ArchiveEntry>, PipelineError>(PipelineError::Codec(CodecError::CorruptStream))
            || (r matches Err(PipelineError::Archive(_))) ==> forall|
            es: Seq<(Seq<u8>, Seq<u8>)>,
            lvl: int,
        |
            !(valid_entries(es) && 0 <= lvl <= 9 && artifact@ == #[trigger] encoded(
                kind,
                tar_bytes(es),
                lvl,
            )),
{
    op.advance();
    send_sample(sink, op.sample());
    if cancel.is_cancelled() {
        op.cancel();
        return Err(PipelineError::Cancelled);
    }
    let decoded = match kind {
        CompressType::LZMA => LzmaCompress.decompress(artifact, &mut op.tracker, sink, cancel),
        CompressType::Zstd => ZstdCompress.decompress(artifact, &mut op.tracker, sink, cancel),
    };
    let archive = match decoded {
        Ok(a) => a,
        Err(StageError::Cancelled) => {
            op.cancel();
            return Err(PipelineError::Cancelled);
        },
        Err(StageError::Codec(ce)) => {
            op.fail(PipelineError::Codec(ce));
            return Err(PipelineError::Codec(ce));
        },
    };
    op.advance();
    send_sample(sink, op.sample());
    if cancel.is_cancelled() {
        op.cancel();
        return Err(PipelineError::Cancelled);
    }
    match extract_archive(&archive) {
        Ok(v) => {
            op.advance();
            send_sample(sink, op.sample());
            Ok(v)
        },
        Err(ae) => {
            op.fail(PipelineError::Archive(ae));
            Err(PipelineError::Archive(ae))
        },
    }
}

/// How many hex digits of the operation identifier the temporary name
/// carries: enough for every 64-bit identifier.
pub const TEMP_ID_DIGITS: usize = 16;

/// The byte of one lower-case hex digit.
pub open spec fn hex_digit(v: nat) -> u8 {
    if v < 10 {
        (0x30 + v) as u8
    } else {
        (0x57 + v) as u8
    }
}

/// The last `k` hex digits of `id`, highest first.
pub open spec fn hex_rep(id: nat, k: nat) -> Seq<u8>
    decreases k,
{
    if k == 0 {
        Seq::<u8>::empty()
    } else {
        hex_rep(id / 16, (k - 1) as nat).push(hex_digit(id % 16))
    }
}

pub open spec fn pow16(k: nat) -> nat
    decreases k,
{
    if k == 0 {
        1
    } else {
        16 * pow16((k - 1) as nat)
    }
}

/// The name of the intermediate archive private to the operation with the
/// given identifier: `archive-` plus sixteen hex digits plus `.tar`.
pub open spec fn temp_name_spec(id: u64) -> Seq<u8> {
    seq![0x61u8, 0x72u8, 0x63u8, 0x68u8, 0x69u8, 0x76u8, 0x65u8, 0x2du8] + hex_rep(
        id as nat,
        TEMP_ID_DIGITS as nat,
    ) + seq![0x2eu8, 0x74u8, 0x61u8, 0x72u8]
}

proof fn lemma_hex_rep_len(id: nat, k: nat)
    ensures
        hex_rep(id, k).len() == k,
    decreases k,
{
    if k > 0 {
        lemma_hex_rep_len(id / 16, (k - 1) as nat);
    }
}

proof fn lemma_hex_rep_inj(a: nat, b: nat, k: nat)
    requires
        a < pow16(k),
        b < pow16(k),
        hex_rep(a, k) == hex_rep(b, k),
    ensures
        a == b,
    decreases k,
{
    if k == 0 {
    } else {
        let k1 = (k - 1) as nat;
        let ra = hex_rep(a / 16, k1);
        let rb = hex_rep(b / 16, k1);
        lemma_hex_rep_len(a / 16, k1);
        lemma_hex_rep_len(b / 16, k1);
        assert(ra.push(hex_digit(a % 16)) == rb.push(hex_digit(b % 16)));
        assert(ra.push(hex_digit(a % 16))[k - 1] == hex_digit(a % 16));
        assert(rb.push(hex_digit(b % 16))[k - 1] == hex_digit(b % 16));
        assert(a % 16 == b % 16);
        assert(ra =~= rb) by {
            assert(forall|i: int|
                0 <= i < k1 ==> ra[i] == #[trigger] rb[i]) by {
                assert(forall|i: int|
                    0 <= i < k1 ==> ra.push(hex_digit(a % 16))[i] == #[trigger] ra[i]);
                assert(forall|i: int|
                    0 <= i < k1 ==> rb.push(hex_digit(b % 16))[i] == #[trigger] rb[i]);
            }
        }
        assert(pow16(k) == 16 * pow16(k1));
        assert(a / 16 < pow16(k1)) by (nonlinear_arith)
            requires
                a < 16 * pow16(k1),
        {
        }
        assert(b / 16 < pow16(k1)) by (nonlinear_arith)
            requires
                b < 16 * pow16(k1),
        {
        }
        lemma_hex_rep_inj(a / 16, b / 16, k1);
        vstd::arithmetic::div_mod::lemma_fundamental_div_mod(a as int, 16);
        vstd::arithmetic::div_mod::lemma_fundamental_div_mod(b as int, 16);
    }
}

/// Two distinct operation identifiers never share an intermediate archive
/// name: each in-flight operation owns its temporary file exclusively.
pub proof fn lemma_temp_name_unique(a: u64, b: u64)
    requires
        a != b,
    ensures
        temp_name_spec(a) != temp_name_spec(b),
{
    let ha = hex_rep(a as nat, TEMP_ID_DIGITS as nat);
    let hb = hex_rep(b as nat, TEMP_ID_DIGITS as nat);
    lemma_hex_rep_len(a as nat, TEMP_ID_DIGITS as nat);
    lemma_hex_rep_len(b as nat, TEMP_ID_DIGITS as nat);
    if temp_name_spec(a) == temp_name_spec(b) {
        assert(ha =~= hb) by {
            assert(forall|i: int|
                0 <= i < TEMP_ID_DIGITS ==> ha[i] == #[trigger] hb[i]) by {
                assert(forall|i: int|
                    0 <= i < TEMP_ID_DIGITS ==> temp_name_spec(a)[8 + i] == #[trigger] ha[i]);
                assert(forall|i: int|
                    0 <= i < TEMP_ID_DIGITS ==> temp_name_spec(b)[8 + i] == #[trigger] hb[i]);
            }
        }
        assert(pow16(16) == 0x10000000000000000) by {
            reveal_with_fuel(pow16, 17);
        }
        lemma_hex_rep_inj(a as nat, b as nat, TEMP_ID_DIGITS as nat);
    }
}

fn push_hex(out: &mut Vec<u8>, id: u64, k: usize)
    ensures
        final(out)@ == old(out)@ + hex_rep(id as nat, k as nat),
    decreases k,
{
    if k == 0 {
        proof {
            assert(out@ =~= out@ + hex_rep(id as nat, 0));
        }
        return ;
    }
    push_hex(out, id / 16, k - 1);
    let d = (id % 16) as u8;
    let b = if d < 10 {
        0x30 + d
    } else {
        0x57 + d
    };
    proof {
        assert(b == hex_digit((id % 16) as nat));
        assert((id as nat) / 16 == (id / 16) as nat);
        assert((id as nat) % 16 == (id % 16) as nat);
    }
    out.push(b);
    proof {
        assert(out@ =~= old(out)@ + hex_rep(id as nat, k as nat));
    }
}

/// Derives the operation-private name of the intermediate archive file
/// from the operation's identifier; `lemma_temp_name_unique` shows that no
/// two operations can collide on it.
pub fn temp_archive_name(op_id: u64) -> (r: Vec<u8>)
    ensures
        r@ == temp_name_spec(op_id),
{
    let mut out: Vec<u8> = Vec::new();
    out.push(0x61);
    out.push(0x72);
    out.push(0x63);
    out.push(0x68);
    out.push(0x69);
    out.push(0x76);
    out.push(0x65);
    out.push(0x2d);
    push_hex(&mut out, op_id, TEMP_ID_DIGITS);
    out.push(0x2e);
    out.push(0x74);
    out.push(0x61);
    out.push(0x72);
    proof {
        assert(out@ =~= temp_name_spec(op_id));
    }
    out
}

} // verus!
