//! Receipts joined to one successfully presented frame, and the lifecycle of
//! an armed capture of them.
//!
//! A renderer receipt carries a profile (depth precision, projected-cache
//! precision, or the resident SH layout) together with the frame, plan, order
//! generation and presentation sequence it was observed on. A capture is
//! admitted only when all three receipts name the same presentation.

use crate::plans::{FrameIdentity, PlanId};
use vstd::prelude::*;

verus! {

/// A renderer-observed profile joined to one presented frame.
#[derive(Debug, Clone, Copy, PartialEq, Eq)]
pub struct PresentedReceipt<P> {
    pub profile: P,
    pub frame: FrameIdentity,
    pub plan: PlanId,
    pub order_generation: u64,
    pub presentation_sequence: u64,
}

impl<P: Copy> PresentedReceipt<P> {
    pub fn new(
        profile: P,
        frame: FrameIdentity,
        plan: PlanId,
        order_generation: u64,
        presentation_sequence: u64,
    ) -> (r: Self)
        ensures
            r == (PresentedReceipt { profile, frame, plan, order_generation, presentation_sequence }),
    {
        PresentedReceipt { profile, frame, plan, order_generation, presentation_sequence }
    }

    pub fn profile(self) -> (r: P)
        ensures
            r == self.profile,
    {
        self.profile
    }

    /// The resident SH layout a resident-SH receipt carries.
    pub fn layout(self) -> (r: P)
        ensures
            r == self.profile,
    {
        self.profile
    }

    pub fn frame(self) -> (r: FrameIdentity)
        ensures
            r == self.frame,
    {
        self.frame
    }

    pub fn plan(self) -> (r: PlanId)
        ensures
            r == self.plan,
    {
        self.plan
    }

    pub fn order_generation(self) -> (r: u64)
        ensures
            r == self.order_generation,
    {
        self.order_generation
    }

    pub fn presentation_sequence(self) -> (r: u64)
        ensures
            r == self.presentation_sequence,
    {
        self.presentation_sequence
    }
}

/// Depth precision observed on a presented frame.
pub type PresentedDepthPrecisionReceipt<P> = PresentedReceipt<P>;

/// Projected-cache precision realized on a presented frame.
pub type PresentedProjectedCachePrecisionReceipt<P> = PresentedReceipt<P>;

/// Resident SH layout admitted on a presented frame.
pub type PresentedResidentShReceipt<L> = PresentedReceipt<L>;

/// The receipts a presented frame carries, each optional.
#[derive(Debug, Clone, Copy, PartialEq, Eq)]
pub struct PresentedFramePrecisionReceipts<D, C, L> {
    pub depth: Option<PresentedReceipt<D>>,
    pub projected_cache: Option<PresentedReceipt<C>>,
    pub resident_sh: Option<PresentedReceipt<L>>,
}

impl<D, C, L> PresentedFramePrecisionReceipts<D, C, L> {
    pub fn new(
        depth: Option<PresentedReceipt<D>>,
        projected_cache: Option<PresentedReceipt<C>>,
        resident_sh: Option<PresentedReceipt<L>>,
    ) -> (r: Self)
        ensures
            r == (PresentedFramePrecisionReceipts { depth, projected_cache, resident_sh }),
    {
        PresentedFramePrecisionReceipts { depth, projected_cache, resident_sh }
    }

    /// Keeps the latest presented receipt of each kind: a receipt of `newer`
    /// replaces the held one, and a kind `newer` lacks keeps the held one.
    pub fn retain_presented(&mut self, newer: Self)
        ensures
            final(self).depth == if newer.depth is Some {
                newer.depth
            } else {
                old(self).depth
            },
            final(self).projected_cache == if newer.projected_cache is Some {
                newer.projected_cache
            } else {
                old(self).projected_cache
            },
            final(self).resident_sh == if newer.resident_sh is Some {
                newer.resident_sh
            } else {
                old(self).resident_sh
            },
    {
        let PresentedFramePrecisionReceipts { depth, projected_cache, resident_sh } = newer;
        if depth.is_some() {
            self.depth = depth;
        }
        if projected_cache.is_some() {
            self.projected_cache = projected_cache;
        }
        if resident_sh.is_some() {
            self.resident_sh = resident_sh;
        }
    }
}

/// Capture evidence: the three receipts of one presentation.
#[derive(Debug, Clone, Copy, PartialEq, Eq)]
pub struct PresentedCapturePrecisionReceipt<D, C, L> {
    pub depth_precision: PresentedReceipt<D>,
    pub projected_cache_precision: PresentedReceipt<C>,
    pub resident_sh: PresentedReceipt<L>,
}

/// The capture receipt of presentation `sequence`: present exactly when all
/// three receipts exist, carry that sequence, and agree on frame, plan and
/// order generation.
pub open spec fn join_spec<D, C, L>(
    sequence: u64,
    precision: PresentedFramePrecisionReceipts<D, C, L>,
) -> Option<PresentedCapturePrecisionReceipt<D, C, L>> {
    match (precision.depth, precision.projected_cache, precision.resident_sh) {
        (Some(d), Some(c), Some(r)) => {
            if sequence == d.presentation_sequence && sequence == c.presentation_sequence
                && sequence == r.presentation_sequence && d.frame == c.frame && d.frame == r.frame
                && d.plan == c.plan && d.plan == r.plan && d.order_generation == c.order_generation
                && d.order_generation == r.order_generation {
                Some(
                    PresentedCapturePrecisionReceipt {
                        depth_precision: d,
                        projected_cache_precision: c,
                        resident_sh: r,
                    },
                )
            } else {
                None
            }
        },
        _ => None,
    }
}

impl<D: Copy, C: Copy, L: Copy> PresentedCapturePrecisionReceipt<D, C, L> {
    pub fn join(presentation_sequence: u64, precision: PresentedFramePrecisionReceipts<D, C, L>) -> (r:
        Option<Self>)
        ensures
            r == join_spec(presentation_sequence, precision),
    {
        let depth_precision = match precision.depth {
            Some(receipt) => receipt,
            None => return None,
        };
        let projected_cache_precision = match precision.projected_cache {
            Some(receipt) => receipt,
            None => return None,
        };
        let resident_sh = match precision.resident_sh {
            Some(receipt) => receipt,
            None => return None,
        };
        if presentation_sequence != depth_precision.presentation_sequence
            || presentation_sequence != projected_cache_precision.presentation_sequence
            || presentation_sequence != resident_sh.presentation_sequence
            || depth_precision.frame != projected_cache_precision.frame
            || depth_precision.frame != resident_sh.frame
            || depth_precision.plan != projected_cache_precision.plan
            || depth_precision.plan != resident_sh.plan
            || depth_precision.order_generation != projected_cache_precision.order_generation
            || depth_precision.order_generation != resident_sh.order_generation {
            return None;
        }
        Some(PresentedCapturePrecisionReceipt { depth_precision, projected_cache_precision, resident_sh })
    }

    pub fn depth_precision(self) -> (r: PresentedReceipt<D>)
        ensures
            r == self.depth_precision,
    {
        self.depth_precision
    }

    pub fn projected_cache_precision(self) -> (r: PresentedReceipt<C>)
        ensures
            r == self.projected_cache_precision,
    {
        self.projected_cache_precision
    }

    pub fn resident_sh(self) -> (r: PresentedReceipt<L>)
        ensures
            r == self.resident_sh,
    {
        self.resident_sh
    }
}

/// Frame statistics of a presented frame: timings the library carries
/// through unread, and the visible and drawn counts.
#[derive(Debug, Clone, Copy, PartialEq)]
pub struct FrameStats<T> {
    pub timings: T,
    pub visible_count: u32,
    pub drawn_count: u32,
}

/// Whether a presented frame issued a current-stats readback, and its
/// submission number when it did.
#[derive(Debug, Clone, Copy, PartialEq, Eq, Structural)]
pub enum SurfaceCurrentStatsSubmission {
    NotRequested,
    Issued(u64),
}

impl SurfaceCurrentStatsSubmission {
    pub open spec fn spec_receipt(self) -> Option<u64> {
        match self {
            SurfaceCurrentStatsSubmission::NotRequested => None,
            SurfaceCurrentStatsSubmission::Issued(s) => Some(s),
        }
    }

    /// The submission a terminal must name to answer this one.
    pub fn receipt(self) -> (r: Option<u64>)
        ensures
            r == self.spec_receipt(),
    {
        match self {
            SurfaceCurrentStatsSubmission::NotRequested => None,
            SurfaceCurrentStatsSubmission::Issued(s) => Some(s),
        }
    }
}

/// How a current-stats readback ended, naming its submission.
#[derive(Debug, Clone, Copy, PartialEq, Eq, Structural)]
pub enum SurfaceCurrentStatsTerminal {
    Ready { submission: u64, visible: u32, drawn: u32 },
    MapFailure(u64),
    GenerationInvalidated(u64),
    Expired(u64),
    Dropped(u64),
}

impl SurfaceCurrentStatsTerminal {
    pub open spec fn spec_submission(self) -> u64 {
        match self {
            SurfaceCurrentStatsTerminal::Ready { submission, .. } => submission,
            SurfaceCurrentStatsTerminal::MapFailure(s) => s,
            SurfaceCurrentStatsTerminal::GenerationInvalidated(s) => s,
            SurfaceCurrentStatsTerminal::Expired(s) => s,
            SurfaceCurrentStatsTerminal::Dropped(s) => s,
        }
    }

    pub fn submission(self) -> (r: u64)
        ensures
            r == self.spec_submission(),
    {
        match self {
            SurfaceCurrentStatsTerminal::Ready { submission, .. } => submission,
            SurfaceCurrentStatsTerminal::MapFailure(s) => s,
            SurfaceCurrentStatsTerminal::GenerationInvalidated(s) => s,
            SurfaceCurrentStatsTerminal::Expired(s) => s,
            SurfaceCurrentStatsTerminal::Dropped(s) => s,
        }
    }
}

/// One poll of the current-stats readback.
#[derive(Debug, Clone, Copy, PartialEq, Eq, Structural)]
pub enum SurfaceCurrentStatsPoll {
    Pending,
    Terminal(SurfaceCurrentStatsTerminal),
}

/// Whether the legacy frame statistics of the last presented frame can be
/// reported.
#[derive(Debug, Clone, Copy, PartialEq, Eq, Structural)]
pub enum LegacySurfaceStatsAvailability {
    Current,
    AwaitingCurrentReceipt,
    Unavailable,
}

/// Availability of a presented frame's statistics.
pub open spec fn for_presented_frame_spec(
    counts_are_synchronous: bool,
    submission: SurfaceCurrentStatsSubmission,
) -> LegacySurfaceStatsAvailability {
    if counts_are_synchronous {
        LegacySurfaceStatsAvailability::Current
    } else if submission is Issued {
        LegacySurfaceStatsAvailability::AwaitingCurrentReceipt
    } else {
        LegacySurfaceStatsAvailability::Unavailable
    }
}

/// Availability and statistics after a poll of the current-stats readback.
/// Only an awaiting availability moves: without an issued submission it
/// becomes unavailable; a terminal naming the awaited submission makes it
/// current (a ready one, whose counts replace the held ones) or unavailable
/// (any failure); a pending poll or a terminal of another submission changes
/// nothing.
pub open spec fn observe_poll_spec<T>(
    availability: LegacySurfaceStatsAvailability,
    submission: SurfaceCurrentStatsSubmission,
    poll: SurfaceCurrentStatsPoll,
    stats: FrameStats<T>,
) -> (LegacySurfaceStatsAvailability, FrameStats<T>) {
    if availability != LegacySurfaceStatsAvailability::AwaitingCurrentReceipt {
        (availability, stats)
    } else {
        match submission.spec_receipt() {
            None => (LegacySurfaceStatsAvailability::Unavailable, stats),
            Some(expected) => match poll {
                SurfaceCurrentStatsPoll::Pending => (availability, stats),
                SurfaceCurrentStatsPoll::Terminal(terminal) => if terminal.spec_submission()
                    != expected {
                    (availability, stats)
                } else {
                    match terminal {
                        SurfaceCurrentStatsTerminal::Ready { visible, drawn, .. } => (
                            LegacySurfaceStatsAvailability::Current,
                            FrameStats { visible_count: visible, drawn_count: drawn, ..stats },
                        ),
                        _ => (LegacySurfaceStatsAvailability::Unavailable, stats),
                    }
                },
            },
        }
    }
}

/// How a poll moves the legacy statistics: only an awaited receipt of the
/// issued submission moves them; a ready one makes them current with its
/// counts and keeps the timings, a failed one makes them unavailable, and a
/// pending poll or a terminal of another submission changes nothing.
pub proof fn lemma_current_stats_follow_their_own_receipt<T>(
    availability: LegacySurfaceStatsAvailability,
    issued: u64,
    poll: SurfaceCurrentStatsPoll,
    stats: FrameStats<T>,
)
    ensures
        availability != LegacySurfaceStatsAvailability::AwaitingCurrentReceipt ==> observe_poll_spec(
            availability,
            SurfaceCurrentStatsSubmission::Issued(issued),
            poll,
            stats,
        ) == (availability, stats),
        poll matches SurfaceCurrentStatsPoll::Terminal(t) && t.spec_submission() != issued
            ==> observe_poll_spec(
            availability,
            SurfaceCurrentStatsSubmission::Issued(issued),
            poll,
            stats,
        ) == (availability, stats),
        poll == SurfaceCurrentStatsPoll::Pending ==> observe_poll_spec(
            availability,
            SurfaceCurrentStatsSubmission::Issued(issued),
            poll,
            stats,
        ) == (availability, stats),
        availability == LegacySurfaceStatsAvailability::AwaitingCurrentReceipt ==> (poll
            matches SurfaceCurrentStatsPoll::Terminal(t) && t.spec_submission() == issued
            && !(t is Ready) ==> observe_poll_spec(
            availability,
            SurfaceCurrentStatsSubmission::Issued(issued),
            poll,
            stats,
        ) == (LegacySurfaceStatsAvailability::Unavailable, stats)),
        availability == LegacySurfaceStatsAvailability::AwaitingCurrentReceipt ==> observe_poll_spec(
            availability,
            SurfaceCurrentStatsSubmission::NotRequested,
            poll,
            stats,
        ).0 == LegacySurfaceStatsAvailability::Unavailable,
{
}

/// The awaited ready receipt makes the statistics current with its counts,
/// keeping the frame's timings.
pub proof fn lemma_ready_receipt_sets_counts<T>(
    issued: u64,
    visible: u32,
    drawn: u32,
    stats: FrameStats<T>,
)
    ensures
        observe_poll_spec(
            LegacySurfaceStatsAvailability::AwaitingCurrentReceipt,
            SurfaceCurrentStatsSubmission::Issued(issued),
            SurfaceCurrentStatsPoll::Terminal(
                SurfaceCurrentStatsTerminal::Ready { submission: issued, visible, drawn },
            ),
            stats,
        ) == (
            LegacySurfaceStatsAvailability::Current,
            FrameStats { timings: stats.timings, visible_count: visible, drawn_count: drawn },
        ),
{
}

impl LegacySurfaceStatsAvailability {
    /// Synchronous counts are current at once; otherwise they await the
    /// receipt of an issued current-stats submission, or are unavailable when
    /// none was issued.
    pub fn for_presented_frame(
        counts_are_synchronous: bool,
        submission: SurfaceCurrentStatsSubmission,
    ) -> (r: Self)
        ensures
            r == for_presented_frame_spec(counts_are_synchronous, submission),
    {
        if counts_are_synchronous {
            LegacySurfaceStatsAvailability::Current
        } else {
            match submission {
                SurfaceCurrentStatsSubmission::Issued(_) => {
                    LegacySurfaceStatsAvailability::AwaitingCurrentReceipt
                },
                SurfaceCurrentStatsSubmission::NotRequested => {
                    LegacySurfaceStatsAvailability::Unavailable
                },
            }
        }
    }

    /// Resolves an awaited current-stats receipt from one poll.
    pub fn observe_poll<T>(
        &mut self,
        submission: SurfaceCurrentStatsSubmission,
        poll: SurfaceCurrentStatsPoll,
        stats: &mut FrameStats<T>,
    )
        ensures
            (*final(self), *final(stats)) == observe_poll_spec(
                *old(self),
                submission,
                poll,
                *old(stats),
            ),
    {
        match *self {
            LegacySurfaceStatsAvailability::AwaitingCurrentReceipt => {},
            _ => {
                return ;
            },
        }
        let expected = match submission.receipt() {
            Some(expected) => expected,
            None => {
                *self = LegacySurfaceStatsAvailability::Unavailable;
                return ;
            },
        };
        let terminal = match poll {
            SurfaceCurrentStatsPoll::Terminal(terminal) => terminal,
            SurfaceCurrentStatsPoll::Pending => {
                return ;
            },
        };
        if terminal.submission() != expected {
            return ;
        }
        match terminal {
            SurfaceCurrentStatsTerminal::Ready { visible, drawn, .. } => {
                stats.visible_count = visible;
                stats.drawn_count = drawn;
                *self = LegacySurfaceStatsAvailability::Current;
            },
            SurfaceCurrentStatsTerminal::MapFailure(_)
            | SurfaceCurrentStatsTerminal::GenerationInvalidated(_)
            | SurfaceCurrentStatsTerminal::Expired(_)
            | SurfaceCurrentStatsTerminal::Dropped(_) => {
                *self = LegacySurfaceStatsAvailability::Unavailable;
            },
        }
    }

    /// The statistics when they are current.
    pub fn get<S>(self, stats: S) -> (r: Option<S>)
        ensures
            r == if self == LegacySurfaceStatsAvailability::Current {
                Some(stats)
            } else {
                None
            },
    {
        match self {
            LegacySurfaceStatsAvailability::Current => Some(stats),
            LegacySurfaceStatsAvailability::AwaitingCurrentReceipt
            | LegacySurfaceStatsAvailability::Unavailable => None,
        }
    }
}

/// Where an optional capture of the presented receipts stands.
#[derive(Debug, Clone, Copy, PartialEq, Eq, Structural)]
pub enum CapturePrecisionState {
    /// The surface does not take captures; arming always succeeds trivially.
    Disabled,
    Idle,
    Armed,
    Presented,
    Unavailable,
}

/// Model of a capture: its state and the receipt it holds.
pub struct CapturePrecisionView<D, C, L> {
    pub state: CapturePrecisionState,
    pub receipt: Option<PresentedCapturePrecisionReceipt<D, C, L>>,
}

/// A receipt is held exactly while the capture stands presented.
pub open spec fn capture_wf<D, C, L>(v: CapturePrecisionView<D, C, L>) -> bool {
    v.receipt is Some <==> v.state == CapturePrecisionState::Presented
}

/// Capture after arming, and whether arming was accepted.
pub open spec fn arm_spec<D, C, L>(v: CapturePrecisionView<D, C, L>) -> (
    CapturePrecisionView<D, C, L>,
    bool,
) {
    match v.state {
        CapturePrecisionState::Idle => (
            CapturePrecisionView { state: CapturePrecisionState::Armed, receipt: None },
            true,
        ),
        CapturePrecisionState::Disabled => (v, true),
        _ => (v, false),
    }
}

/// Capture after a cancel: back to idle, unless captures are disabled.
pub open spec fn cancel_spec<D, C, L>(v: CapturePrecisionView<D, C, L>) -> CapturePrecisionView<
    D,
    C,
    L,
> {
    if v.state == CapturePrecisionState::Disabled {
        v
    } else {
        CapturePrecisionView { state: CapturePrecisionState::Idle, receipt: None }
    }
}

/// Capture after a frame was presented with `sequence` (`None` when the
/// present produced no sequence): an armed capture keeps the joined receipt,
/// or becomes unavailable when the receipts do not join.
pub open spec fn observe_spec<D, C, L>(
    v: CapturePrecisionView<D, C, L>,
    sequence: Option<u64>,
    precision: PresentedFramePrecisionReceipts<D, C, L>,
) -> CapturePrecisionView<D, C, L> {
    if v.state == CapturePrecisionState::Armed {
        let joined = match sequence {
            Some(s) => join_spec(s, precision),
            None => None,
        };
        CapturePrecisionView {
            state: if joined is Some {
                CapturePrecisionState::Presented
            } else {
                CapturePrecisionState::Unavailable
            },
            receipt: joined,
        }
    } else {
        v
    }
}

/// Capture after taking its receipt, and the receipt taken: only a presented
/// capture yields one, and every take leaves the capture idle (or disabled).
pub open spec fn take_spec<D, C, L>(v: CapturePrecisionView<D, C, L>) -> (
    CapturePrecisionView<D, C, L>,
    Option<PresentedCapturePrecisionReceipt<D, C, L>>,
) {
    let state = if v.state == CapturePrecisionState::Disabled {
        CapturePrecisionState::Disabled
    } else {
        CapturePrecisionState::Idle
    };
    (
        CapturePrecisionView { state, receipt: None },
        if v.state == CapturePrecisionState::Presented {
            v.receipt
        } else {
            None
        },
    )
}

/// The capture lifecycle of a surface session: arm, observe one presented
/// frame, take the joined receipt once.
pub struct CapturePrecision<D, C, L> {
    state: CapturePrecisionState,
    receipt: Option<PresentedCapturePrecisionReceipt<D, C, L>>,
}

impl<D, C, L> View for CapturePrecision<D, C, L> {
    type V = CapturePrecisionView<D, C, L>;

    closed spec fn view(&self) -> CapturePrecisionView<D, C, L> {
        CapturePrecisionView { state: self.state, receipt: self.receipt }
    }
}

impl<D: Copy, C: Copy, L: Copy> CapturePrecision<D, C, L> {
    pub open spec fn wf(&self) -> bool {
        capture_wf(self@)
    }

    /// Idle on an exact surface, disabled otherwise.
    pub fn new(exact_surface: bool) -> (r: Self)
        ensures
            r.wf(),
            r@.state == if exact_surface {
                CapturePrecisionState::Idle
            } else {
                CapturePrecisionState::Disabled
            },
    {
        CapturePrecision {
            state: if exact_surface {
                CapturePrecisionState::Idle
            } else {
                CapturePrecisionState::Disabled
            },
            receipt: None,
        }
    }

    pub fn state(&self) -> (r: CapturePrecisionState)
        ensures
            r == self@.state,
    {
        self.state
    }

    pub fn arm(&mut self) -> (r: bool)
        requires
            old(self).wf(),
        ensures
            final(self).wf(),
            (final(self)@, r) == arm_spec(old(self)@),
    {
        match self.state {
            CapturePrecisionState::Idle => {
                self.state = CapturePrecisionState::Armed;
                self.receipt = None;
                true
            },
            CapturePrecisionState::Disabled => true,
            CapturePrecisionState::Armed
            | CapturePrecisionState::Presented
            | CapturePrecisionState::Unavailable => false,
        }
    }

    pub fn cancel(&mut self)
        requires
            old(self).wf(),
        ensures
            final(self).wf(),
            final(self)@ == cancel_spec(old(self)@),
    {
        if self.state != CapturePrecisionState::Disabled {
            self.state = CapturePrecisionState::Idle;
            self.receipt = None;
        }
    }

    pub fn observe_presented(
        &mut self,
        presentation_sequence: Option<u64>,
        precision: PresentedFramePrecisionReceipts<D, C, L>,
    )
        requires
            old(self).wf(),
        ensures
            final(self).wf(),
            final(self)@ == observe_spec(old(self)@, presentation_sequence, precision),
    {
        if self.state == CapturePrecisionState::Armed {
            let joined = match presentation_sequence {
                Some(sequence) => PresentedCapturePrecisionReceipt::join(sequence, precision),
                None => None,
            };
            self.state = if joined.is_some() {
                CapturePrecisionState::Presented
            } else {
                CapturePrecisionState::Unavailable
            };
            self.receipt = joined;
        }
    }

    pub fn take(&mut self) -> (r: Option<PresentedCapturePrecisionReceipt<D, C, L>>)
        requires
            old(self).wf(),
        ensures
            final(self).wf(),
            (final(self)@, r) == take_spec(old(self)@),
    {
        let previous = self.state;
        self.state = CapturePrecisionState::Idle;
        match previous {
            CapturePrecisionState::Presented => {
                let taken = self.receipt;
                self.receipt = None;
                taken
            },
            CapturePrecisionState::Disabled => {
                self.state = CapturePrecisionState::Disabled;
                self.receipt = None;
                None
            },
            CapturePrecisionState::Idle
            | CapturePrecisionState::Armed
            | CapturePrecisionState::Unavailable => {
                self.receipt = None;
                None
            },
        }
    }
}

/// A receipt is taken at most once: the take after a take yields nothing.
pub proof fn lemma_capture_take_is_once<D, C, L>(v: CapturePrecisionView<D, C, L>)
    requires
        capture_wf(v),
    ensures
        take_spec(take_spec(v).0).1 is None,
{
}

/// An armed capture that observes a presentation whose receipts join yields
/// exactly the joined receipt on the next take.
pub proof fn lemma_armed_capture_yields_joined_receipt<D, C, L>(
    v: CapturePrecisionView<D, C, L>,
    sequence: u64,
    precision: PresentedFramePrecisionReceipts<D, C, L>,
)
    requires
        capture_wf(v),
        v.state == CapturePrecisionState::Armed,
    ensures
        take_spec(observe_spec(v, Some(sequence), precision)).1 == join_spec(sequence, precision),
{
}

/// A capture fails closed: when the present has no sequence, or the receipts
/// do not join, or the capture was never armed, the next take yields nothing.
pub proof fn lemma_capture_fails_closed<D, C, L>(
    v: CapturePrecisionView<D, C, L>,
    sequence: Option<u64>,
    precision: PresentedFramePrecisionReceipts<D, C, L>,
)
    requires
        capture_wf(v),
        v.state != CapturePrecisionState::Presented,
        v.state != CapturePrecisionState::Armed || sequence is None || join_spec(
            sequence->0,
            precision,
        ) is None,
    ensures
        take_spec(observe_spec(v, sequence, precision)).1 is None,
{
}

/// A joined receipt names one presentation: its three receipts carry the
/// requested sequence and agree on frame, plan and order generation.
pub proof fn lemma_joined_receipts_agree<D, C, L>(
    sequence: u64,
    precision: PresentedFramePrecisionReceipts<D, C, L>,
)
    requires
        join_spec(sequence, precision) is Some,
    ensures
        ({
            let j = join_spec(sequence, precision)->0;
            &&& j.depth_precision.presentation_sequence == sequence
            &&& j.projected_cache_precision.presentation_sequence == sequence
            &&& j.resident_sh.presentation_sequence == sequence
            &&& j.depth_precision.frame == j.projected_cache_precision.frame
            &&& j.depth_precision.frame == j.resident_sh.frame
            &&& j.depth_precision.plan == j.projected_cache_precision.plan
            &&& j.depth_precision.plan == j.resident_sh.plan
            &&& j.depth_precision.order_generation == j.projected_cache_precision.order_generation
            &&& j.depth_precision.order_generation == j.resident_sh.order_generation
        }),
{
}

/// Disabled captures stay disabled through every operation.
pub proof fn lemma_disabled_capture_stays_disabled<D, C, L>(
    v: CapturePrecisionView<D, C, L>,
    sequence: Option<u64>,
    precision: PresentedFramePrecisionReceipts<D, C, L>,
)
    requires
        capture_wf(v),
        v.state == CapturePrecisionState::Disabled,
    ensures
        arm_spec(v) == (v, true),
        cancel_spec(v) == v,
        observe_spec(v, sequence, precision) == v,
        take_spec(v).0.state == CapturePrecisionState::Disabled,
        take_spec(v).1 is None,
{
}

} // verus!
