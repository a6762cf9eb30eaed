//! Terminal evidence for one complete exact execution plan.

use crate::plans::{FrameIdentity, OrderLane, PlanId};
use vstd::prelude::*;

verus! {

/// Generations and immutable scene properties that make plan samples
/// comparable. The camera revision is deliberately not part of it: samples of
/// a moving camera stay comparable while each remains bound to its own frame.
#[derive(Debug, Clone, Copy, PartialEq, Eq, Structural)]
pub struct PlanComparisonKey {
    pub scene_generation: u64,
    pub viewport_generation: u64,
    pub contract_generation: u64,
    pub plan_set_generation: u64,
    pub source_count: u32,
    pub sh_degree: u8,
}

/// Whether `key` was taken under the same scene, viewport, contract and plan
/// set as `frame`.
pub open spec fn key_accepts_frame(key: PlanComparisonKey, frame: FrameIdentity) -> bool {
    &&& key.scene_generation == frame.scene_generation
    &&& key.viewport_generation == frame.viewport_generation
    &&& key.contract_generation == frame.contract_generation
    &&& key.plan_set_generation == frame.plan_set_generation
}

impl PlanComparisonKey {
    pub fn new(frame: FrameIdentity, source_count: u32, sh_degree: u8) -> (r: Self)
        ensures
            r == (PlanComparisonKey {
                scene_generation: frame.scene_generation,
                viewport_generation: frame.viewport_generation,
                contract_generation: frame.contract_generation,
                plan_set_generation: frame.plan_set_generation,
                source_count,
                sh_degree,
            }),
    {
        PlanComparisonKey {
            scene_generation: frame.scene_generation(),
            viewport_generation: frame.viewport_generation(),
            contract_generation: frame.contract_generation(),
            plan_set_generation: frame.plan_set_generation(),
            source_count,
            sh_degree,
        }
    }

    pub fn accepts_frame(self, frame: FrameIdentity) -> (r: bool)
        ensures
            r == key_accepts_frame(self, frame),
    {
        self.scene_generation == frame.scene_generation()
            && self.viewport_generation == frame.viewport_generation()
            && self.contract_generation == frame.contract_generation()
            && self.plan_set_generation == frame.plan_set_generation()
    }

    pub fn source_count(self) -> (r: u32)
        ensures
            r == self.source_count,
    {
        self.source_count
    }

    pub fn sh_degree(self) -> (r: u8)
        ensures
            r == self.sh_degree,
    {
        self.sh_degree
    }
}

/// A key accepts every frame that differs from the keyed one in its camera
/// revision alone.
pub proof fn lemma_key_ignores_camera(frame: FrameIdentity, camera_revision: u64, source_count: u32, sh_degree: u8)
    ensures
        key_accepts_frame(
            PlanComparisonKey {
                scene_generation: frame.scene_generation,
                viewport_generation: frame.viewport_generation,
                contract_generation: frame.contract_generation,
                plan_set_generation: frame.plan_set_generation,
                source_count,
                sh_degree,
            },
            FrameIdentity { camera_revision, ..frame },
        ),
{
}

/// How the draw count of a plan relates to its visible and contributor
/// counts.
#[derive(Debug, Clone, Copy, PartialEq, Eq, Structural)]
pub enum PlanCountSemantics {
    DirectDrawEqualsVisible,
    IndirectDrawEqualsVisible,
    IndirectDrawEqualsContributor,
}

/// Identity of a plan sample bound to the last command buffer of its queue
/// submission.
#[derive(Debug, Clone, Copy, PartialEq, Eq, Structural)]
pub struct PlanSampleTicket {
    pub ticket: u64,
    pub probe_generation: u64,
    pub comparison: PlanComparisonKey,
    pub plan: PlanId,
}

impl PlanSampleTicket {
    pub fn new(ticket: u64, probe_generation: u64, comparison: PlanComparisonKey, plan: PlanId) -> (r:
        Self)
        ensures
            r == (PlanSampleTicket { ticket, probe_generation, comparison, plan }),
    {
        PlanSampleTicket { ticket, probe_generation, comparison, plan }
    }

    pub fn ticket(self) -> (r: u64)
        ensures
            r == self.ticket,
    {
        self.ticket
    }

    pub fn probe_generation(self) -> (r: u64)
        ensures
            r == self.probe_generation,
    {
        self.probe_generation
    }

    pub fn comparison(self) -> (r: PlanComparisonKey)
        ensures
            r == self.comparison,
    {
        self.comparison
    }

    pub fn plan(self) -> (r: PlanId)
        ensures
            r == self.plan,
    {
        self.plan
    }
}

/// The integer part of one queue-terminal plan sample: its identity, frame,
/// order lane and the counts known when it completed. Counts that remain in a
/// GPU-owned buffer are `None`, never a substitute value.
#[derive(Debug, Clone, Copy, PartialEq, Eq, Structural)]
pub struct PlanSampleCounts {
    pub ticket: PlanSampleTicket,
    pub frame: FrameIdentity,
    pub order_lane: OrderLane,
    pub order_generation: u64,
    pub visible_count: Option<u32>,
    pub contributor_count: Option<u32>,
    pub draw_count: Option<u32>,
    pub count_semantics: PlanCountSemantics,
}

/// Whether the counts of a sample are consistent with its plan: a CPU
/// post-sort plan draws exactly its visible splats, at most the source count,
/// with no contributor count; GPU plans leave every count to the GPU.
pub open spec fn counts_match_plan(c: PlanSampleCounts) -> bool {
    match (c.ticket.plan, c.order_lane, c.count_semantics) {
        (PlanId::CpuPostSort, OrderLane::Cpu, PlanCountSemantics::DirectDrawEqualsVisible) => {
            &&& c.visible_count matches Some(visible) && visible <= c.ticket.comparison.source_count
            &&& c.draw_count == c.visible_count
            &&& c.contributor_count is None
        },
        (PlanId::GpuPostSort, OrderLane::Gpu, PlanCountSemantics::IndirectDrawEqualsVisible)
        | (
            PlanId::GpuPreproject,
            OrderLane::Gpu,
            PlanCountSemantics::IndirectDrawEqualsContributor,
        ) => {
            &&& c.visible_count is None
            &&& c.contributor_count is None
            &&& c.draw_count is None
        },
        _ => false,
    }
}

/// Structural comparability of a sample, independent of its camera revision
/// and of its timing: a nonzero ticket, a key that accepts the sample's own
/// frame, and counts consistent with the plan.
pub open spec fn structurally_comparable(c: PlanSampleCounts) -> bool {
    &&& c.ticket.ticket != 0
    &&& key_accepts_frame(c.ticket.comparison, c.frame)
    &&& counts_match_plan(c)
}

fn same_count(a: Option<u32>, b: Option<u32>) -> (r: bool)
    ensures
        r == (a == b),
{
    match (a, b) {
        (Some(x), Some(y)) => x == y,
        (None, None) => true,
        _ => false,
    }
}

impl PlanSampleCounts {
    pub fn is_structurally_comparable(self) -> (r: bool)
        ensures
            r == structurally_comparable(self),
    {
        if self.ticket.ticket() == 0 || !self.ticket.comparison().accepts_frame(self.frame) {
            return false;
        }
        match (self.ticket.plan(), self.order_lane, self.count_semantics) {
            (PlanId::CpuPostSort, OrderLane::Cpu, PlanCountSemantics::DirectDrawEqualsVisible) => {
                let visible_fits = match self.visible_count {
                    Some(visible) => visible <= self.ticket.comparison().source_count(),
                    None => false,
                };
                visible_fits && same_count(self.draw_count, self.visible_count)
                    && self.contributor_count.is_none()
            },
            (PlanId::GpuPostSort, OrderLane::Gpu, PlanCountSemantics::IndirectDrawEqualsVisible)
            | (
                PlanId::GpuPreproject,
                OrderLane::Gpu,
                PlanCountSemantics::IndirectDrawEqualsContributor,
            ) => {
                self.visible_count.is_none() && self.contributor_count.is_none()
                    && self.draw_count.is_none()
            },
            _ => false,
        }
    }
}

} // verus!
