//! Identity of a frame and of the execution plan that produced it.

use vstd::prelude::*;

verus! {

/// Generations that identify one frame: the scene, the camera, the viewport,
/// the rendering contract and the set of plans.
#[derive(Debug, Clone, Copy, PartialEq, Eq, Structural)]
pub struct FrameIdentity {
    pub scene_generation: u64,
    pub camera_revision: u64,
    pub viewport_generation: u64,
    pub contract_generation: u64,
    pub plan_set_generation: u64,
}

impl FrameIdentity {
    pub fn new(
        scene_generation: u64,
        camera_revision: u64,
        viewport_generation: u64,
        contract_generation: u64,
        plan_set_generation: u64,
    ) -> (r: Self)
        ensures
            r == (FrameIdentity {
                scene_generation,
                camera_revision,
                viewport_generation,
                contract_generation,
                plan_set_generation,
            }),
    {
        FrameIdentity {
            scene_generation,
            camera_revision,
            viewport_generation,
            contract_generation,
            plan_set_generation,
        }
    }

    pub fn scene_generation(self) -> (r: u64)
        ensures
            r == self.scene_generation,
    {
        self.scene_generation
    }

    pub fn camera_revision(self) -> (r: u64)
        ensures
            r == self.camera_revision,
    {
        self.camera_revision
    }

    pub fn viewport_generation(self) -> (r: u64)
        ensures
            r == self.viewport_generation,
    {
        self.viewport_generation
    }

    pub fn contract_generation(self) -> (r: u64)
        ensures
            r == self.contract_generation,
    {
        self.contract_generation
    }

    pub fn plan_set_generation(self) -> (r: u64)
        ensures
            r == self.plan_set_generation,
    {
        self.plan_set_generation
    }
}

/// Complete execution plans of an exact frame.
#[derive(Debug, Clone, Copy, PartialEq, Eq, Structural)]
pub enum PlanId {
    CpuPostSort,
    GpuPostSort,
    GpuPreproject,
}

/// Where the splat order of a frame was produced.
#[derive(Debug, Clone, Copy, PartialEq, Eq, Structural)]
pub enum OrderLane {
    Cpu,
    Gpu,
}

} // verus!
