use vstd::prelude::*;

verus! {

/// Side length, in texels, of every generated texture.
pub const TEXTURE_SIZE: u32 = 1024;

/// Mip levels allocated for every generated texture.
pub const TEXTURE_MIP_LEVELS: u32 = 10;

/// How much the green channel advances, modulo 256, from one generated
/// texture to the next.
pub const GREEN_STEP: u8 = 10;

/// The mesh asset that every mesh request decodes.
pub const MESH_SOURCE: &'static str = "resources/models/Fox.glb";

/// The uniform scale given to every decoded mesh, in hundredths.
pub const MESH_SCALE_PERCENT: u32 = 10;

/// One step of GPU work or hand-off that the upload worker performs, in the
/// order that a cycle's plan lists them.
#[derive(Clone, Copy, Debug, PartialEq, Eq, Structural)]
pub enum GpuCommand {
    /// Create a `TEXTURE_SIZE` square RGBA8 texture with `TEXTURE_MIP_LEVELS`
    /// levels for result `slot`, fill it with the colour (255, `green`, 255,
    /// 255), upload it, generate its mipmaps and flush.
    CreateTexture { slot: usize, green: u8 },
    /// Decode `MESH_SOURCE` for result `slot`, scale it by
    /// `MESH_SCALE_PERCENT`, flush, and keep it for finalization on the render
    /// thread.
    StageMesh { slot: usize },
    /// Block until the GPU has executed every command recorded so far.
    Finish,
    /// Send the texture of result `slot` to the completion channel.
    PublishTexture { slot: usize },
    /// Send the staged mesh of result `slot` to the completion channel.
    PublishMesh { slot: usize },
}

impl GpuCommand {
    /// Whether the command records GPU work.
    pub open spec fn is_work(self) -> bool {
        self is CreateTexture || self is StageMesh
    }

    /// Whether the command makes a result observable to the render thread.
    pub open spec fn is_publish(self) -> bool {
        self is PublishTexture || self is PublishMesh
    }
}

/// The green channel of the texture generated `i` textures after one with
/// green channel `g`.
pub open spec fn green_at(g: u8, i: nat) -> u8 {
    ((g + GREEN_STEP * i) % 256) as u8
}

/// The plan of a cycle that serves `textures` texture requests and `meshes`
/// mesh requests, the first texture having green channel `green`: all texture
/// work, then all mesh work, then one barrier, then the results in the order
/// their work was recorded. A cycle with nothing to serve does nothing.
pub open spec fn cycle_plan(textures: nat, meshes: nat, green: u8) -> Seq<GpuCommand> {
    if textures + meshes == 0 {
        Seq::empty()
    } else {
        Seq::new(textures, |i: int| GpuCommand::CreateTexture { slot: i as usize, green: green_at(green, i as nat) })
            + Seq::new(meshes, |j: int| GpuCommand::StageMesh { slot: j as usize })
            + seq![GpuCommand::Finish]
            + Seq::new(textures, |i: int| GpuCommand::PublishTexture { slot: i as usize })
            + Seq::new(meshes, |j: int| GpuCommand::PublishMesh { slot: j as usize })
    }
}

/// Every result that `plan` makes observable comes after a barrier that
/// itself comes after all the GPU work of the plan.
pub open spec fn barrier_before_publish(plan: Seq<GpuCommand>) -> bool {
    forall|i: int|
        0 <= i < plan.len() && (#[trigger] plan[i]).is_publish() ==> exists|k: int|
            0 <= k < i && plan[k] is Finish && forall|j: int|
                0 <= j < plan.len() && (#[trigger] plan[j]).is_work() ==> j < k
}

/// A cycle never publishes a result before the GPU work that produced it, and
/// all other work of the cycle, has passed a synchronization barrier; and the
/// barrier is issued only in a cycle that produces results.
pub proof fn lemma_barrier_before_publish(textures: nat, meshes: nat, green: u8)
    ensures
        barrier_before_publish(cycle_plan(textures, meshes, green)),
        (exists|k: int|
            0 <= k < cycle_plan(textures, meshes, green).len()
                && cycle_plan(textures, meshes, green)[k] is Finish) <==> textures + meshes > 0,
{
    let plan = cycle_plan(textures, meshes, green);
    if textures + meshes > 0 {
        let k = (textures + meshes) as int;
        assert(plan[k] is Finish);
        assert forall|i: int| 0 <= i < plan.len() && (#[trigger] plan[i]).is_publish() implies exists|k2: int|
            0 <= k2 < i && plan[k2] is Finish && forall|j: int|
                0 <= j < plan.len() && (#[trigger] plan[j]).is_work() ==> j < k2 by {
            assert(i > k);
            assert forall|j: int| 0 <= j < plan.len() && (#[trigger] plan[j]).is_work() implies j < k by {}
        }
    }
}

} // verus!
