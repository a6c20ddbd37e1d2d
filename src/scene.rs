use vstd::prelude::*;
use crate::channel::Channel;

verus! {

/// A decoded mesh waiting for its final binding on the render thread. It can
/// be finalized once only: `finalize` consumes it.
pub struct PendingMesh<M> {
    staged: M,
}

impl<M> PendingMesh<M> {
    /// The mesh data that finalization hands over.
    pub closed spec fn staged(self) -> M {
        self.staged
    }

    /// Wraps a mesh that the upload worker decoded.
    pub fn new(staged: M) -> (r: Self)
        ensures
            r.staged() == staged,
    {
        PendingMesh { staged }
    }

    /// Hands the staged mesh over for binding; the pending value is used up.
    pub fn finalize(self) -> (r: M)
        ensures
            r == self.staged(),
    {
        self.staged
    }
}

/// A completion event sent from the upload worker to the render thread.
pub enum UploadResult<M> {
    /// A texture, fully uploaded, named by its GPU handle.
    TextureReady(u32),
    /// A mesh to finalize on the render thread.
    MeshReady(PendingMesh<M>),
}

/// A position in world space, in whole units.
#[derive(Clone, Copy, Debug, PartialEq, Eq, Structural)]
pub struct WorldOffset {
    pub x: i64,
    pub y: i64,
    pub z: i64,
}

/// Where the mesh that arrives when `n` meshes are already placed goes: five
/// units further along x for each, starting at (-5, 0, -5).
pub open spec fn slot_offset(n: nat) -> WorldOffset {
    WorldOffset { x: (5 * n - 5) as i64, y: 0, z: -5i64 }
}

/// Meshes fit in a scene while their offsets fit in `i64`.
pub open spec fn slot_fits(n: nat) -> bool {
    5 * n - 5 <= i64::MAX
}

/// A finalized mesh and where it stands.
pub struct PlacedMesh<M> {
    pub mesh: M,
    pub offset: WorldOffset,
}

/// What the render thread owns of the uploaded resources: the textures
/// received, in order, and the drawable meshes, each at the slot its arrival
/// order gives.
pub struct Scene<M> {
    textures: Vec<u32>,
    meshes: Vec<PlacedMesh<M>>,
}

/// The texture handles that `rs` carries, in order.
pub open spec fn texture_handles<M>(rs: Seq<UploadResult<M>>) -> Seq<u32>
    decreases rs.len(),
{
    if rs.len() == 0 {
        Seq::empty()
    } else {
        let prev = texture_handles(rs.drop_last());
        match rs.last() {
            UploadResult::TextureReady(h) => prev.push(h),
            UploadResult::MeshReady(_) => prev,
        }
    }
}

/// The staged meshes that `rs` carries, in order.
pub open spec fn staged_meshes<M>(rs: Seq<UploadResult<M>>) -> Seq<M>
    decreases rs.len(),
{
    if rs.len() == 0 {
        Seq::empty()
    } else {
        let prev = staged_meshes(rs.drop_last());
        match rs.last() {
            UploadResult::TextureReady(_) => prev,
            UploadResult::MeshReady(p) => prev.push(p.staged()),
        }
    }
}

/// The meshes `staged`, placed in order from slot `first` on.
pub open spec fn placed_from<M>(staged: Seq<M>, first: nat) -> Seq<PlacedMesh<M>> {
    Seq::new(staged.len(), |j: int| PlacedMesh { mesh: staged[j], offset: slot_offset(first + j as nat) })
}

proof fn lemma_staged_len<M>(rs: Seq<UploadResult<M>>)
    ensures
        staged_meshes(rs).len() <= rs.len(),
    decreases rs.len(),
{
    if rs.len() > 0 {
        lemma_staged_len(rs.drop_last());
    }
}

impl<M> Scene<M> {
    /// The texture handles received, oldest first.
    pub closed spec fn texture_list(self) -> Seq<u32> {
        self.textures@
    }

    /// The meshes placed, oldest first.
    pub closed spec fn mesh_list(self) -> Seq<PlacedMesh<M>> {
        self.meshes@
    }

    /// Each mesh stands at the slot of its position in arrival order.
    pub open spec fn wf(self) -> bool {
        forall|i: int| 0 <= i < self.mesh_list().len() ==> (#[trigger] self.mesh_list()[i]).offset == slot_offset(i as nat)
    }

    /// A scene with nothing uploaded yet.
    pub fn new() -> (r: Self)
        ensures
            r.wf(),
            r.texture_list() == Seq::<u32>::empty(),
            r.mesh_list() == Seq::<PlacedMesh<M>>::empty(),
    {
        Scene { textures: Vec::new(), meshes: Vec::new() }
    }

    /// The number of textures received.
    pub fn texture_count(&self) -> (r: usize)
        ensures
            r == self.texture_list().len(),
    {
        self.textures.len()
    }

    /// The number of meshes placed.
    pub fn mesh_count(&self) -> (r: usize)
        ensures
            r == self.mesh_list().len(),
    {
        self.meshes.len()
    }

    /// The texture handles received, oldest first.
    pub fn textures(&self) -> (r: &Vec<u32>)
        ensures
            r@ == self.texture_list(),
    {
        &self.textures
    }

    /// The placed meshes, oldest first.
    pub fn meshes(&self) -> (r: &Vec<PlacedMesh<M>>)
        ensures
            r@ == self.mesh_list(),
    {
        &self.meshes
    }

    /// The slot that the next mesh will take.
    pub fn next_offset(&self) -> (r: WorldOffset)
        requires
            slot_fits(self.mesh_list().len()),
        ensures
            r == slot_offset(self.mesh_list().len()),
    {
        let n = self.meshes.len() as i64;
        WorldOffset { x: 5 * (n - 1), y: 0, z: -5 }
    }

    /// Registers a texture that arrived.
    pub fn add_texture(&mut self, handle: u32)
        requires
            old(self).wf(),
        ensures
            final(self).wf(),
            final(self).texture_list() == old(self).texture_list().push(handle),
            final(self).mesh_list() == old(self).mesh_list(),
    {
        self.textures.push(handle);
        assert(self.mesh_list() == old(self).mesh_list());
    }

    /// Adds a finalized mesh to the drawable set at the next slot, and returns
    /// that slot.
    pub fn place_mesh(&mut self, mesh: M) -> (r: WorldOffset)
        requires
            old(self).wf(),
            slot_fits(old(self).mesh_list().len()),
        ensures
            final(self).wf(),
            r == slot_offset(old(self).mesh_list().len()),
            final(self).mesh_list() == old(self).mesh_list().push(PlacedMesh { mesh, offset: r }),
            final(self).texture_list() == old(self).texture_list(),
    {
        let offset = self.next_offset();
        self.meshes.push(PlacedMesh { mesh, offset });
        offset
    }

    /// Takes one completion in: a texture is registered, a mesh is finalized
    /// and then placed.
    pub fn integrate(&mut self, result: UploadResult<M>)
        requires
            old(self).wf(),
            slot_fits(old(self).mesh_list().len()),
        ensures
            final(self).wf(),
            match result {
                UploadResult::TextureReady(h) => {
                    &&& final(self).texture_list() == old(self).texture_list().push(h)
                    &&& final(self).mesh_list() == old(self).mesh_list()
                },
                UploadResult::MeshReady(p) => {
                    &&& final(self).texture_list() == old(self).texture_list()
                    &&& final(self).mesh_list() == old(self).mesh_list().push(
                        PlacedMesh { mesh: p.staged(), offset: slot_offset(old(self).mesh_list().len()) },
                    )
                },
            },
    {
        match result {
            UploadResult::TextureReady(h) => self.add_texture(h),
            UploadResult::MeshReady(p) => {
                let mesh = p.finalize();
                self.place_mesh(mesh);
            },
        }
    }
    /// Drains every completion buffered in `completions`, in order, and
    /// integrates each: textures are registered, meshes are finalized and
    /// placed at the next slots.
    pub fn integrate_all(&mut self, completions: &mut Channel<UploadResult<M>>)
        requires
            old(self).wf(),
            slot_fits(old(self).mesh_list().len() + old(completions)@.len()),
        ensures
            final(self).wf(),
            final(completions)@ == Seq::<UploadResult<M>>::empty(),
            final(self).texture_list() == old(self).texture_list() + texture_handles(old(completions)@),
            final(self).mesh_list() == old(self).mesh_list() + placed_from(
                staged_meshes(old(completions)@),
                old(self).mesh_list().len(),
            ),
    {
        let ghost q0 = completions@;
        let ghost tl0 = self.texture_list();
        let ghost ml0 = self.mesh_list();
        proof {
            assert(q0.take(0) =~= Seq::<UploadResult<M>>::empty());
            assert(q0.skip(0) =~= q0);
            assert(tl0 + texture_handles(q0.take(0)) =~= tl0);
            assert(ml0 + placed_from(staged_meshes(q0.take(0)), ml0.len()) =~= ml0);
        }
        let mut going = true;
        while going
            invariant
                self.wf(),
                completions@.len() <= q0.len(),
                completions@ == q0.skip(q0.len() - completions@.len()),
                slot_fits(ml0.len() + q0.len()),
                self.texture_list() == tl0 + texture_handles(q0.take(q0.len() - completions@.len())),
                self.mesh_list() == ml0 + placed_from(
                    staged_meshes(q0.take(q0.len() - completions@.len())),
                    ml0.len(),
                ),
                !going ==> completions@.len() == 0,
            decreases completions@.len() + if going { 1int } else { 0int },
        {
            let ghost before = completions@;
            let ghost k = q0.len() - completions@.len();
            match completions.try_receive() {
                None => {
                    going = false;
                },
                Some(r) => {
                    let ghost prefix = q0.take(k);
                    proof {
                        assert(q0.take(k + 1).drop_last() =~= prefix);
                        assert(q0.take(k + 1).last() == r);
                        assert(q0.skip(k + 1) =~= before.drop_first());
                        lemma_staged_len(prefix);
                    }
                    self.integrate(r);
                    proof {
                        let staged = staged_meshes(q0.take(k + 1));
                        assert(self.texture_list() =~= tl0 + texture_handles(q0.take(k + 1)));
                        assert(self.mesh_list() =~= ml0 + placed_from(staged, ml0.len()));
                    }
                },
            }
        }
        proof {
            assert(q0.take(q0.len() as int) =~= q0);
            assert(completions@ =~= Seq::<UploadResult<M>>::empty());
        }
    }
}

} // verus!
