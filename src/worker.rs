use vstd::prelude::*;
use crate::batch::{count_of, drain_len, lemma_count_push, Batch};
use crate::channel::Channel;
use crate::message::Message;
use crate::plan::{barrier_before_publish, cycle_plan, green_at, lemma_barrier_before_publish, GpuCommand, GREEN_STEP};

verus! {

/// Texture requests served in one flush cycle, unless configured otherwise.
pub const MAX_TEXTURES_PER_FLUSH: usize = 50;

/// Mesh requests served in one flush cycle, unless configured otherwise.
pub const MAX_MESHES_PER_FLUSH: usize = 10;

/// The upload worker's state between flush cycles.
pub struct UploadWorker {
    max_textures_per_flush: usize,
    max_meshes_per_flush: usize,
    current_green: u8,
    should_exit: bool,
}

impl UploadWorker {
    /// Both caps admit at least one request per cycle.
    pub closed spec fn wf(self) -> bool {
        self.max_textures_per_flush >= 1 && self.max_meshes_per_flush >= 1
    }

    pub closed spec fn texture_cap(self) -> nat {
        self.max_textures_per_flush as nat
    }

    pub closed spec fn mesh_cap(self) -> nat {
        self.max_meshes_per_flush as nat
    }

    /// The green channel of the next generated texture.
    pub closed spec fn green(self) -> u8 {
        self.current_green
    }

    /// Whether an exit request has been served.
    pub closed spec fn exiting(self) -> bool {
        self.should_exit
    }

    /// A worker with the default caps, before any cycle.
    pub fn new() -> (r: Self)
        ensures
            r.wf(),
            r.texture_cap() == MAX_TEXTURES_PER_FLUSH,
            r.mesh_cap() == MAX_MESHES_PER_FLUSH,
            r.green() == 0,
            !r.exiting(),
    {
        UploadWorker {
            max_textures_per_flush: MAX_TEXTURES_PER_FLUSH,
            max_meshes_per_flush: MAX_MESHES_PER_FLUSH,
            current_green: 0,
            should_exit: false,
        }
    }

    /// A worker with the given caps; `None` where a cap is zero, since such a
    /// worker would never serve that kind of request.
    pub fn with_caps(max_textures_per_flush: usize, max_meshes_per_flush: usize) -> (r: Option<Self>)
        ensures
            (max_textures_per_flush == 0 || max_meshes_per_flush == 0) <==> r is None,
            r matches Some(w) ==> {
                &&& w.wf()
                &&& w.texture_cap() == max_textures_per_flush
                &&& w.mesh_cap() == max_meshes_per_flush
                &&& w.green() == 0
                &&& !w.exiting()
            },
    {
        if max_textures_per_flush == 0 || max_meshes_per_flush == 0 {
            None
        } else {
            Some(
                UploadWorker {
                    max_textures_per_flush,
                    max_meshes_per_flush,
                    current_green: 0,
                    should_exit: false,
                },
            )
        }
    }

    /// Texture requests served per cycle at most.
    pub fn max_textures_per_flush(&self) -> (r: usize)
        ensures
            r == self.texture_cap(),
    {
        self.max_textures_per_flush
    }

    /// Mesh requests served per cycle at most.
    pub fn max_meshes_per_flush(&self) -> (r: usize)
        ensures
            r == self.mesh_cap(),
    {
        self.max_meshes_per_flush
    }

    /// Whether the worker has served an exit request and must stop polling.
    pub fn should_exit(&self) -> (r: bool)
        ensures
            r == self.exiting(),
    {
        self.should_exit
    }

    /// Adds one request taken from the channel to `batch`, and says whether the
    /// drain goes on: it stops right after the request that fills the cap of
    /// its kind. Each cap counts its own kind only.
    pub fn accept(&self, batch: &mut Batch, message: Message) -> (keep_draining: bool)
        requires
            self.wf(),
            old(batch).textures < self.texture_cap(),
            old(batch).meshes < self.mesh_cap(),
        ensures
            final(batch).textures == old(batch).textures + if message == Message::UploadTexture { 1nat } else { 0nat },
            final(batch).meshes == old(batch).meshes + if message == Message::UploadMesh { 1nat } else { 0nat },
            final(batch).exit == (old(batch).exit || message == Message::Exit),
            keep_draining == !(
                (message == Message::UploadTexture && final(batch).textures == self.texture_cap())
                || (message == Message::UploadMesh && final(batch).meshes == self.mesh_cap())),
    {
        match message {
            Message::UploadTexture => {
                batch.textures = batch.textures + 1;
                batch.textures < self.max_textures_per_flush
            },
            Message::UploadMesh => {
                batch.meshes = batch.meshes + 1;
                batch.meshes < self.max_meshes_per_flush
            },
            Message::Exit => {
                batch.exit = true;
                true
            },
        }
    }

    /// Takes requests from the front of `requests` until a cap is reached or
    /// nothing is buffered, and returns what was taken. Requests behind the
    /// point where the drain stopped stay in the channel for the next cycle.
    pub fn drain_cycle(&self, requests: &mut Channel<Message>) -> (batch: Batch)
        requires
            self.wf(),
        ensures
            ({
                let taken = drain_len(old(requests)@, self.texture_cap(), self.mesh_cap());
                &&& taken <= old(requests)@.len()
                &&& final(requests)@ == old(requests)@.skip(taken as int)
                &&& batch.counts(old(requests)@.take(taken as int))
            }),
            batch.textures <= self.texture_cap(),
            batch.meshes <= self.mesh_cap(),
    {
        let ghost q0 = requests@;
        let ghost tc = self.texture_cap();
        let ghost mc = self.mesh_cap();
        let mut batch = Batch::empty();
        let mut going = true;
        proof {
            assert(q0.take(0) =~= Seq::<Message>::empty());
            assert(q0.skip(0) =~= q0);
        }
        while going
            invariant
                self.wf(),
                tc == self.texture_cap(),
                mc == self.mesh_cap(),
                requests@.len() <= q0.len(),
                requests@ == q0.skip(q0.len() - requests@.len()),
                batch.counts(q0.take(q0.len() - requests@.len())),
                batch.textures <= tc,
                batch.meshes <= mc,
                going ==> batch.textures < tc && batch.meshes < mc && drain_len(q0, tc, mc) == (
                q0.len() - requests@.len()) + drain_len(
                    requests@,
                    (tc - batch.textures) as nat,
                    (mc - batch.meshes) as nat,
                ),
                !going ==> drain_len(q0, tc, mc) == q0.len() - requests@.len(),
            decreases requests@.len() + if going { 1int } else { 0int },
        {
            let ghost before = requests@;
            let ghost i = q0.len() - requests@.len();
            match requests.try_receive() {
                None => {
                    going = false;
                },
                Some(m) => {
                    proof {
                        assert(q0.take(i + 1) =~= q0.take(i).push(m));
                        assert(q0.skip(i + 1) =~= before.drop_first());
                        lemma_count_push(q0.take(i), m, Message::UploadTexture);
                        lemma_count_push(q0.take(i), m, Message::UploadMesh);
                        lemma_count_push(q0.take(i), m, Message::Exit);
                    }
                    going = self.accept(&mut batch, m);
                },
            }
        }
        batch
    }
    /// Lists the GPU work and hand-offs that serve `batch`: the textures in
    /// the order taken, each with the next green channel, then the meshes,
    /// then one barrier, then the results. Records an exit request so that the
    /// worker stops after this cycle.
    pub fn plan_cycle(&mut self, batch: &Batch) -> (plan: Vec<GpuCommand>)
        requires
            old(self).wf(),
            batch.textures <= old(self).texture_cap(),
            batch.meshes <= old(self).mesh_cap(),
        ensures
            plan@ == cycle_plan(batch.textures as nat, batch.meshes as nat, old(self).green()),
            barrier_before_publish(plan@),
            final(self).wf(),
            final(self).texture_cap() == old(self).texture_cap(),
            final(self).mesh_cap() == old(self).mesh_cap(),
            final(self).green() == green_at(old(self).green(), batch.textures as nat),
            final(self).exiting() == (old(self).exiting() || batch.exit),
    {
        let ghost g0 = self.current_green;
        let mut plan: Vec<GpuCommand> = Vec::new();
        if batch.has_work() {
            let mut i: usize = 0;
            while i < batch.textures
                invariant
                    i <= batch.textures,
                    self.current_green == green_at(g0, i as nat),
                    self.max_textures_per_flush == old(self).max_textures_per_flush,
                    self.max_meshes_per_flush == old(self).max_meshes_per_flush,
                    self.should_exit == old(self).should_exit,
                    plan@ =~= Seq::new(
                        i as nat,
                        |k: int| GpuCommand::CreateTexture { slot: k as usize, green: green_at(g0, k as nat) },
                    ),
                decreases batch.textures - i,
            {
                plan.push(GpuCommand::CreateTexture { slot: i, green: self.current_green });
                self.current_green = self.current_green.wrapping_add(GREEN_STEP);
                i = i + 1;
            }
            let ghost textures_done = plan@;
            let mut j: usize = 0;
            while j < batch.meshes
                invariant
                    j <= batch.meshes,
                    plan@ =~= textures_done + Seq::new(j as nat, |k: int| GpuCommand::StageMesh { slot: k as usize }),
                decreases batch.meshes - j,
            {
                plan.push(GpuCommand::StageMesh { slot: j });
                j = j + 1;
            }
            plan.push(GpuCommand::Finish);
            let ghost work_done = plan@;
            let mut i: usize = 0;
            while i < batch.textures
                invariant
                    i <= batch.textures,
                    plan@ =~= work_done + Seq::new(i as nat, |k: int| GpuCommand::PublishTexture { slot: k as usize }),
                decreases batch.textures - i,
            {
                plan.push(GpuCommand::PublishTexture { slot: i });
                i = i + 1;
            }
            let ghost textures_out = plan@;
            let mut j: usize = 0;
            while j < batch.meshes
                invariant
                    j <= batch.meshes,
                    plan@ =~= textures_out + Seq::new(j as nat, |k: int| GpuCommand::PublishMesh { slot: k as usize }),
                decreases batch.meshes - j,
            {
                plan.push(GpuCommand::PublishMesh { slot: j });
                j = j + 1;
            }
        }
        if batch.exit {
            self.should_exit = true;
        }
        proof {
            assert(plan@ =~= cycle_plan(batch.textures as nat, batch.meshes as nat, g0));
            lemma_barrier_before_publish(batch.textures as nat, batch.meshes as nat, g0);
        }
        plan
    }
    /// One flush cycle: drains the request channel up to the caps and plans
    /// the GPU work, the barrier and the hand-off of every result taken.
    pub fn run_cycle(&mut self, requests: &mut Channel<Message>) -> (plan: Vec<GpuCommand>)
        requires
            old(self).wf(),
        ensures
            ({
                let d = drain_len(old(requests)@, old(self).texture_cap(), old(self).mesh_cap());
                let taken = old(requests)@.take(d as int);
                let textures = count_of(taken, Message::UploadTexture);
                &&& d <= old(requests)@.len()
                &&& final(requests)@ == old(requests)@.skip(d as int)
                &&& plan@ == cycle_plan(textures, count_of(taken, Message::UploadMesh), old(self).green())
                &&& barrier_before_publish(plan@)
                &&& final(self).green() == green_at(old(self).green(), textures)
                &&& final(self).exiting() == (old(self).exiting() || count_of(taken, Message::Exit) > 0)
            }),
            final(self).wf(),
            final(self).texture_cap() == old(self).texture_cap(),
            final(self).mesh_cap() == old(self).mesh_cap(),
    {
        let batch = self.drain_cycle(requests);
        self.plan_cycle(&batch)
    }
}

} // verus!
