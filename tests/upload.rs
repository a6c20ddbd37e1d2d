use async_upload::batch::Batch;
use async_upload::channel::Channel;
use async_upload::message::Message;
use async_upload::plan::{GpuCommand, GREEN_STEP, MESH_SOURCE, TEXTURE_MIP_LEVELS, TEXTURE_SIZE};
use async_upload::scene::{PendingMesh, Scene, UploadResult, WorldOffset};
use async_upload::texture::texture_pixels;
use async_upload::worker::{UploadWorker, MAX_MESHES_PER_FLUSH, MAX_TEXTURES_PER_FLUSH};

/// A stand-in for the GPU: it runs a cycle's plan, hands out texture names in
/// creation order, records every call, and publishes results to `out`.
struct MockGpu {
    next_name: u32,
    calls: Vec<String>,
}

impl MockGpu {
    fn new() -> Self {
        MockGpu { next_name: 1, calls: vec![] }
    }

    fn execute(&mut self, plan: &[GpuCommand], out: &mut Channel<UploadResult<String>>) {
        let mut names: Vec<u32> = vec![];
        let mut staged: Vec<Option<String>> = vec![];
        for cmd in plan {
            match *cmd {
                GpuCommand::CreateTexture { slot, green } => {
                    assert_eq!(slot, names.len());
                    names.push(self.next_name);
                    self.next_name += 1;
                    self.calls.push(format!("texture {} green {}", slot, green));
                }
                GpuCommand::StageMesh { slot } => {
                    assert_eq!(slot, staged.len());
                    staged.push(Some(format!("{} #{}", MESH_SOURCE, slot)));
                    self.calls.push(format!("mesh {}", slot));
                }
                GpuCommand::Finish => self.calls.push("finish".to_string()),
                GpuCommand::PublishTexture { slot } => {
                    self.calls.push(format!("publish texture {}", slot));
                    out.send(UploadResult::TextureReady(names[slot]));
                }
                GpuCommand::PublishMesh { slot } => {
                    self.calls.push(format!("publish mesh {}", slot));
                    let mesh = staged[slot].take().unwrap();
                    out.send(UploadResult::MeshReady(PendingMesh::new(mesh)));
                }
            }
        }
    }
}

fn count_textures(plan: &[GpuCommand]) -> usize {
    plan.iter().filter(|c| matches!(c, GpuCommand::PublishTexture { .. })).count()
}

fn count_meshes(plan: &[GpuCommand]) -> usize {
    plan.iter().filter(|c| matches!(c, GpuCommand::PublishMesh { .. })).count()
}

#[test]
fn channel_is_fifo() {
    let mut ch: Channel<u32> = Channel::new();
    assert!(ch.is_empty());
    assert_eq!(ch.try_receive(), None);
    ch.send(1);
    ch.send(2);
    ch.send(3);
    assert_eq!(ch.len(), 3);
    assert_eq!(ch.try_receive(), Some(1));
    assert_eq!(ch.try_receive_all(), vec![2, 3]);
    assert!(ch.is_empty());
    assert_eq!(ch.try_receive_all(), Vec::<u32>::new());
}

#[test]
fn default_caps() {
    let w = UploadWorker::new();
    assert_eq!(w.max_textures_per_flush(), MAX_TEXTURES_PER_FLUSH);
    assert_eq!(w.max_meshes_per_flush(), MAX_MESHES_PER_FLUSH);
    assert_eq!(MAX_TEXTURES_PER_FLUSH, 50);
    assert_eq!(MAX_MESHES_PER_FLUSH, 10);
    assert!(!w.should_exit());
}

#[test]
fn zero_cap_is_refused() {
    assert!(UploadWorker::with_caps(0, 3).is_none());
    assert!(UploadWorker::with_caps(3, 0).is_none());
    let w = UploadWorker::with_caps(2, 3).unwrap();
    assert_eq!(w.max_textures_per_flush(), 2);
    assert_eq!(w.max_meshes_per_flush(), 3);
}

#[test]
fn accept_stops_at_cap() {
    let w = UploadWorker::with_caps(2, 1).unwrap();
    let mut b = Batch::empty();
    assert!(w.accept(&mut b, Message::UploadTexture));
    assert!(w.accept(&mut b, Message::Exit));
    assert!(b.exit);
    assert!(!w.accept(&mut b, Message::UploadTexture));
    assert_eq!(b, Batch { textures: 2, meshes: 0, exit: true });
    let mut m = Batch::empty();
    assert!(!w.accept(&mut m, Message::UploadMesh));
    assert_eq!(m.meshes, 1);
}

#[test]
fn texture_batches_are_capped_and_complete() {
    let mut w = UploadWorker::new();
    let mut requests = Channel::new();
    for _ in 0..120 {
        requests.send(Message::UploadTexture);
    }
    let mut per_cycle = vec![];
    while !requests.is_empty() {
        let plan = w.run_cycle(&mut requests);
        per_cycle.push(count_textures(&plan));
    }
    assert_eq!(per_cycle, vec![50, 50, 20]);
    assert_eq!(per_cycle.iter().sum::<usize>(), 120);
    let plan = w.run_cycle(&mut requests);
    assert!(plan.is_empty());
}

#[test]
fn texture_handles_are_served_once_each() {
    let mut w = UploadWorker::with_caps(3, 2).unwrap();
    let mut requests = Channel::new();
    let mut completions = Channel::new();
    let mut gpu = MockGpu::new();
    for _ in 0..7 {
        requests.send(Message::UploadTexture);
    }
    let mut seen = vec![];
    for expected in [3usize, 3, 1] {
        let plan = w.run_cycle(&mut requests);
        gpu.execute(&plan, &mut completions);
        let got = completions.try_receive_all();
        assert_eq!(got.len(), expected);
        for r in got {
            match r {
                UploadResult::TextureReady(h) => seen.push(h),
                UploadResult::MeshReady(_) => panic!("no mesh was requested"),
            }
        }
    }
    assert_eq!(seen, vec![1, 2, 3, 4, 5, 6, 7]);
}

#[test]
fn caps_are_independent() {
    let mut w = UploadWorker::with_caps(2, 5).unwrap();
    let mut requests = Channel::new();
    for m in [
        Message::UploadMesh,
        Message::UploadTexture,
        Message::UploadMesh,
        Message::UploadTexture,
        Message::UploadMesh,
        Message::UploadTexture,
    ] {
        requests.send(m);
    }
    let batch = w.drain_cycle(&mut requests);
    assert_eq!(batch, Batch { textures: 2, meshes: 2, exit: false });
    assert_eq!(requests.try_receive_all(), vec![Message::UploadMesh, Message::UploadTexture]);

    let mut w = UploadWorker::with_caps(5, 1).unwrap();
    for m in [Message::UploadTexture, Message::UploadTexture, Message::UploadMesh, Message::UploadTexture] {
        requests.send(m);
    }
    let plan = w.run_cycle(&mut requests);
    assert_eq!(count_textures(&plan), 2);
    assert_eq!(count_meshes(&plan), 1);
    assert_eq!(requests.len(), 1);
}

#[test]
fn barrier_comes_before_every_publish() {
    let mut w = UploadWorker::new();
    let mut requests = Channel::new();
    let mut completions = Channel::new();
    let mut gpu = MockGpu::new();
    for m in [Message::UploadTexture, Message::UploadMesh, Message::UploadTexture] {
        requests.send(m);
    }
    let plan = w.run_cycle(&mut requests);
    gpu.execute(&plan, &mut completions);
    assert_eq!(
        gpu.calls,
        vec![
            "texture 0 green 0",
            "texture 1 green 10",
            "mesh 0",
            "finish",
            "publish texture 0",
            "publish texture 1",
            "publish mesh 0",
        ]
    );
    assert_eq!(completions.len(), 3);
}

#[test]
fn idle_cycle_issues_no_barrier() {
    let mut w = UploadWorker::new();
    let mut requests = Channel::new();
    assert!(w.run_cycle(&mut requests).is_empty());
    requests.send(Message::Exit);
    let plan = w.run_cycle(&mut requests);
    assert!(plan.is_empty());
    assert!(w.should_exit());
}

#[test]
fn exit_drains_then_terminates() {
    let mut w = UploadWorker::new();
    let mut requests = Channel::new();
    let mut completions = Channel::new();
    let mut gpu = MockGpu::new();
    requests.send(Message::UploadMesh);
    requests.send(Message::UploadMesh);
    requests.send(Message::Exit);
    let mut cycles = 0;
    loop {
        let plan = w.run_cycle(&mut requests);
        gpu.execute(&plan, &mut completions);
        cycles += 1;
        if w.should_exit() {
            break;
        }
    }
    assert_eq!(cycles, 1);
    let got = completions.try_receive_all();
    assert_eq!(got.len(), 2);
    assert!(got.iter().all(|r| matches!(r, UploadResult::MeshReady(_))));
}

#[test]
fn finalize_hands_over_the_mesh_once() {
    let pending = PendingMesh::new(String::from("fox"));
    let mesh = pending.finalize();
    assert_eq!(mesh, "fox");
}

#[test]
fn green_channel_wraps() {
    let mut w = UploadWorker::new();
    let mut requests = Channel::new();
    for _ in 0..27 {
        requests.send(Message::UploadTexture);
    }
    let plan = w.run_cycle(&mut requests);
    assert_eq!(plan[25], GpuCommand::CreateTexture { slot: 25, green: 250 });
    assert_eq!(plan[26], GpuCommand::CreateTexture { slot: 26, green: 4 });
    assert_eq!(GREEN_STEP, 10);
    assert_eq!(TEXTURE_SIZE, 1024);
    assert_eq!(TEXTURE_MIP_LEVELS, 10);
}

#[test]
fn end_to_end_textures_then_mesh() {
    let mut w = UploadWorker::new();
    let mut requests = Channel::new();
    let mut completions = Channel::new();
    let mut gpu = MockGpu::new();
    let mut scene: Scene<String> = Scene::new();
    for _ in 0..10 {
        requests.send(Message::UploadTexture);
    }
    let plan = w.run_cycle(&mut requests);
    gpu.execute(&plan, &mut completions);
    assert_eq!(completions.len(), 10);
    scene.integrate_all(&mut completions);
    let mut handles = scene.textures().clone();
    assert_eq!(handles.len(), 10);
    handles.sort();
    handles.dedup();
    assert_eq!(handles.len(), 10);

    requests.send(Message::UploadMesh);
    let plan = w.run_cycle(&mut requests);
    gpu.execute(&plan, &mut completions);
    assert_eq!(completions.len(), 1);
    scene.integrate_all(&mut completions);
    assert_eq!(scene.mesh_count(), 1);
    assert_eq!(scene.meshes()[0].offset, WorldOffset { x: -5, y: 0, z: -5 });
    assert_eq!(scene.meshes()[0].mesh, format!("{} #0", MESH_SOURCE));
}

#[test]
fn meshes_take_successive_slots() {
    let mut scene: Scene<u8> = Scene::new();
    assert_eq!(scene.next_offset(), WorldOffset { x: -5, y: 0, z: -5 });
    assert_eq!(scene.place_mesh(7), WorldOffset { x: -5, y: 0, z: -5 });
    scene.integrate(UploadResult::TextureReady(42));
    scene.integrate(UploadResult::MeshReady(PendingMesh::new(8)));
    assert_eq!(scene.meshes()[1].offset, WorldOffset { x: 0, y: 0, z: -5 });
    assert_eq!(scene.meshes()[1].mesh, 8);
    assert_eq!(scene.place_mesh(9), WorldOffset { x: 5, y: 0, z: -5 });
    assert_eq!(scene.textures(), &vec![42]);
    assert_eq!(scene.texture_count(), 1);
}

#[test]
fn texture_pixels_are_generated() {
    let px = texture_pixels(37);
    assert_eq!(px.len(), 4 * 1024 * 1024);
    assert_eq!(&px[0..8], &[255, 37, 255, 255, 255, 37, 255, 255]);
    assert!(px.chunks(4).all(|c| c == [255, 37, 255, 255]));
    assert_eq!(texture_pixels(0)[1], 0);
}
