use vstd::prelude::*;
use crate::message::Message;

verus! {

/// How many requests of kind `kind` stand in `s`.
pub open spec fn count_of(s: Seq<Message>, kind: Message) -> nat
    decreases s.len(),
{
    if s.len() == 0 {
        0
    } else {
        count_of(s.drop_last(), kind) + if s.last() == kind { 1nat } else { 0nat }
    }
}

/// How many requests one drain takes from the front of `q`, when the batch
/// still has room for `tex_room` textures and `mesh_room` meshes: the drain
/// stops right after the request that fills either room, or when `q` runs out.
pub open spec fn drain_len(q: Seq<Message>, tex_room: nat, mesh_room: nat) -> nat
    decreases q.len(),
{
    if q.len() == 0 {
        0
    } else {
        match q[0] {
            Message::UploadTexture => if tex_room <= 1 {
                1
            } else {
                1 + drain_len(q.drop_first(), (tex_room - 1) as nat, mesh_room)
            },
            Message::UploadMesh => if mesh_room <= 1 {
                1
            } else {
                1 + drain_len(q.drop_first(), tex_room, (mesh_room - 1) as nat)
            },
            Message::Exit => 1 + drain_len(q.drop_first(), tex_room, mesh_room),
        }
    }
}

/// What one flush cycle took from the request channel.
#[derive(Clone, Copy, Debug, PartialEq, Eq, Structural)]
pub struct Batch {
    /// Texture requests taken.
    pub textures: usize,
    /// Mesh requests taken.
    pub meshes: usize,
    /// Whether an exit request was taken.
    pub exit: bool,
}

impl Batch {
    /// The counts that the requests `s` make.
    pub open spec fn counts(self, s: Seq<Message>) -> bool {
        &&& self.textures == count_of(s, Message::UploadTexture)
        &&& self.meshes == count_of(s, Message::UploadMesh)
        &&& self.exit == (count_of(s, Message::Exit) > 0)
    }

    /// A batch that has taken nothing.
    pub fn empty() -> (r: Batch)
        ensures
            r.counts(Seq::<Message>::empty()),
    {
        Batch { textures: 0, meshes: 0, exit: false }
    }

    /// Whether the batch produces any result.
    pub fn has_work(&self) -> (r: bool)
        ensures
            r == (self.textures + self.meshes > 0),
    {
        self.textures > 0 || self.meshes > 0
    }
}

/// Counting after one more request.
pub proof fn lemma_count_push(s: Seq<Message>, m: Message, kind: Message)
    ensures
        count_of(s.push(m), kind) == count_of(s, kind) + if m == kind { 1nat } else { 0nat },
{
    assert(s.push(m).drop_last() =~= s);
}

/// Counting distributes over concatenation.
pub proof fn lemma_count_concat(a: Seq<Message>, b: Seq<Message>, kind: Message)
    ensures
        count_of(a + b, kind) == count_of(a, kind) + count_of(b, kind),
    decreases b.len(),
{
    if b.len() == 0 {
        assert(a + b =~= a);
    } else {
        assert((a + b).drop_last() =~= a + b.drop_last());
        lemma_count_concat(a, b.drop_last(), kind);
    }
}

/// Counting a sequence split at `k`.
pub proof fn lemma_count_split(q: Seq<Message>, k: int, kind: Message)
    requires
        0 <= k <= q.len(),
    ensures
        count_of(q, kind) == count_of(q.take(k), kind) + count_of(q.skip(k), kind),
{
    assert(q =~= q.take(k) + q.skip(k));
    lemma_count_concat(q.take(k), q.skip(k), kind);
}

/// Where one drain stops: it takes at least one request when any is
/// buffered, never more than the caps allow of either kind, and stops early
/// only right after filling a cap.
pub proof fn lemma_drain_stop(q: Seq<Message>, tex_room: nat, mesh_room: nat)
    requires
        tex_room >= 1,
        mesh_room >= 1,
    ensures
        ({
            let d = drain_len(q, tex_room, mesh_room);
            let taken = q.take(d as int);
            &&& d <= q.len()
            &&& q.len() > 0 ==> d >= 1
            &&& count_of(taken, Message::UploadTexture) <= tex_room
            &&& count_of(taken, Message::UploadMesh) <= mesh_room
            &&& (d == q.len() || count_of(taken, Message::UploadTexture) == tex_room
                || count_of(taken, Message::UploadMesh) == mesh_room)
        }),
    decreases q.len(),
{
    if q.len() > 0 {
        let m = q[0];
        let rest = q.drop_first();
        let d = drain_len(q, tex_room, mesh_room);
        let t2: nat = if m == Message::UploadTexture { (tex_room - 1) as nat } else { tex_room };
        let m2: nat = if m == Message::UploadMesh { (mesh_room - 1) as nat } else { mesh_room };
        if d > 1 {
            assert(t2 >= 1 && m2 >= 1);
            assert(d == 1 + drain_len(rest, t2, m2));
            lemma_drain_stop(rest, t2, m2);
            assert(q.take(d as int).drop_first() =~= rest.take(d - 1));
        }
        assert(1 <= d <= q.len());
        assert(q.take(d as int) =~= seq![m] + q.take(d as int).drop_first());
        reveal_with_fuel(count_of, 2);
        assert(seq![m].drop_last() =~= Seq::<Message>::empty());
        lemma_count_concat(seq![m], q.take(d as int).drop_first(), Message::UploadTexture);
        lemma_count_concat(seq![m], q.take(d as int).drop_first(), Message::UploadMesh);
        if d == 1 {
            assert(q.take(d as int).drop_first() =~= Seq::<Message>::empty());
        }
    }
}

/// The requests still buffered after `n` cycles drain `q`, with no request
/// sent meanwhile.
pub open spec fn left_after(q: Seq<Message>, tex_cap: nat, mesh_cap: nat, n: nat) -> Seq<Message>
    decreases n,
{
    if n == 0 {
        q
    } else {
        left_after(q.skip(drain_len(q, tex_cap, mesh_cap) as int), tex_cap, mesh_cap, (n - 1) as nat)
    }
}

/// How many requests of `kind` those `n` cycles serve.
pub open spec fn served_over(q: Seq<Message>, tex_cap: nat, mesh_cap: nat, n: nat, kind: Message) -> nat
    decreases n,
{
    if n == 0 {
        0
    } else {
        let d = drain_len(q, tex_cap, mesh_cap) as int;
        count_of(q.take(d), kind) + served_over(q.skip(d), tex_cap, mesh_cap, (n - 1) as nat, kind)
    }
}

proof fn lemma_cycles_conserve(q: Seq<Message>, tex_cap: nat, mesh_cap: nat, n: nat, kind: Message)
    requires
        tex_cap >= 1,
        mesh_cap >= 1,
    ensures
        served_over(q, tex_cap, mesh_cap, n, kind) + count_of(left_after(q, tex_cap, mesh_cap, n), kind)
            == count_of(q, kind),
        left_after(q, tex_cap, mesh_cap, n).len() == 0 || left_after(q, tex_cap, mesh_cap, n).len() + n
            <= q.len(),
    decreases n,
{
    if n > 0 {
        let d = drain_len(q, tex_cap, mesh_cap);
        lemma_drain_stop(q, tex_cap, mesh_cap);
        lemma_count_split(q, d as int, kind);
        lemma_cycles_conserve(q.skip(d as int), tex_cap, mesh_cap, (n - 1) as nat, kind);
    }
}

/// Caps bound each cycle, and nothing is lost or served twice: every cycle
/// serves at most `tex_cap` texture and `mesh_cap` mesh requests, and as many
/// cycles as there are requests serve, of each kind, exactly the requests of
/// that kind that were sent, leaving the channel empty.
pub proof fn lemma_batch_cap(q: Seq<Message>, tex_cap: nat, mesh_cap: nat, kind: Message)
    requires
        tex_cap >= 1,
        mesh_cap >= 1,
    ensures
        forall|n: nat|
            {
                let r = #[trigger] left_after(q, tex_cap, mesh_cap, n);
                let taken = r.take(drain_len(r, tex_cap, mesh_cap) as int);
                &&& count_of(taken, Message::UploadTexture) <= tex_cap
                &&& count_of(taken, Message::UploadMesh) <= mesh_cap
            },
        left_after(q, tex_cap, mesh_cap, q.len()).len() == 0,
        served_over(q, tex_cap, mesh_cap, q.len(), kind) == count_of(q, kind),
{
    assert forall|n: nat|
        {
            let r = #[trigger] left_after(q, tex_cap, mesh_cap, n);
            let taken = r.take(drain_len(r, tex_cap, mesh_cap) as int);
            &&& count_of(taken, Message::UploadTexture) <= tex_cap
            &&& count_of(taken, Message::UploadMesh) <= mesh_cap
        } by {
        lemma_drain_stop(left_after(q, tex_cap, mesh_cap, n), tex_cap, mesh_cap);
    }
    lemma_cycles_conserve(q, tex_cap, mesh_cap, q.len(), kind);
    let r = left_after(q, tex_cap, mesh_cap, q.len());
    if r.len() > 0 {
        assert(r.len() + q.len() <= q.len());
    }
    assert(r =~= Seq::<Message>::empty());
}

/// The smaller of two counts.
pub open spec fn min_nat(a: nat, b: nat) -> nat {
    if a <= b { a } else { b }
}

/// The two caps are enforced independently: in a cycle where the mesh cap is
/// not reached, the texture requests taken are as many as the texture cap and
/// the buffered texture requests allow, and the other way round.
pub proof fn lemma_caps_independent(q: Seq<Message>, tex_cap: nat, mesh_cap: nat)
    requires
        tex_cap >= 1,
        mesh_cap >= 1,
    ensures
        ({
            let taken = q.take(drain_len(q, tex_cap, mesh_cap) as int);
            &&& count_of(taken, Message::UploadMesh) < mesh_cap ==> count_of(taken, Message::UploadTexture)
                == min_nat(tex_cap, count_of(q, Message::UploadTexture))
            &&& count_of(taken, Message::UploadTexture) < tex_cap ==> count_of(taken, Message::UploadMesh)
                == min_nat(mesh_cap, count_of(q, Message::UploadMesh))
        }),
{
    let d = drain_len(q, tex_cap, mesh_cap);
    lemma_drain_stop(q, tex_cap, mesh_cap);
    lemma_count_split(q, d as int, Message::UploadTexture);
    lemma_count_split(q, d as int, Message::UploadMesh);
    if d == q.len() {
        assert(q.take(d as int) =~= q);
        assert(q.skip(d as int) =~= Seq::<Message>::empty());
    }
}

/// What cycle `i` takes when cycles keep draining `q` with no request sent
/// meanwhile.
pub open spec fn taken_in_cycle(q: Seq<Message>, tex_cap: nat, mesh_cap: nat, i: nat) -> Seq<Message> {
    let r = left_after(q, tex_cap, mesh_cap, i);
    r.take(drain_len(r, tex_cap, mesh_cap) as int)
}

proof fn lemma_served_somewhere(q: Seq<Message>, tex_cap: nat, mesh_cap: nat, n: nat, kind: Message)
    requires
        served_over(q, tex_cap, mesh_cap, n, kind) > 0,
    ensures
        exists|i: nat| i < n && count_of(#[trigger] taken_in_cycle(q, tex_cap, mesh_cap, i), kind) > 0,
    decreases n,
{
    let d = drain_len(q, tex_cap, mesh_cap) as int;
    if count_of(q.take(d), kind) > 0 {
        assert(count_of(taken_in_cycle(q, tex_cap, mesh_cap, 0), kind) > 0);
    } else {
        let q2 = q.skip(d);
        lemma_served_somewhere(q2, tex_cap, mesh_cap, (n - 1) as nat, kind);
        let i = choose|i: nat| i < n - 1 && count_of(#[trigger] taken_in_cycle(q2, tex_cap, mesh_cap, i), kind) > 0;
        assert(left_after(q, tex_cap, mesh_cap, i + 1) == left_after(q2, tex_cap, mesh_cap, i));
        assert(taken_in_cycle(q, tex_cap, mesh_cap, i + 1) == taken_in_cycle(q2, tex_cap, mesh_cap, i));
    }
}

/// An exit request is never starved: when `q` holds one, one of the first
/// `q.len()` cycles takes it, and the worker stops after that cycle.
pub proof fn lemma_exit_served(q: Seq<Message>, tex_cap: nat, mesh_cap: nat)
    requires
        tex_cap >= 1,
        mesh_cap >= 1,
        count_of(q, Message::Exit) > 0,
    ensures
        exists|i: nat| i < q.len() && count_of(#[trigger] taken_in_cycle(q, tex_cap, mesh_cap, i), Message::Exit) > 0,
{
    lemma_batch_cap(q, tex_cap, mesh_cap, Message::Exit);
    lemma_served_somewhere(q, tex_cap, mesh_cap, q.len(), Message::Exit);
}

} // verus!
