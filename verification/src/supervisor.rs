//! Stream supervisor: owns the active-stream table and enforces its
//! invariant — at most one follower per `StreamKey`. `StartPod` spawns the
//! missing followers idempotently; `StopPod` cancels and removes every
//! follower of the pod.

use vstd::prelude::*;
use vstd::seq_lib::*;

use tokio_util::sync::CancellationToken;

use crate::cancel::{token_cancel, token_child, token_clone};
use crate::types::{PodCommand, PodCommandView, PodKey, PodKeyView, StreamKey, StreamKeyView};

verus! {

/// Which kind of follower the supervisor asks for: the developer simulator
/// (at a line rate, optionally bounded) or the live cluster log stream.
#[derive(Debug, Clone, Copy, PartialEq, Eq)]
pub enum StreamBackend {
    Dev { rate_ms: u64, max_lines: Option<u64> },
    Kube,
}

/// One table entry: a stream identity and the cancellation handle of its
/// follower.
pub struct StreamEntry {
    pub key: StreamKey,
    pub token: CancellationToken,
}

impl View for StreamEntry {
    type V = StreamKeyView;

    open spec fn view(&self) -> StreamKeyView {
        self.key@
    }
}

impl DeepView for StreamEntry {
    type V = StreamKeyView;

    open spec fn deep_view(&self) -> StreamKeyView {
        self.key@
    }
}

/// A follower the caller must spawn: the stream identity, the child
/// cancellation token the follower must honour, and the backend to run.
pub struct SpawnRequest {
    pub key: StreamKey,
    pub token: CancellationToken,
    pub backend: StreamBackend,
}

impl DeepView for SpawnRequest {
    type V = StreamKeyView;

    open spec fn deep_view(&self) -> StreamKeyView {
        self.key@
    }
}

/// The stream keys a `StartPod{pod, containers}` adds to table `t`, in
/// container order: one per container not already present (and not a
/// duplicate within the command itself).
pub open spec fn start_keys(t: Seq<StreamKeyView>, pod: PodKeyView, cs: Seq<Seq<char>>) -> Seq<
    StreamKeyView,
>
    decreases cs.len(),
{
    if cs.len() == 0 {
        seq![]
    } else {
        let pre = start_keys(t, pod, cs.drop_last());
        let k = StreamKeyView { pod: pod, container: cs.last() };
        if t.contains(k) || pre.contains(k) {
            pre
        } else {
            pre.push(k)
        }
    }
}

/// Law: after `StartPod{pod, containers}` every named container has its
/// stream key in the table.
pub proof fn lemma_start_covers(t: Seq<StreamKeyView>, pod: PodKeyView, cs: Seq<Seq<char>>)
    ensures
        forall|c: Seq<char>|
            cs.contains(c) ==> (t + start_keys(t, pod, cs)).contains(
                StreamKeyView { pod: pod, container: c },
            ),
    decreases cs.len(),
{
    if cs.len() > 0 {
        lemma_start_covers(t, pod, cs.drop_last());
        let pre = start_keys(t, pod, cs.drop_last());
        let all = t + start_keys(t, pod, cs);
        assert forall|c: Seq<char>| cs.contains(c) implies all.contains(
            StreamKeyView { pod: pod, container: c },
        ) by {
            let k = StreamKeyView { pod: pod, container: c };
            if c == cs.last() {
                if t.contains(k) {
                    let i = choose|i: int| 0 <= i < t.len() && t[i] == k;
                    assert(all[i] == k);
                } else if pre.contains(k) {
                    let i = choose|i: int| 0 <= i < pre.len() && pre[i] == k;
                    assert(all[t.len() + i] == k);
                } else {
                    assert(all[all.len() - 1] == k);
                }
            } else {
                let w = choose|w: int| 0 <= w < cs.len() && cs[w] == c;
                assert(cs.drop_last()[w] == c);
                assert(cs.drop_last().contains(c));
                let prev = t + pre;
                assert(prev.contains(k));
                let i = choose|i: int| 0 <= i < prev.len() && prev[i] == k;
                if i < t.len() {
                    assert(all[i] == k);
                } else {
                    assert(all[i] == pre[i - t.len()]);
                    assert(start_keys(t, pod, cs)[i - t.len()] == pre[i - t.len()]);
                }
            }
        }
    }
}

/// The table left by `StopPod{pod}`: the entries of every other pod, in
/// their original order.
pub open spec fn stop_table(t: Seq<StreamKeyView>, pod: PodKeyView) -> Seq<StreamKeyView> {
    t.filter(|k: StreamKeyView| k.pod != pod)
}

/// Law: after `StopPod{pod}` no table entry carries that pod; every
/// surviving entry was present before, and a duplicate-free table stays
/// duplicate-free.
pub proof fn lemma_stop_removes_pod(t: Seq<StreamKeyView>, pod: PodKeyView)
    ensures
        forall|i: int|
            0 <= i < stop_table(t, pod).len() ==> (#[trigger] stop_table(t, pod)[i]).pod != pod
                && t.contains(stop_table(t, pod)[i]),
        t.no_duplicates() ==> stop_table(t, pod).no_duplicates(),
    decreases t.len(),
{
    reveal(Seq::filter);
    let f = stop_table(t, pod);
    if t.len() > 0 {
        let rest = t.drop_last();
        lemma_stop_removes_pod(rest, pod);
        let fr = stop_table(rest, pod);
        assert forall|i: int| 0 <= i < f.len() implies (#[trigger] f[i]).pod != pod && t.contains(
            f[i],
        ) by {
            if t.last().pod != pod && i == f.len() - 1 {
                assert(f[i] == t[t.len() - 1]);
            } else {
                assert(f[i] == fr[i]);
                assert(rest.contains(fr[i]));
                let j = choose|j: int| 0 <= j < rest.len() && rest[j] == fr[i];
                assert(t[j] == fr[i]);
            }
        }
        if t.no_duplicates() {
            assert(rest.no_duplicates());
            if t.last().pod != pod {
                assert(f == fr.push(t.last()));
                if fr.contains(t.last()) {
                    let j = choose|j: int| 0 <= j < fr.len() && fr[j] == t.last();
                    assert(rest.contains(fr[j]));
                    let x = choose|x: int| 0 <= x < rest.len() && rest[x] == fr[j];
                    assert(t[x] == t[t.len() - 1]);
                    assert(false);
                }
                assert(f.no_duplicates());
            }
        }
    }
}

/// A fresh copy of a stream key.
fn clone_stream_key(k: &StreamKey) -> (r: StreamKey)
    ensures
        r@ == k@,
{
    StreamKey {
        pod: PodKey {
            namespace: k.pod.namespace.clone(),
            name: k.pod.name.clone(),
            uid: k.pod.uid.clone(),
        },
        container: k.container.clone(),
    }
}

/// Is `key` among the entries?
fn table_contains(streams: &Vec<StreamEntry>, key: &StreamKey) -> (r: bool)
    ensures
        r == streams.deep_view().contains(key@),
{
    let mut i: usize = 0;
    while i < streams.len()
        invariant
            i <= streams.len(),
            forall|j: int| 0 <= j < i ==> streams.deep_view()[j] != key@,
        decreases streams.len() - i,
    {
        if streams[i].key.key_eq(key) {
            proof {
                assert(streams.deep_view()[i as int] == key@);
            }
            return true;
        }
        i += 1;
    }
    proof {
        assert(!streams.deep_view().contains(key@));
    }
    false
}

/// The active-stream table and everything a `PodCommand` needs to act on
/// it: the backend selector and the shared shutdown token from which each
/// follower's child token is derived.
pub struct StreamSupervisor {
    streams: Vec<StreamEntry>,
    backend: StreamBackend,
    shutdown: CancellationToken,
}

impl StreamSupervisor {
    /// The keys of the active streams, in spawn order.
    pub closed spec fn table(&self) -> Seq<StreamKeyView> {
        self.streams.deep_view()
    }

    /// The backend this supervisor spawns.
    pub closed spec fn backend_spec(&self) -> StreamBackend {
        self.backend
    }

    /// At most one entry per stream key.
    pub open spec fn wf(&self) -> bool {
        self.table().no_duplicates()
    }

    /// A supervisor with an empty table. The caller keeps the log-event
    /// sink and performs the spawns; the supervisor owns only the table.
    pub fn new(backend: StreamBackend, shutdown: CancellationToken) -> (r: StreamSupervisor)
        ensures
            r.wf(),
            r.table() == Seq::<StreamKeyView>::empty(),
            r.backend_spec() == backend,
    {
        let r = StreamSupervisor { streams: Vec::new(), backend, shutdown };
        proof {
            assert(r.table() =~= Seq::<StreamKeyView>::empty());
        }
        r
    }

    /// Apply one lifecycle command. For `StartPod`, exactly the missing
    /// stream keys are added, in container order, and returned as spawn
    /// requests (each with a fresh child token of the shutdown token); a key
    /// already present is left untouched. For `StopPod`, every entry of that
    /// pod is cancelled and removed; the rest keep their order.
    pub fn handle_command(&mut self, cmd: PodCommand) -> (reqs: Vec<SpawnRequest>)
        requires
            old(self).wf(),
        ensures
            final(self).wf(),
            final(self).backend_spec() == old(self).backend_spec(),
            (match cmd.deep_view() {
                PodCommandView::StartPod { pod, containers } => {
                    &&& final(self).table() == old(self).table() + start_keys(
                        old(self).table(),
                        pod,
                        containers,
                    )
                    &&& reqs.deep_view() == start_keys(old(self).table(), pod, containers)
                    &&& forall|i: int|
                        0 <= i < reqs.len() ==> (#[trigger] reqs@[i].backend) == old(
                            self,
                        ).backend_spec()
                },
                PodCommandView::StopPod { pod } => {
                    &&& final(self).table() == stop_table(old(self).table(), pod)
                    &&& reqs.len() == 0
                },
            }),
    {
        let ghost t0 = self.table();
        let mut reqs: Vec<SpawnRequest> = Vec::new();
        match cmd {
            PodCommand::StartPod { pod, containers } => {
                let ghost podv = pod@;
                let ghost cs = containers.deep_view();
                let mut i: usize = 0;
                proof {
                    assert(cs.take(0) =~= Seq::<Seq<char>>::empty());
                    assert(self.table() =~= t0 + start_keys(t0, podv, cs.take(0)));
                    assert(reqs.deep_view() =~= start_keys(t0, podv, cs.take(0)));
                }
                while i < containers.len()
                    invariant
                        i <= containers.len(),
                        cs == containers.deep_view(),
                        podv == pod@,
                        t0.no_duplicates(),
                        self.table() == t0 + start_keys(t0, podv, cs.take(i as int)),
                        self.table().no_duplicates(),
                        reqs.deep_view() == start_keys(t0, podv, cs.take(i as int)),
                        self.backend == old(self).backend,
                        forall|j: int|
                            0 <= j < reqs.len() ==> (#[trigger] reqs@[j].backend) == old(
                                self,
                            ).backend,
                    decreases containers.len() - i,
                {
                    let ghost pre = start_keys(t0, podv, cs.take(i as int));
                    proof {
                        assert(cs.take(i + 1).drop_last() =~= cs.take(i as int));
                        assert(cs.take(i + 1).last() == cs[i as int]);
                    }
                    let key = StreamKey {
                        pod: PodKey {
                            namespace: pod.namespace.clone(),
                            name: pod.name.clone(),
                            uid: pod.uid.clone(),
                        },
                        container: containers[i].clone(),
                    };
                    proof {
                        assert(key@ == (StreamKeyView { pod: podv, container: cs[i as int] }));
                    }
                    let present = table_contains(&self.streams, &key);
                    proof {
                        if present {
                            assert((t0 + pre).contains(key@));
                            let x = choose|x: int| 0 <= x < (t0 + pre).len() && (t0 + pre)[x]
                                == key@;
                            if x < t0.len() {
                                assert(t0.contains(key@));
                            } else {
                                assert(pre.contains(key@));
                            }
                        } else {
                            assert(!(t0 + pre).contains(key@));
                            if t0.contains(key@) {
                                let x = choose|x: int| 0 <= x < t0.len() && t0[x] == key@;
                                assert((t0 + pre)[x] == key@);
                                assert(false);
                            }
                            if pre.contains(key@) {
                                let x = choose|x: int| 0 <= x < pre.len() && pre[x] == key@;
                                assert((t0 + pre)[t0.len() + x] == key@);
                                assert(false);
                            }
                        }
                    }
                    if !present {
                        let ghost table_before = self.table();
                        let ghost reqs_before = reqs.deep_view();
                        let token = token_child(&self.shutdown);
                        let stream_token = token_child(&token);
                        let entry_key = clone_stream_key(&key);
                        self.streams.push(StreamEntry { key: entry_key, token });
                        reqs.push(SpawnRequest { key, token: stream_token, backend: self.backend });
                        proof {
                            assert(self.table() =~= table_before.push(
                                StreamKeyView { pod: podv, container: cs[i as int] },
                            ));
                            assert(reqs.deep_view() =~= reqs_before.push(
                                StreamKeyView { pod: podv, container: cs[i as int] },
                            ));
                            assert(self.table() =~= t0 + start_keys(t0, podv, cs.take(i + 1)));
                        }
                    } else {
                        proof {
                            assert(start_keys(t0, podv, cs.take(i + 1)) == pre);
                        }
                    }
                    i += 1;
                }
                proof {
                    assert(cs.take(containers.len() as int) =~= cs);
                }
            },
            PodCommand::StopPod { pod } => {
                let ghost podv = pod@;
                let mut kept: Vec<StreamEntry> = Vec::new();
                let mut i: usize = 0;
                proof {
                    reveal(Seq::filter);
                    assert(kept.deep_view() =~= stop_table(t0.take(0), podv));
                }
                while i < self.streams.len()
                    invariant
                        i <= self.streams.len(),
                        t0 == self.streams.deep_view(),
                        podv == pod@,
                        kept.deep_view() == stop_table(t0.take(i as int), podv),
                    decreases self.streams.len() - i,
                {
                    let ghost kept_before = kept.deep_view();
                    proof {
                        reveal(Seq::filter);
                        assert(t0.take(i + 1).drop_last() =~= t0.take(i as int));
                        assert(t0.take(i + 1).last() == t0[i as int]);
                    }
                    let matches_pod = self.streams[i].key.pod.key_eq(&pod);
                    proof {
                        assert(self.streams[i as int].key@ == t0[i as int]);
                    }
                    if matches_pod {
                        token_cancel(&self.streams[i].token);
                    } else {
                        let e_key = clone_stream_key(&self.streams[i].key);
                        let e_token = token_clone(&self.streams[i].token);
                        kept.push(StreamEntry { key: e_key, token: e_token });
                        proof {
                            assert(kept.deep_view() =~= kept_before.push(t0[i as int]));
                        }
                    }
                    proof {
                        reveal(Seq::filter);
                        assert(kept.deep_view() =~= stop_table(t0.take(i + 1), podv));
                    }
                    i += 1;
                }
                proof {
                    assert(t0.take(self.streams.len() as int) =~= t0);
                }
                self.streams = kept;
                proof {
                    lemma_stop_removes_pod(t0, podv);
                }
            },
        }
        reqs
    }

    /// Cancel every follower and drain the table. Called on teardown.
    pub fn shutdown_all(&mut self)
        ensures
            final(self).wf(),
            final(self).table() == Seq::<StreamKeyView>::empty(),
            final(self).backend_spec() == old(self).backend_spec(),
    {
        let mut i: usize = 0;
        while i < self.streams.len()
            invariant
                i <= self.streams.len(),
                self == old(self),
            decreases self.streams.len() - i,
        {
            token_cancel(&self.streams[i].token);
            i += 1;
        }
        self.streams.clear();
        proof {
            assert(self.table() =~= Seq::<StreamKeyView>::empty());
        }
    }
}

} // verus!
