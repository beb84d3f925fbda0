//! Pod watcher state machine: translates cluster watch events (Applied /
//! Deleted / Restarted) into idempotent `StartPod` / `StopPod` commands
//! keyed by pod uid, maintaining the active-pod table.

use vstd::prelude::*;
use vstd::pervasive::VecAdditionalExecFns;
use vstd::seq_lib::*;

use crate::types::{PodCommand, PodCommandView, PodKey, PodKeyView};

verus! {

/// Mathematical view of a [`PodInfo`].
#[verifier::ext_equal]
pub struct PodInfoView {
    pub namespace: Seq<char>,
    pub name: Seq<char>,
    pub uid: Seq<char>,
    pub containers: Seq<Seq<char>>,
}

/// Identity and container list extracted from one observed pod: metadata
/// (namespace, name, uid) plus the ordered container names of the pod spec
/// (init containers excluded).
#[derive(Debug, Clone, PartialEq, Eq)]
pub struct PodInfo {
    pub namespace: String,
    pub name: String,
    pub uid: String,
    pub containers: Vec<String>,
}

impl View for PodInfo {
    type V = PodInfoView;

    open spec fn view(&self) -> PodInfoView {
        PodInfoView {
            namespace: self.namespace@,
            name: self.name@,
            uid: self.uid@,
            containers: self.containers.deep_view(),
        }
    }
}

impl DeepView for PodInfo {
    type V = PodInfoView;

    open spec fn deep_view(&self) -> PodInfoView {
        self.view()
    }
}

/// Mathematical view of a [`WatchEvent`].
pub enum WatchEventView {
    Applied(PodInfoView),
    Deleted(PodInfoView),
    Restarted(Seq<PodInfoView>),
}

/// One event of the underlying watch: an add-or-update, a delete, or a full
/// resync carrying the complete current pod list.
#[derive(Debug, Clone, PartialEq, Eq)]
pub enum WatchEvent {
    Applied(PodInfo),
    Deleted(PodInfo),
    Restarted(Vec<PodInfo>),
}

impl DeepView for WatchEvent {
    type V = WatchEventView;

    open spec fn deep_view(&self) -> WatchEventView {
        match self {
            WatchEvent::Applied(p) => WatchEventView::Applied(p.deep_view()),
            WatchEvent::Deleted(p) => WatchEventView::Deleted(p.deep_view()),
            WatchEvent::Restarted(l) => WatchEventView::Restarted(l.deep_view()),
        }
    }
}

// ---------------------------------------------------------------------------
// Specification of the event-handling algorithm
// ---------------------------------------------------------------------------

/// Does entry `e` occupy the table slot keyed by `(ns, name)`?
pub open spec fn key_matches(e: PodInfoView, ns: Seq<char>, name: Seq<char>) -> bool {
    e.namespace == ns && e.name == name
}

/// Index of the entry keyed by `(ns, name)`, or -1 when absent. The table
/// is keyed by (namespace, name): under `table_wf` at most one entry matches.
pub open spec fn find_pod(t: Seq<PodInfoView>, ns: Seq<char>, name: Seq<char>) -> int
    decreases t.len(),
{
    if t.len() == 0 {
        -1
    } else if key_matches(t.last(), ns, name) {
        t.len() - 1
    } else {
        find_pod(t.drop_last(), ns, name)
    }
}

/// The active-pod table holds at most one entry per (namespace, name) pair.
pub open spec fn table_wf(t: Seq<PodInfoView>) -> bool {
    forall|i: int, j: int|
        0 <= i < j < t.len() ==> !key_matches(#[trigger] t[i], #[trigger] t[j].namespace, t[j].name)
}

/// The pod identity recorded in a table entry.
pub open spec fn pod_key_of(e: PodInfoView) -> PodKeyView {
    PodKeyView { namespace: e.namespace, name: e.name, uid: e.uid }
}

/// The `StartPod` command for an entry; a pod whose (filtered) container
/// list is empty produces no command.
pub open spec fn start_commands(e: PodInfoView) -> Seq<PodCommandView> {
    if e.containers.len() == 0 {
        seq![]
    } else {
        seq![PodCommandView::StartPod { pod: pod_key_of(e), containers: e.containers }]
    }
}

/// The `StopPod` command for an entry.
pub open spec fn stop_command_of(e: PodInfoView) -> PodCommandView {
    PodCommandView::StopPod { pod: pod_key_of(e) }
}

/// Container names kept by the user's allow-list; an empty allow-list keeps
/// everything, order is preserved.
pub open spec fn filter_containers(allow: Seq<Seq<char>>, cs: Seq<Seq<char>>) -> Seq<Seq<char>> {
    if allow.len() == 0 {
        cs
    } else {
        cs.filter(|c: Seq<char>| allow.contains(c))
    }
}

/// A pod's info with its container list run through the allow-list.
pub open spec fn filtered_info(allow: Seq<Seq<char>>, p: PodInfoView) -> PodInfoView {
    PodInfoView {
        namespace: p.namespace,
        name: p.name,
        uid: p.uid,
        containers: filter_containers(allow, p.containers),
    }
}

/// Table after an `Applied(p)` event (with `p` already filtered).
pub open spec fn applied_table(t: Seq<PodInfoView>, p: PodInfoView) -> Seq<PodInfoView> {
    let i = find_pod(t, p.namespace, p.name);
    if i < 0 {
        t.push(p)
    } else {
        t.update(i, p)
    }
}

/// Commands emitted by an `Applied(p)` event: a start for a new key, nothing
/// for a same-uid update (container drift is recorded only), and a stop of
/// the old uid strictly before the start of the new uid on replacement.
pub open spec fn applied_cmds(t: Seq<PodInfoView>, p: PodInfoView) -> Seq<PodCommandView> {
    let i = find_pod(t, p.namespace, p.name);
    if i < 0 {
        start_commands(p)
    } else if t[i].uid == p.uid {
        seq![]
    } else {
        seq![stop_command_of(t[i])] + start_commands(p)
    }
}

/// Table after a `Deleted(p)` event.
pub open spec fn deleted_table(t: Seq<PodInfoView>, p: PodInfoView) -> Seq<PodInfoView> {
    let i = find_pod(t, p.namespace, p.name);
    if i < 0 {
        t
    } else {
        t.remove(i)
    }
}

/// Commands emitted by a `Deleted(p)` event: a stop using the stored uid,
/// unless the stored uid is empty (then the event's own uid serves).
pub open spec fn deleted_cmds(t: Seq<PodInfoView>, p: PodInfoView) -> Seq<PodCommandView> {
    let i = find_pod(t, p.namespace, p.name);
    if i < 0 {
        seq![]
    } else {
        let uid = if t[i].uid.len() == 0 {
            p.uid
        } else {
            t[i].uid
        };
        seq![
            PodCommandView::StopPod {
                pod: PodKeyView { namespace: p.namespace, name: p.name, uid: uid },
            },
        ]
    }
}

/// Insert-or-replace an entry, keyed by (namespace, name).
pub open spec fn upsert(t: Seq<PodInfoView>, e: PodInfoView) -> Seq<PodInfoView> {
    let i = find_pod(t, e.namespace, e.name);
    if i < 0 {
        t.push(e)
    } else {
        t.update(i, e)
    }
}

/// The table rebuilt from a resync list; a later duplicate of a key
/// overrides an earlier one in place.
pub open spec fn rebuild(list: Seq<PodInfoView>) -> Seq<PodInfoView>
    decreases list.len(),
{
    if list.len() == 0 {
        Seq::empty()
    } else {
        upsert(rebuild(list.drop_last()), list.last())
    }
}

/// Stops of a resync: one per old entry whose key vanished or whose uid
/// changed, in old-table order.
pub open spec fn resync_stops(old_t: Seq<PodInfoView>, new_t: Seq<PodInfoView>) -> Seq<
    PodCommandView,
>
    decreases old_t.len(),
{
    if old_t.len() == 0 {
        seq![]
    } else {
        let pre = resync_stops(old_t.drop_last(), new_t);
        let e = old_t.last();
        let i = find_pod(new_t, e.namespace, e.name);
        if i < 0 || new_t[i].uid != e.uid {
            pre + seq![stop_command_of(e)]
        } else {
            pre
        }
    }
}

/// Starts of a resync: one per new entry whose key is new or whose uid
/// changed, in new-table order.
pub open spec fn resync_starts(old_t: Seq<PodInfoView>, new_t: Seq<PodInfoView>) -> Seq<
    PodCommandView,
>
    decreases new_t.len(),
{
    if new_t.len() == 0 {
        seq![]
    } else {
        let pre = resync_starts(old_t, new_t.drop_last());
        let e = new_t.last();
        let i = find_pod(old_t, e.namespace, e.name);
        if i < 0 || old_t[i].uid != e.uid {
            pre + start_commands(e)
        } else {
            pre
        }
    }
}

/// Table after a full transition on one watch event.
pub open spec fn step_table(
    t: Seq<PodInfoView>,
    allow: Seq<Seq<char>>,
    ev: WatchEventView,
) -> Seq<PodInfoView> {
    match ev {
        WatchEventView::Applied(p) => applied_table(t, filtered_info(allow, p)),
        WatchEventView::Deleted(p) => deleted_table(t, filtered_info(allow, p)),
        WatchEventView::Restarted(list) => rebuild(
            list.map_values(|p: PodInfoView| filtered_info(allow, p)),
        ),
    }
}

/// Commands emitted by one watch event. On a resync every stop precedes
/// every start, so the supervisor never holds two followers for one
/// (namespace, name, container) with different uids.
pub open spec fn step_cmds(
    t: Seq<PodInfoView>,
    allow: Seq<Seq<char>>,
    ev: WatchEventView,
) -> Seq<PodCommandView> {
    match ev {
        WatchEventView::Applied(p) => applied_cmds(t, filtered_info(allow, p)),
        WatchEventView::Deleted(p) => deleted_cmds(t, filtered_info(allow, p)),
        WatchEventView::Restarted(list) => {
            let new_t = rebuild(list.map_values(|p: PodInfoView| filtered_info(allow, p)));
            resync_stops(t, new_t) + resync_starts(t, new_t)
        },
    }
}

// ---------------------------------------------------------------------------
// Lemmas about the specification
// ---------------------------------------------------------------------------

/// What a `find_pod` result means: -1 is absence, a non-negative index is a
/// matching slot.
pub proof fn lemma_find_pod_props(t: Seq<PodInfoView>, ns: Seq<char>, name: Seq<char>)
    ensures
        find_pod(t, ns, name) == -1 || (0 <= find_pod(t, ns, name) < t.len()),
        find_pod(t, ns, name) >= 0 ==> key_matches(t[find_pod(t, ns, name)], ns, name),
        find_pod(t, ns, name) == -1 ==> forall|i: int|
            0 <= i < t.len() ==> !key_matches(#[trigger] t[i], ns, name),
    decreases t.len(),
{
    if t.len() > 0 && !key_matches(t.last(), ns, name) {
        lemma_find_pod_props(t.drop_last(), ns, name);
        assert forall|i: int|
            find_pod(t, ns, name) == -1 && 0 <= i < t.len() implies !key_matches(
            #[trigger] t[i],
            ns,
            name,
        ) by {
            if i < t.len() - 1 {
                assert(t.drop_last()[i] == t[i]);
            }
        }
    }
}

/// Law: on pod replacement — an `Applied` whose (namespace, name) is already
/// in the table under a different uid — the emitted commands are exactly the
/// stop of the old uid, strictly before the start of the new uid (the start
/// is omitted only when the filtered container list is empty).
pub proof fn lemma_replacement_stop_before_start(
    t: Seq<PodInfoView>,
    allow: Seq<Seq<char>>,
    p: PodInfoView,
)
    requires
        ({
            let pf = filtered_info(allow, p);
            let i = find_pod(t, pf.namespace, pf.name);
            0 <= i < t.len() && t[i].uid != pf.uid
        }),
    ensures
        ({
            let pf = filtered_info(allow, p);
            let i = find_pod(t, pf.namespace, pf.name);
            let cmds = step_cmds(t, allow, WatchEventView::Applied(p));
            cmds.len() >= 1 && cmds[0] == stop_command_of(t[i]) && (pf.containers.len() > 0
                ==> cmds.len() == 2 && cmds[1] == (PodCommandView::StartPod {
                pod: pod_key_of(pf),
                containers: pf.containers,
            })) && (pf.containers.len() == 0 ==> cmds.len() == 1)
        }),
{
}

/// Every command of `resync_stops` is a `StopPod`.
proof fn lemma_resync_stops_are_stops(old_t: Seq<PodInfoView>, new_t: Seq<PodInfoView>)
    ensures
        forall|i: int|
            0 <= i < resync_stops(old_t, new_t).len() ==> (#[trigger] resync_stops(
                old_t,
                new_t,
            )[i]) is StopPod,
    decreases old_t.len(),
{
    if old_t.len() > 0 {
        lemma_resync_stops_are_stops(old_t.drop_last(), new_t);
    }
}

/// Every command of `resync_starts` is a `StartPod`.
proof fn lemma_resync_starts_are_starts(old_t: Seq<PodInfoView>, new_t: Seq<PodInfoView>)
    ensures
        forall|i: int|
            0 <= i < resync_starts(old_t, new_t).len() ==> (#[trigger] resync_starts(
                old_t,
                new_t,
            )[i]) is StartPod,
    decreases new_t.len(),
{
    if new_t.len() > 0 {
        lemma_resync_starts_are_starts(old_t, new_t.drop_last());
    }
}

/// Law: on a resync, every `StopPod` precedes every `StartPod`, so the
/// supervisor never holds two followers with the same (namespace, name,
/// container) under different uids.
pub proof fn lemma_resync_stops_precede_starts(
    t: Seq<PodInfoView>,
    allow: Seq<Seq<char>>,
    list: Seq<PodInfoView>,
)
    ensures
        ({
            let cmds = step_cmds(t, allow, WatchEventView::Restarted(list));
            forall|a: int, b: int|
                0 <= a < b < cmds.len() && (#[trigger] cmds[b]) is StopPod ==> (
                #[trigger] cmds[a]) is StopPod
        }),
{
    let new_t = rebuild(list.map_values(|q: PodInfoView| filtered_info(allow, q)));
    let stops = resync_stops(t, new_t);
    let starts = resync_starts(t, new_t);
    let cmds = step_cmds(t, allow, WatchEventView::Restarted(list));
    lemma_resync_stops_are_stops(t, new_t);
    lemma_resync_starts_are_starts(t, new_t);
    assert(cmds == stops + starts);
    assert forall|a: int, b: int|
        0 <= a < b < cmds.len() && (#[trigger] cmds[b]) is StopPod implies (
    #[trigger] cmds[a]) is StopPod by {
        if b >= stops.len() {
            assert(cmds[b] == starts[b - stops.len()]);
        }
        assert(b < stops.len());
        assert(cmds[a] == stops[a]);
    }
}

/// Replacing an entry with one of the same key keeps the table well formed.
proof fn lemma_wf_update(t: Seq<PodInfoView>, i: int, p: PodInfoView)
    requires
        table_wf(t),
        0 <= i < t.len(),
        key_matches(t[i], p.namespace, p.name),
    ensures
        table_wf(t.update(i, p)),
{
    let u = t.update(i, p);
    assert forall|a: int, b: int| 0 <= a < b < u.len() implies !key_matches(
        #[trigger] u[a],
        #[trigger] u[b].namespace,
        u[b].name,
    ) by {
        assert(!key_matches(t[a], t[b].namespace, t[b].name));
    }
}

/// Appending an entry whose key is absent keeps the table well formed.
proof fn lemma_wf_push(t: Seq<PodInfoView>, p: PodInfoView)
    requires
        table_wf(t),
        find_pod(t, p.namespace, p.name) == -1,
    ensures
        table_wf(t.push(p)),
{
    lemma_find_pod_props(t, p.namespace, p.name);
    let u = t.push(p);
    assert forall|a: int, b: int| 0 <= a < b < u.len() implies !key_matches(
        #[trigger] u[a],
        #[trigger] u[b].namespace,
        u[b].name,
    ) by {
        if b < t.len() {
            assert(!key_matches(t[a], t[b].namespace, t[b].name));
        } else {
            assert(u[b] == p);
            assert(!key_matches(t[a], p.namespace, p.name));
        }
    }
}

/// Removing an entry keeps the table well formed.
proof fn lemma_wf_remove(t: Seq<PodInfoView>, i: int)
    requires
        table_wf(t),
        0 <= i < t.len(),
    ensures
        table_wf(t.remove(i)),
{
    let u = t.remove(i);
    assert forall|a: int, b: int| 0 <= a < b < u.len() implies !key_matches(
        #[trigger] u[a],
        #[trigger] u[b].namespace,
        u[b].name,
    ) by {
        let a0 = if a < i { a } else { a + 1 };
        let b0 = if b < i { b } else { b + 1 };
        assert(u[a] == t[a0]);
        assert(u[b] == t[b0]);
        assert(!key_matches(t[a0], t[b0].namespace, t[b0].name));
    }
}

// ---------------------------------------------------------------------------
// Executable helpers
// ---------------------------------------------------------------------------

/// Is `s` one of the strings in `v`?
fn contains_string(v: &Vec<String>, s: &String) -> (r: bool)
    ensures
        r == v.deep_view().contains(s@),
{
    let mut i: usize = 0;
    while i < v.len()
        invariant
            i <= v.len(),
            forall|j: int| 0 <= j < i ==> v.deep_view()[j] != s@,
        decreases v.len() - i,
    {
        if v[i] == *s {
            proof {
                assert(v.deep_view()[i as int] == s@);
            }
            return true;
        }
        i += 1;
    }
    proof {
        assert(!v.deep_view().contains(s@));
    }
    false
}

/// A copy of a string vector, content for content.
fn clone_string_vec(v: &Vec<String>) -> (r: Vec<String>)
    ensures
        r.deep_view() == v.deep_view(),
{
    let mut r: Vec<String> = Vec::new();
    let mut i: usize = 0;
    while i < v.len()
        invariant
            i <= v.len(),
            r.deep_view() =~= v.deep_view().take(i as int),
        decreases v.len() - i,
    {
        let ghost before = r.deep_view();
        let s = v[i].clone();
        proof {
            assert(s@ == v.deep_view()[i as int]);
        }
        r.push(s);
        proof {
            assert(r.deep_view() =~= before.push(v.deep_view()[i as int]));
            assert(v.deep_view().take(i + 1) =~= v.deep_view().take(i as int).push(
                v.deep_view()[i as int],
            ));
        }
        i += 1;
    }
    proof {
        assert(v.deep_view().take(v.len() as int) =~= v.deep_view());
    }
    r
}

/// The container names kept by the allow-list, in pod-spec order.
fn filter_containers_exec(allow: &Vec<String>, cs: &Vec<String>) -> (r: Vec<String>)
    ensures
        r.deep_view() == filter_containers(allow.deep_view(), cs.deep_view()),
{
    if allow.len() == 0 {
        return clone_string_vec(cs);
    }
    let ghost av = allow.deep_view();
    let ghost cv = cs.deep_view();
    let mut r: Vec<String> = Vec::new();
    let mut i: usize = 0;
    proof {
        reveal(Seq::filter);
        assert(r.deep_view() =~= cv.take(0).filter(|c: Seq<char>| av.contains(c)));
    }
    while i < cs.len()
        invariant
            i <= cs.len(),
            av == allow.deep_view(),
            cv == cs.deep_view(),
            allow.len() > 0,
            r.deep_view() == cv.take(i as int).filter(|c: Seq<char>| av.contains(c)),
        decreases cs.len() - i,
    {
        let keep = contains_string(allow, &cs[i]);
        proof {
            reveal(Seq::filter);
            assert(cv.take(i + 1).drop_last() =~= cv.take(i as int));
            assert(cv.take(i + 1).last() == cv[i as int]);
        }
        if keep {
            r.push(cs[i].clone());
            proof {
                assert(r.deep_view() =~= cv.take(i + 1).filter(|c: Seq<char>| av.contains(c)));
            }
        } else {
            proof {
                assert(r.deep_view() =~= cv.take(i + 1).filter(|c: Seq<char>| av.contains(c)));
            }
        }
        i += 1;
    }
    proof {
        assert(cv.take(cs.len() as int) =~= cv);
    }
    r
}

/// Index of the table entry keyed by (ns, name), if any.
fn find_pod_index(entries: &Vec<PodInfo>, ns: &String, name: &String) -> (r: Option<usize>)
    ensures
        (match r {
            Option::None => find_pod(entries.deep_view(), ns@, name@) == -1,
            Option::Some(i) => 0 <= i < entries.len() && find_pod(entries.deep_view(), ns@, name@)
                == i,
        }),
{
    let ghost tv = entries.deep_view();
    let mut i: usize = entries.len();
    proof {
        assert(tv.take(entries.len() as int) =~= tv);
    }
    while i > 0
        invariant
            i <= entries.len(),
            tv == entries.deep_view(),
            find_pod(tv, ns@, name@) == find_pod(tv.take(i as int), ns@, name@),
        decreases i,
    {
        let hit = entries[i - 1].namespace == *ns && entries[i - 1].name == *name;
        proof {
            assert(tv.take(i as int).last() == tv[i - 1]);
            assert(tv.take(i as int).drop_last() =~= tv.take(i - 1));
        }
        if hit {
            return Some(i - 1);
        }
        i -= 1;
    }
    None
}

/// A fresh `PodKey` carrying the identity of a table entry.
fn pod_key_from(namespace: &String, name: &String, uid: &String) -> (r: PodKey)
    ensures
        r@ == (PodKeyView { namespace: namespace@, name: name@, uid: uid@ }),
{
    PodKey { namespace: namespace.clone(), name: name.clone(), uid: uid.clone() }
}

// ---------------------------------------------------------------------------
// The watcher
// ---------------------------------------------------------------------------

/// The active-pod table of the watcher, keyed by (namespace, name), holding
/// for each observed pod its uid and (allow-list filtered) container names.
/// A resync event rebuilds it wholesale.
pub struct PodWatcher {
    allow: Vec<String>,
    entries: Vec<PodInfo>,
}

impl PodWatcher {
    /// The active-pod table, in insertion order.
    pub closed spec fn table(&self) -> Seq<PodInfoView> {
        self.entries.deep_view()
    }

    /// The container allow-list; empty means "follow every container".
    pub closed spec fn allow_list(&self) -> Seq<Seq<char>> {
        self.allow.deep_view()
    }

    /// At most one table entry per (namespace, name).
    pub open spec fn wf(&self) -> bool {
        table_wf(self.table())
    }

    /// A watcher with an empty table.
    pub fn new(allow: Vec<String>) -> (r: PodWatcher)
        ensures
            r.wf(),
            r.table() == Seq::<PodInfoView>::empty(),
            r.allow_list() == allow.deep_view(),
    {
        let r = PodWatcher { allow, entries: Vec::new() };
        proof {
            assert(r.table() =~= Seq::<PodInfoView>::empty());
        }
        r
    }

    /// Feed one watch event through the table; the returned commands are the
    /// idempotent lifecycle transitions it implies, stops strictly before the
    /// starts they make way for.
    pub fn handle_event(&mut self, ev: WatchEvent) -> (cmds: Vec<PodCommand>)
        requires
            old(self).wf(),
        ensures
            final(self).wf(),
            final(self).allow_list() == old(self).allow_list(),
            final(self).table() == step_table(
                old(self).table(),
                old(self).allow_list(),
                ev.deep_view(),
            ),
            cmds.deep_view() == step_cmds(old(self).table(), old(self).allow_list(), ev.deep_view()),
    {
        let ghost t0 = self.table();
        let ghost av = self.allow_list();
        let mut cmds: Vec<PodCommand> = Vec::new();
        match ev {
            WatchEvent::Applied(p) => {
                let ghost pv = p.deep_view();
                let fc = filter_containers_exec(&self.allow, &p.containers);
                let pf = PodInfo { namespace: p.namespace, name: p.name, uid: p.uid, containers: fc };
                let ghost pfv = filtered_info(av, pv);
                proof {
                    assert(pf@ =~= pfv);
                }
                match find_pod_index(&self.entries, &pf.namespace, &pf.name) {
                    None => {
                        if pf.containers.len() > 0 {
                            let pod = pod_key_from(&pf.namespace, &pf.name, &pf.uid);
                            let containers = clone_string_vec(&pf.containers);
                            cmds.push(PodCommand::StartPod { pod, containers });
                        }
                        self.entries.push(pf);
                        proof {
                            lemma_wf_push(t0, pfv);
                            assert(self.table() =~= t0.push(pfv));
                            assert(cmds.deep_view() =~= start_commands(pfv));
                        }
                    },
                    Some(i) => {
                        let ghost oldent = t0[i as int];
                        let same_uid = self.entries[i].uid == pf.uid;
                        if !same_uid {
                            let stop_pod = pod_key_from(
                                &self.entries[i].namespace,
                                &self.entries[i].name,
                                &self.entries[i].uid,
                            );
                            cmds.push(PodCommand::StopPod { pod: stop_pod });
                            if pf.containers.len() > 0 {
                                let pod = pod_key_from(&pf.namespace, &pf.name, &pf.uid);
                                let containers = clone_string_vec(&pf.containers);
                                cmds.push(PodCommand::StartPod { pod, containers });
                            }
                        }
                        self.entries.set(i, pf);
                        proof {
                            lemma_find_pod_props(t0, pfv.namespace, pfv.name);
                            lemma_wf_update(t0, i as int, pfv);
                            assert(self.table() =~= t0.update(i as int, pfv));
                            if same_uid {
                                assert(cmds.deep_view() =~= applied_cmds(t0, pfv));
                            } else {
                                assert(cmds.deep_view() =~= seq![stop_command_of(oldent)]
                                    + start_commands(pfv));
                            }
                        }
                    },
                }
            },
            WatchEvent::Deleted(p) => {
                let ghost pv = p.deep_view();
                match find_pod_index(&self.entries, &p.namespace, &p.name) {
                    None => {
                        proof {
                            assert(cmds.deep_view() =~= deleted_cmds(t0, filtered_info(av, pv)));
                        }
                    },
                    Some(i) => {
                        let stored_empty = self.entries[i].uid.as_str().is_empty();
                        let uid = if stored_empty {
                            p.uid.clone()
                        } else {
                            self.entries[i].uid.clone()
                        };
                        let stop_pod = PodKey { namespace: p.namespace, name: p.name, uid };
                        cmds.push(PodCommand::StopPod { pod: stop_pod });
                        self.entries.remove(i);
                        proof {
                            lemma_wf_remove(t0, i as int);
                            assert(self.table() =~= t0.remove(i as int));
                            assert(cmds.deep_view() =~= deleted_cmds(t0, filtered_info(av, pv)));
                        }
                    },
                }
            },
            WatchEvent::Restarted(list) => {
                let ghost list_v = list.deep_view();
                let ghost lv = list_v.map_values(|q: PodInfoView| filtered_info(av, q));
                let mut new_entries: Vec<PodInfo> = Vec::new();
                let mut k: usize = 0;
                proof {
                    assert(new_entries.deep_view() =~= rebuild(lv.take(0)));
                }
                while k < list.len()
                    invariant
                        k <= list.len(),
                        list_v == list.deep_view(),
                        lv == list_v.map_values(|q: PodInfoView| filtered_info(av, q)),
                        av == self.allow.deep_view(),
                        new_entries.deep_view() == rebuild(lv.take(k as int)),
                        table_wf(new_entries.deep_view()),
                    decreases list.len() - k,
                {
                    let ghost nt_before = new_entries.deep_view();
                    proof {
                        assert(lv[k as int] == filtered_info(av, list_v[k as int]));
                        assert(list[k as int]@ == list_v[k as int]);
                    }
                    let fc = filter_containers_exec(&self.allow, &list[k].containers);
                    let pf = PodInfo {
                        namespace: list[k].namespace.clone(),
                        name: list[k].name.clone(),
                        uid: list[k].uid.clone(),
                        containers: fc,
                    };
                    proof {
                        assert(pf@ =~= lv[k as int]);
                    }
                    match find_pod_index(&new_entries, &pf.namespace, &pf.name) {
                        None => {
                            new_entries.push(pf);
                            proof {
                                lemma_wf_push(nt_before, lv[k as int]);
                                assert(new_entries.deep_view() =~= nt_before.push(lv[k as int]));
                            }
                        },
                        Some(i) => {
                            proof {
                                lemma_find_pod_props(nt_before, pf@.namespace, pf@.name);
                                lemma_wf_update(nt_before, i as int, lv[k as int]);
                            }
                            new_entries.set(i, pf);
                            proof {
                                assert(new_entries.deep_view() =~= nt_before.update(
                                    i as int,
                                    lv[k as int],
                                ));
                            }
                        },
                    }
                    proof {
                        assert(lv.take(k + 1).drop_last() =~= lv.take(k as int));
                        assert(lv.take(k + 1).last() == lv[k as int]);
                        assert(new_entries.deep_view() =~= rebuild(lv.take(k + 1)));
                    }
                    k += 1;
                }
                proof {
                    assert(lv.take(k as int) =~= lv);
                }
                let ghost new_tv = new_entries.deep_view();
                // Stops: old entries whose key vanished or whose uid changed.
                let mut i: usize = 0;
                proof {
                    assert(cmds.deep_view() =~= resync_stops(t0.take(0), new_tv));
                }
                while i < self.entries.len()
                    invariant
                        i <= self.entries.len(),
                        t0 == self.entries.deep_view(),
                        new_tv == new_entries.deep_view(),
                        cmds.deep_view() == resync_stops(t0.take(i as int), new_tv),
                    decreases self.entries.len() - i,
                {
                    let found = find_pod_index(&new_entries, &self.entries[i].namespace, &self.entries[i].name);
                    let emit: bool = match found {
                        None => true,
                        Some(j) => new_entries[j].uid != self.entries[i].uid,
                    };
                    proof {
                        assert(t0.take(i + 1).drop_last() =~= t0.take(i as int));
                        assert(t0.take(i + 1).last() == t0[i as int]);
                    }
                    if emit {
                        let stop_pod = pod_key_from(
                            &self.entries[i].namespace,
                            &self.entries[i].name,
                            &self.entries[i].uid,
                        );
                        cmds.push(PodCommand::StopPod { pod: stop_pod });
                    }
                    proof {
                        assert(cmds.deep_view() =~= resync_stops(t0.take(i + 1), new_tv));
                    }
                    i += 1;
                }
                proof {
                    assert(t0.take(self.entries.len() as int) =~= t0);
                }
                // Starts: new entries whose key is new or whose uid changed.
                let mut j: usize = 0;
                proof {
                    assert(new_tv.take(0) =~= Seq::<PodInfoView>::empty());
                    assert(cmds.deep_view() =~= resync_stops(t0, new_tv) + resync_starts(
                        t0,
                        new_tv.take(0),
                    ));
                }
                while j < new_entries.len()
                    invariant
                        j <= new_entries.len(),
                        t0 == self.entries.deep_view(),
                        new_tv == new_entries.deep_view(),
                        cmds.deep_view() == resync_stops(t0, new_tv) + resync_starts(
                            t0,
                            new_tv.take(j as int),
                        ),
                    decreases new_entries.len() - j,
                {
                    let found = find_pod_index(&self.entries, &new_entries[j].namespace, &new_entries[j].name);
                    let emit: bool = match found {
                        None => true,
                        Some(x) => self.entries[x].uid != new_entries[j].uid,
                    };
                    proof {
                        assert(new_tv.take(j + 1).drop_last() =~= new_tv.take(j as int));
                        assert(new_tv.take(j + 1).last() == new_tv[j as int]);
                    }
                    let ghost cmds_before = cmds.deep_view();
                    if emit && new_entries[j].containers.len() > 0 {
                        let pod = pod_key_from(
                            &new_entries[j].namespace,
                            &new_entries[j].name,
                            &new_entries[j].uid,
                        );
                        let containers = clone_string_vec(&new_entries[j].containers);
                        cmds.push(PodCommand::StartPod { pod, containers });
                        proof {
                            let e = new_tv[j as int];
                            assert(new_entries[j as int]@ == e);
                            assert(cmds.deep_view() =~= cmds_before.push(
                                PodCommandView::StartPod { pod: pod_key_of(e), containers: e.containers },
                            ));
                            assert(resync_starts(t0, new_tv.take(j + 1)) == resync_starts(
                                t0,
                                new_tv.take(j as int),
                            ) + start_commands(e));
                            assert(cmds_before.push(
                                PodCommandView::StartPod { pod: pod_key_of(e), containers: e.containers },
                            ) =~= resync_stops(t0, new_tv) + (resync_starts(t0, new_tv.take(j as int))
                                + start_commands(e)));
                        }
                    } else {
                        proof {
                            let e = new_tv[j as int];
                            assert(new_entries[j as int]@ == e);
                            if emit {
                                assert(start_commands(e) =~= Seq::<PodCommandView>::empty());
                                assert(resync_starts(t0, new_tv.take(j + 1)) =~= resync_starts(
                                    t0,
                                    new_tv.take(j as int),
                                ));
                            }
                        }
                    }
                    proof {
                        assert(cmds.deep_view() =~= resync_stops(t0, new_tv) + resync_starts(
                            t0,
                            new_tv.take(j + 1),
                        ));
                    }
                    j += 1;
                }
                proof {
                    assert(new_tv.take(new_entries.len() as int) =~= new_tv);
                }
                self.entries = new_entries;
            },
        }
        cmds
    }
}

} // verus!
