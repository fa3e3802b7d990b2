//! What holds of every model and its request log, whatever is done to it.

use crate::api::v1::{derive_state, shown_requests, ModelStateView, RequestView};
use crate::server::controller::{rehydrated, ControllerView, Slot};
use crate::server::model::{status_of, ActiveView, CompletedView, ModelStatus, ModelView, Phase, QueuedView};
use vstd::prelude::*;

verus! {

/// Whether a shown request is active: started and not completed.
pub open spec fn is_active(r: RequestView) -> bool {
    r.started is Some && r.completed is None
}

/// Whether `a` stands before `b` in `ids`.
pub open spec fn before(ids: Seq<u128>, a: u128, b: u128) -> bool {
    exists|i: int, j: int| 0 <= i < j < ids.len() && ids[i] == a && ids[j] == b
}

/// The identifiers of the completed requests of a model, in their order.
pub open spec fn history_ids(m: ModelView) -> Seq<u128> {
    m.history.map_values(|c: CompletedView| c.id)
}

/// The identifiers of the queued requests of a model, in their order.
pub open spec fn backlog_ids(m: ModelView) -> Seq<u128> {
    m.backlog.map_values(|q: QueuedView| q.id)
}

/// The identifier of the active request of a model, as a list.
pub open spec fn active_ids(m: ModelView) -> Seq<u128> {
    match m.active {
        Some(a) => seq![a.id],
        None => Seq::<u128>::empty(),
    }
}

/// An active request as it was while it waited.
pub open spec fn queued_of(a: ActiveView) -> QueuedView {
    QueuedView { id: a.id, action: a.action, queued: a.queued }
}

/// The requests of a model that are not completed, in their order: the
/// active request as it was while it waited, then the backlog.
pub open spec fn pending(m: ModelView) -> Seq<QueuedView> {
    (match m.active {
        Some(a) => seq![queued_of(a)],
        None => Seq::<QueuedView>::empty(),
    }) + m.backlog
}

/// At most one request of a model is active: of any two requests that are
/// shown, one at least is completed or not started.
pub proof fn lemma_at_most_one_active(m: ModelView, i: int, j: int)
    requires
        0 <= i < j < shown_requests(m).len(),
    ensures
        !(is_active(shown_requests(m)[i]) && is_active(shown_requests(m)[j])),
{
    let h = m.history.len() as int;
    if i < h {
        assert(shown_requests(m)[i].completed is Some);
    } else {
        assert(m.active is Some ==> j >= h + 1);
        assert(shown_requests(m)[j].started is None);
    }
}

/// The shown requests carry the identifiers of the log, in the same order.
pub proof fn lemma_shown_ids(m: ModelView)
    ensures
        shown_requests(m).map_values(|r: RequestView| r.id) == m.request_ids(),
{
    assert(shown_requests(m).map_values(|r: RequestView| r.id) =~= m.request_ids());
}

/// The identifiers of a model after a request has been appended: those from
/// before, then the new one.
pub proof fn lemma_append_ids(m: ModelView, q: QueuedView)
    ensures
        m.append(q).request_ids() == m.request_ids().push(q.id),
{
    assert(m.append(q).request_ids() =~= m.request_ids().push(q.id));
}

/// The identifiers of a model after its log has advanced. With a completed
/// request that is the active one, they are those from before, in the same
/// order; without one, the active request is gone and the others keep their
/// order.
pub proof fn lemma_advance_ids(m: ModelView, completed: Option<CompletedView>, now: u128)
    requires
        completed matches Some(c) ==> (m.active matches Some(a) && a.id == c.id),
    ensures
        completed is Some ==> m.advance(completed, now).request_ids() == m.request_ids(),
        completed is None ==> m.advance(completed, now).request_ids() == history_ids(m) + backlog_ids(m),
{
    let n = m.advance(completed, now);
    if completed is Some {
        assert(n.request_ids() =~= m.request_ids());
    } else {
        assert(n.request_ids() =~= history_ids(m) + backlog_ids(m));
    }
}

/// Appending a request under an identifier that the model does not hold
/// keeps the identifiers of the model distinct.
pub proof fn lemma_append_keeps_ids_distinct(m: ModelView, q: QueuedView)
    requires
        m.ids_distinct(),
        !m.request_ids().contains(q.id),
    ensures
        m.append(q).ids_distinct(),
{
    lemma_append_ids(m, q);
    let ids = m.request_ids();
    let next = ids.push(q.id);
    assert forall|i: int, j: int| 0 <= i < next.len() && 0 <= j < next.len() && i != j implies next[i]
        != next[j] by {
        if i < ids.len() && j < ids.len() {
            assert(ids[i] != ids[j]);
        } else if i < ids.len() {
            assert(ids.contains(ids[i]));
        } else {
            assert(ids.contains(ids[j]));
        }
    }
}

/// Advancing the log keeps the identifiers of the model distinct.
pub proof fn lemma_advance_keeps_ids_distinct(m: ModelView, completed: Option<CompletedView>, now: u128)
    requires
        m.ids_distinct(),
        completed matches Some(c) ==> (m.active matches Some(a) && a.id == c.id),
    ensures
        m.advance(completed, now).ids_distinct(),
{
    lemma_advance_ids(m, completed, now);
    if completed is None {
        let ids = m.request_ids();
        let next = history_ids(m) + backlog_ids(m);
        let h = history_ids(m).len() as int;
        let a = active_ids(m).len() as int;
        assert forall|i: int, j: int| 0 <= i < next.len() && 0 <= j < next.len() && i != j implies next[i]
            != next[j] by {
            let pi = if i < h {
                i
            } else {
                i + a
            };
            let pj = if j < h {
                j
            } else {
                j + a
            };
            assert(next[i] == ids[pi]);
            assert(next[j] == ids[pj]);
            assert(ids[pi] != ids[pj]);
        }
    }
}

/// In a model with distinct identifiers no completed request shares its
/// identifier with another completed request, with the active request or
/// with a queued request, and the active request shares its identifier with
/// no queued request.
pub proof fn lemma_distinct_ids_apart(m: ModelView)
    requires
        m.ids_distinct(),
    ensures
        history_ids(m).no_duplicates(),
        forall|i: int, j: int|
            0 <= i < m.history.len() && 0 <= j < m.backlog.len() ==> (#[trigger] m.history[i]).id != (
            #[trigger] m.backlog[j]).id,
        forall|i: int|
            0 <= i < m.history.len() ==> (m.active matches Some(a) ==> (#[trigger] m.history[i]).id != a.id),
        forall|j: int|
            0 <= j < m.backlog.len() ==> (m.active matches Some(a) ==> (#[trigger] m.backlog[j]).id != a.id),
{
    let ids = m.request_ids();
    let h = m.history.len() as int;
    let a = active_ids(m).len() as int;
    assert forall|i: int, j: int| 0 <= i < h && 0 <= j < h && i != j implies history_ids(m)[i]
        != history_ids(m)[j] by {
        assert(ids[i] == history_ids(m)[i]);
        assert(ids[j] == history_ids(m)[j]);
    }
    assert forall|i: int, j: int| 0 <= i < m.history.len() && 0 <= j < m.backlog.len() implies (
    #[trigger] m.history[i]).id != (#[trigger] m.backlog[j]).id by {
        assert(ids[i] == m.history[i].id);
        assert(ids[h + a + j] == m.backlog[j].id);
    }
    assert forall|i: int| 0 <= i < m.history.len() implies (m.active matches Some(x) ==> (
    #[trigger] m.history[i]).id != x.id) by {
        if m.active is Some {
            assert(ids[i] == m.history[i].id);
            assert(ids[h] == m.active->0.id);
        }
    }
    assert forall|j: int| 0 <= j < m.backlog.len() implies (m.active matches Some(x) ==> (
    #[trigger] m.backlog[j]).id != x.id) by {
        if m.active is Some {
            assert(ids[h + a + j] == m.backlog[j].id);
            assert(ids[h] == m.active->0.id);
        }
    }
}

/// A model that has been destroyed stays so: appending does not revive it,
/// and neither does advancing its log.
pub proof fn lemma_destroyed_stays(m: ModelView, q: QueuedView, completed: Option<CompletedView>, now: u128)
    requires
        m.destroyed(),
    ensures
        m.append(q).destroyed(),
        m.advance(completed, now).destroyed(),
{
    let i = choose|i: int| 0 <= i < m.history.len() && (#[trigger] m.history[i]).action is DestroyModel;
    assert(m.append(q).history[i].action is DestroyModel);
    assert(m.advance(completed, now).history[i].action is DestroyModel);
}

/// A request that is appended comes after every request that the model holds.
pub proof fn lemma_append_comes_last(m: ModelView, q: QueuedView, a: u128)
    requires
        m.request_ids().contains(a),
    ensures
        before(m.append(q).request_ids(), a, q.id),
{
    lemma_append_ids(m, q);
    let ids = m.request_ids();
    let i = choose|i: int| 0 <= i < ids.len() && ids[i] == a;
    let next = ids.push(q.id);
    assert(next[i] == a && next[ids.len() as int] == q.id);
}

/// Appending a request keeps the order of the requests that the model holds.
pub proof fn lemma_append_keeps_order(m: ModelView, q: QueuedView, a: u128, b: u128)
    requires
        before(m.request_ids(), a, b),
    ensures
        before(m.append(q).request_ids(), a, b),
{
    lemma_append_ids(m, q);
    let ids = m.request_ids();
    let (i, j) = choose|i: int, j: int| 0 <= i < j < ids.len() && ids[i] == a && ids[j] == b;
    let next = ids.push(q.id);
    assert(next[i] == a && next[j] == b);
}

/// Advancing the log keeps the order of the requests that stay: of two
/// requests, neither of them the active request that is dropped, the one that
/// stood before the other still does.
pub proof fn lemma_advance_keeps_order(
    m: ModelView,
    completed: Option<CompletedView>,
    now: u128,
    a: u128,
    b: u128,
)
    requires
        m.ids_distinct(),
        completed matches Some(c) ==> (m.active matches Some(x) && x.id == c.id),
        before(m.request_ids(), a, b),
        completed is None ==> (m.active matches Some(x) ==> x.id != a && x.id != b),
    ensures
        before(m.advance(completed, now).request_ids(), a, b),
{
    lemma_advance_ids(m, completed, now);
    if completed is None {
        let ids = m.request_ids();
        let next = history_ids(m) + backlog_ids(m);
        let h = history_ids(m).len() as int;
        let k = active_ids(m).len() as int;
        let (i, j) = choose|i: int, j: int| 0 <= i < j < ids.len() && ids[i] == a && ids[j] == b;
        let ni = if i < h {
            i
        } else {
            i - k
        };
        let nj = if j < h {
            j
        } else {
            j - k
        };
        assert(k == 1 ==> i != h && j != h) by {
            if k == 1 {
                assert(ids[h] == m.active->0.id);
            }
        }
        assert(next[ni] == a);
        assert(next[nj] == b);
        assert(0 <= ni < nj < next.len());
    }
}

/// Of two completed requests, the one that stood before the other among the
/// requests of the model stands before it in the history.
pub proof fn lemma_history_keeps_order(m: ModelView, a: u128, b: u128)
    requires
        m.ids_distinct(),
        before(m.request_ids(), a, b),
        history_ids(m).contains(a),
        history_ids(m).contains(b),
    ensures
        before(history_ids(m), a, b),
{
    let ids = m.request_ids();
    let hist = history_ids(m);
    let (i, j) = choose|i: int, j: int| 0 <= i < j < ids.len() && ids[i] == a && ids[j] == b;
    let pa = choose|p: int| 0 <= p < hist.len() && hist[p] == a;
    let pb = choose|p: int| 0 <= p < hist.len() && hist[p] == b;
    assert(ids[pa] == a);
    assert(ids[pb] == b);
    assert(pa == i);
    assert(pb == j);
}

/// Deriving the state twice from the same history gives the same state.
pub proof fn lemma_derivation_repeats(
    first: Seq<CompletedView>,
    second: Seq<CompletedView>,
    a: ModelStateView,
    b: ModelStateView,
)
    requires
        first == second,
        derive_state(first) == Ok::<ModelStateView, Seq<char>>(a),
        derive_state(second) == Ok::<ModelStateView, Seq<char>>(b),
    ensures
        a == b,
{
}

/// Starting the driver anew on what was stored loses no completed and no
/// queued request: a model that is looked at without being in flight keeps
/// its history, and so the state derived from it, and what then is active or
/// queued is the backlog from before, in its order.
pub proof fn lemma_restart_keeps_history_and_backlog(m: ModelView, now: u128)
    ensures
        rehydrated(m, None, now).0.history == m.history,
        derive_state(rehydrated(m, None, now).0.history) == derive_state(m.history),
        !m.destroyed() ==> pending(rehydrated(m, None, now).0) == m.backlog,
        m.destroyed() ==> rehydrated(m, None, now).0 == m,
{
    if !m.destroyed() {
        let n = m.advance(None, now);
        assert(pending(n) =~= m.backlog);
    }
}

/// A controller runs at most one call per model: each identifier belongs to
/// one model, each model has one slot, and a running slot names the active
/// request of its model.
pub proof fn lemma_one_call_per_model(c: ControllerView, i: int, j: int)
    requires
        c.wf(),
        0 <= i < c.models.len(),
        0 <= j < c.models.len(),
        c.models[i].id == c.models[j].id,
    ensures
        i == j,
        c.slots[i] matches Some(Slot::Running(r)) ==> (c.models[i].active matches Some(a) && a.id == r),
{
    if i < j {
        assert(c.models[i].id != c.models[j].id);
    }
    if j < i {
        assert(c.models[j].id != c.models[i].id);
    }
}

/// Whether the completed requests stand in the order of the times at which
/// they were completed.
pub open spec fn chronological(history: Seq<CompletedView>) -> bool {
    forall|i: int, j: int| 0 <= i <= j < history.len() ==> history[i].completed <= history[j].completed
}

/// The history only grows at its end: what was completed stays where it is.
/// With a request that was completed no earlier than the last one before it,
/// a history in the order of time stays in that order.
pub proof fn lemma_history_grows(m: ModelView, completed: Option<CompletedView>, now: u128)
    ensures
        m.history.is_prefix_of(m.advance(completed, now).history),
        completed is None ==> m.advance(completed, now).history == m.history,
        completed matches Some(c) ==> m.advance(completed, now).history == m.history.push(c),
        chronological(m.history) && (completed matches Some(c) ==> (m.history.len() > 0
            ==> m.history.last().completed <= c.completed)) ==> chronological(
            m.advance(completed, now).history,
        ),
{
    let after = m.advance(completed, now).history;
    if chronological(m.history) && (completed matches Some(c) ==> (m.history.len() > 0
        ==> m.history.last().completed <= c.completed)) {
        assert forall|i: int, j: int| 0 <= i <= j < after.len() implies after[i].completed
            <= after[j].completed by {
            if j < m.history.len() {
                assert(m.history[i].completed <= m.history[j].completed);
            } else if i < m.history.len() {
                assert(m.history[i].completed <= m.history[m.history.len() - 1].completed);
            }
        }
    }
}

/// A request that has been appended is among the requests of the model, and
/// it stays among them when the log advances, unless it is the active request
/// and the log advances without its completion.
pub proof fn lemma_appended_request_is_seen(m: ModelView, q: QueuedView, completed: Option<CompletedView>, now: u128)
    requires
        completed matches Some(c) ==> (m.append(q).active matches Some(a) && a.id == c.id),
        completed is None ==> (m.active matches Some(a) ==> a.id != q.id),
    ensures
        m.append(q).request_ids().contains(q.id),
        m.append(q).advance(completed, now).request_ids().contains(q.id),
{
    lemma_append_ids(m, q);
    let ids = m.append(q).request_ids();
    assert(ids[ids.len() - 1] == q.id);
    lemma_advance_ids(m.append(q), completed, now);
    if completed is None {
        let next = history_ids(m.append(q)) + backlog_ids(m.append(q));
        assert(next[next.len() - 1] == q.id);
    }
}

/// How a model moves between its phases. A model without requests is idle.
/// Appending to an idle model gives it a backlog; appending to a model with a
/// backlog or with an active request leaves its phase. Advancing starts the
/// head of the backlog, so a model that is not destroyed is running
/// afterwards where it had a backlog, and idle where it had none. A model is
/// terminal exactly from the completion of a destruction on, and stays so.
pub proof fn lemma_phases(m: ModelView, q: QueuedView, completed: Option<CompletedView>, now: u128)
    ensures
        m.history.len() == 0 && m.active is None && m.backlog.len() == 0 ==> m.phase() == Phase::Idle,
        m.phase() == Phase::Idle ==> m.append(q).phase() == Phase::HasBacklog,
        m.phase() != Phase::Idle ==> m.append(q).phase() == m.phase(),
        m.phase() == Phase::Terminal ==> m.advance(completed, now).phase() == Phase::Terminal,
        m.phase() != Phase::Terminal && (completed matches Some(c) && c.action is DestroyModel) ==> m.advance(
            completed,
            now,
        ).phase() == Phase::Terminal,
        m.phase() != Phase::Terminal && !(completed matches Some(c) && c.action is DestroyModel) ==> m.advance(
            completed,
            now,
        ).phase() == (if m.backlog.len() > 0 {
            Phase::Running
        } else {
            Phase::Idle
        }),
{
    let after = m.advance(completed, now);
    if m.destroyed() {
        lemma_destroyed_stays(m, q, completed, now);
    } else {
        assert(!m.append(q).destroyed()) by {
            if m.append(q).destroyed() {
                let i = choose|i: int|
                    0 <= i < m.append(q).history.len() && (#[trigger] m.append(q).history[i]).action is DestroyModel;
                assert(m.history[i].action is DestroyModel);
            }
        }
        if completed matches Some(c) && c.action is DestroyModel {
            assert(after.history[m.history.len() as int].action is DestroyModel);
        } else {
            assert(!after.destroyed()) by {
                if after.destroyed() {
                    let i = choose|i: int|
                        0 <= i < after.history.len() && (#[trigger] after.history[i]).action is DestroyModel;
                    if i < m.history.len() {
                        assert(m.history[i].action is DestroyModel);
                    }
                }
            }
        }
    }
}

/// Whether nothing was completed after the model was destroyed: a
/// destruction, if there is one, is the last completed request.
pub open spec fn settled(m: ModelView) -> bool {
    forall|i: int|
        0 <= i < m.history.len() && (#[trigger] m.history[i]).action is DestroyModel ==> i == m.history.len() - 1
}

/// The status of a history follows its last request where that is a
/// destruction, and is not destroyed where no request is one.
proof fn lemma_status_of(history: Seq<CompletedView>)
    ensures
        history.len() > 0 && history.last().action is DestroyModel ==> status_of(history) == ModelStatus::Destroyed,
        (forall|i: int| 0 <= i < history.len() ==> !((#[trigger] history[i]).action is DestroyModel))
            ==> status_of(history) != ModelStatus::Destroyed,
    decreases history.len(),
{
    if history.len() > 0 {
        lemma_status_of(history.drop_last());
        if forall|i: int| 0 <= i < history.len() ==> !((#[trigger] history[i]).action is DestroyModel) {
            assert forall|i: int| 0 <= i < history.drop_last().len() implies !((
            #[trigger] history.drop_last()[i]).action is DestroyModel) by {
                assert(!(history[i].action is DestroyModel));
            }
            assert(!(history[history.len() - 1].action is DestroyModel));
        }
    }
}

/// On a settled model the two ways of asking whether it is destroyed agree:
/// its status is destroyed exactly where a completed request has destroyed
/// it.
pub proof fn lemma_settled_status(m: ModelView)
    requires
        settled(m),
    ensures
        m.status() == ModelStatus::Destroyed <==> m.destroyed(),
{
    lemma_status_of(m.history);
    if m.destroyed() {
        let i = choose|i: int| 0 <= i < m.history.len() && (#[trigger] m.history[i]).action is DestroyModel;
        assert(i == m.history.len() - 1);
    }
}

/// A model stays settled as long as the log of a destroyed model is not
/// advanced: appending keeps it settled, and so does advancing the log of a
/// model that has not been destroyed.
pub proof fn lemma_stays_settled(m: ModelView, q: QueuedView, completed: Option<CompletedView>, now: u128)
    requires
        settled(m),
    ensures
        settled(m.append(q)),
        !m.destroyed() ==> settled(m.advance(completed, now)),
{
    if !m.destroyed() {
        let after = m.advance(completed, now);
        assert forall|i: int| 0 <= i < after.history.len() && (#[trigger] after.history[i]).action
            is DestroyModel implies i == after.history.len() - 1 by {
            if i < m.history.len() {
                assert(m.history[i].action is DestroyModel);
            }
        }
    }
}

/// The status of a model is the status of the state that is derived from its
/// history, wherever the history adds up to a state.
pub proof fn lemma_status_is_derived(history: Seq<CompletedView>)
    ensures
        derive_state(history) matches Ok(state) ==> state.status == status_of(history),
    decreases history.len(),
{
    if history.len() > 0 {
        lemma_status_is_derived(history.drop_last());
    }
}

/// Of two requests of which one stands before the other, the later one is
/// started only once the earlier one is completed: where the later one is
/// active or completed, the earlier one is in the history.
pub proof fn lemma_started_in_order(m: ModelView, a: u128, b: u128)
    requires
        m.ids_distinct(),
        before(m.request_ids(), a, b),
        history_ids(m).contains(b) || active_ids(m).contains(b),
    ensures
        history_ids(m).contains(a),
{
    let ids = m.request_ids();
    let h = history_ids(m).len() as int;
    let (i, j) = choose|i: int, j: int| 0 <= i < j < ids.len() && ids[i] == a && ids[j] == b;
    if history_ids(m).contains(b) {
        let p = choose|p: int| 0 <= p < h && history_ids(m)[p] == b;
        assert(ids[p] == b);
        assert(p == j);
    } else {
        assert(ids[h] == b);
        assert(j == h);
    }
    assert(history_ids(m)[i] == a);
}

/// One thing that is done to the log of a model.
pub enum Step {
    /// A request is appended.
    Append(QueuedView),
    /// The log is advanced, with or without a completed request, at a time.
    Advance(Option<CompletedView>, u128),
}

/// Whether a step can be taken on a model: a request is appended to a model
/// that has not been destroyed, under an identifier that is new to it; a
/// completed request is the active one.
pub open spec fn allowed(m: ModelView, s: Step) -> bool {
    match s {
        Step::Append(q) => !m.destroyed() && !m.request_ids().contains(q.id),
        Step::Advance(completed, _) => completed matches Some(c) ==> (m.active matches Some(a) && a.id == c.id),
    }
}

/// Whether a step drops the request with the identifier `id`: it advances the
/// log without a completed request while that request is active.
pub open spec fn drops(m: ModelView, s: Step, id: u128) -> bool {
    s matches Step::Advance(None, _) && m.active matches Some(a) && a.id == id
}

/// The model after a step.
pub open spec fn step(m: ModelView, s: Step) -> ModelView {
    match s {
        Step::Append(q) => m.append(q),
        Step::Advance(completed, now) => m.advance(completed, now),
    }
}

/// The model after a run of steps.
pub open spec fn run(m: ModelView, steps: Seq<Step>) -> ModelView
    decreases steps.len(),
{
    if steps.len() == 0 {
        m
    } else {
        step(run(m, steps.drop_last()), steps.last())
    }
}

/// Whether every step of a run can be taken where it stands, and none drops
/// the request `a` or the request `b`.
pub open spec fn runs_with(m: ModelView, steps: Seq<Step>, a: u128, b: u128) -> bool
    decreases steps.len(),
{
    if steps.len() == 0 {
        true
    } else {
        let at = run(m, steps.drop_last());
        &&& runs_with(m, steps.drop_last(), a, b)
        &&& allowed(at, steps.last())
        &&& !drops(at, steps.last(), a)
        &&& !drops(at, steps.last(), b)
    }
}

/// The order of two requests holds over every run: where one request stands
/// before another, and neither is dropped on the way, it stands before the
/// other after any run of appending and advancing; and where the run brings
/// both into the history, it stands before the other there.
pub proof fn lemma_run_keeps_order(m: ModelView, steps: Seq<Step>, a: u128, b: u128)
    requires
        m.ids_distinct(),
        before(m.request_ids(), a, b),
        runs_with(m, steps, a, b),
    ensures
        run(m, steps).ids_distinct(),
        before(run(m, steps).request_ids(), a, b),
        history_ids(run(m, steps)).contains(a) && history_ids(run(m, steps)).contains(b) ==> before(
            history_ids(run(m, steps)),
            a,
            b,
        ),
    decreases steps.len(),
{
    if steps.len() > 0 {
        let at = run(m, steps.drop_last());
        lemma_run_keeps_order(m, steps.drop_last(), a, b);
        match steps.last() {
            Step::Append(q) => {
                lemma_append_keeps_ids_distinct(at, q);
                lemma_append_keeps_order(at, q, a, b);
            },
            Step::Advance(completed, now) => {
                lemma_advance_keeps_ids_distinct(at, completed, now);
                lemma_advance_keeps_order(at, completed, now, a, b);
            },
        }
    }
    let end = run(m, steps);
    if history_ids(end).contains(a) && history_ids(end).contains(b) {
        lemma_history_keeps_order(end, a, b);
    }
}

/// One round of work on a model whose back end succeeds, at a time: the
/// active request is completed and joins the history, and the next queued
/// request starts.
pub open spec fn work(m: ModelView, now: u128) -> ModelView {
    match m.active {
        Some(a) => m.advance(Some(CompletedView::from_active(a, now)), now),
        None => m.advance(None, now),
    }
}

/// The model after one round of work at each of the times, in their order.
pub open spec fn work_all(m: ModelView, times: Seq<u128>) -> ModelView
    decreases times.len(),
{
    if times.len() == 0 {
        m
    } else {
        work_all(work(m, times.first()), times.drop_first())
    }
}

/// Whether no request of a model, completed, active or queued, is a
/// destruction.
pub open spec fn quiet(m: ModelView) -> bool {
    &&& forall|i: int| 0 <= i < m.history.len() ==> !((#[trigger] m.history[i]).action is DestroyModel)
    &&& m.active matches Some(a) ==> !(a.action is DestroyModel)
    &&& forall|i: int| 0 <= i < m.backlog.len() ==> !((#[trigger] m.backlog[i]).action is DestroyModel)
}

/// A round of work on a model without destructions leaves it without
/// destructions, and so not destroyed: no round of work on it is refused.
pub proof fn lemma_work_keeps_quiet(m: ModelView, now: u128)
    requires
        quiet(m),
    ensures
        !m.destroyed(),
        quiet(work(m, now)),
{
    let after = work(m, now);
    assert forall|i: int| 0 <= i < after.history.len() implies !((#[trigger] after.history[i]).action
        is DestroyModel) by {
        if i < m.history.len() {
            assert(!(m.history[i].action is DestroyModel));
        }
    }
    assert forall|i: int| 0 <= i < after.backlog.len() implies !((#[trigger] after.backlog[i]).action
        is DestroyModel) by {
        assert(!(m.backlog[i + 1].action is DestroyModel));
    }
    if m.backlog.len() > 0 {
        assert(!(m.backlog[0].action is DestroyModel));
    }
}

/// A backlog is worked off in as many rounds as it has requests, and one
/// more: after that nothing is active and nothing is queued, and the history
/// holds every request of the model in the order in which they stood.
pub proof fn lemma_backlog_is_worked_off(m: ModelView, times: Seq<u128>)
    requires
        times.len() == m.backlog.len() + 1,
    ensures
        work_all(m, times).active is None,
        work_all(m, times).backlog.len() == 0,
        history_ids(work_all(m, times)) == m.request_ids(),
    decreases times.len(),
{
    reveal_with_fuel(work_all, 2);
    let now = times.first();
    let next = work(m, now);
    match m.active {
        Some(a) => {
            lemma_advance_ids(m, Some(CompletedView::from_active(a, now)), now);
        },
        None => {
            lemma_advance_ids(m, None, now);
            assert(history_ids(m) + backlog_ids(m) =~= m.request_ids());
        },
    }
    assert(next.request_ids() == m.request_ids());
    if m.backlog.len() == 0 {
        assert(times.drop_first().len() == 0);
        assert(next.active is None);
        assert(next.request_ids() =~= history_ids(next));
    } else {
        lemma_backlog_is_worked_off_rest(next, times.drop_first());
    }
}

/// The same for a model that is in the middle of its work: with a request
/// active, as many rounds as the backlog has requests, and one more, bring
/// every request into the history.
proof fn lemma_backlog_is_worked_off_rest(m: ModelView, times: Seq<u128>)
    requires
        m.active is Some,
        times.len() == m.backlog.len() + 1,
    ensures
        work_all(m, times).active is None,
        work_all(m, times).backlog.len() == 0,
        history_ids(work_all(m, times)) == m.request_ids(),
    decreases times.len(),
{
    reveal_with_fuel(work_all, 2);
    let now = times.first();
    let next = work(m, now);
    lemma_advance_ids(m, Some(CompletedView::from_active(m.active->0, now)), now);
    if m.backlog.len() == 0 {
        assert(times.drop_first().len() == 0);
        assert(next.request_ids() =~= history_ids(next));
    } else {
        lemma_backlog_is_worked_off_rest(next, times.drop_first());
    }
}

} // verus!
