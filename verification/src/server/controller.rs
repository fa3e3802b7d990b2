//! The controller: the models it keeps, and for each of them what the driver
//! has going.
//!
//! The controller decides; it performs nothing. Its surroundings persist the
//! models, hand requests to the cloud back ends, wait, and report back what
//! happened. The controller answers each report with the next task.

use crate::clouds::Cloud;
use crate::ident::{to_text, uuid_text};
use crate::rune::v1::Rune;
use crate::server::error::{Error, ErrorView};
use crate::server::laws::{lemma_advance_keeps_ids_distinct, lemma_destroyed_stays};
use crate::server::model::{
    completed_view, Action, ActionView, Completed, CompletedView, Model, ModelStatus, ModelView, Queued, QueuedView,
};
use crate::text::same_text;
use vstd::prelude::*;

verus! {

/// What the driver has going for a model.
#[derive(Clone, Copy, Debug, PartialEq, Eq, Structural)]
pub enum Slot {
    /// A cloud back end works on the active request with this identifier.
    Running(u128),
    /// Nothing to do: the model is looked at again after a pause.
    Idle,
}

/// What the surroundings are to do next for a model: hand its active request,
/// named by `request`, to the back end `cloud`; or, without a request, pause
/// and report back.
#[derive(Clone, Copy, Debug, PartialEq, Eq, Structural)]
pub struct Task {
    pub model: u128,
    pub cloud: Cloud,
    pub request: Option<u128>,
}

/// The slot of a model whose log has just been advanced.
pub open spec fn slot_of(m: ModelView) -> Slot {
    match m.active {
        Some(a) => Slot::Running(a.id),
        None => Slot::Idle,
    }
}

/// The task for a model whose log has just been advanced.
pub open spec fn task_of(m: ModelView) -> Task {
    Task {
        model: m.id,
        cloud: m.cloud,
        request: match m.active {
            Some(a) => Some(a.id),
            None => None,
        },
    }
}

struct Entry {
    model: Model,
    slot: Option<Slot>,
}

/// The models in the order in which they were created, each with its slot.
/// A model without a slot is not in flight.
pub struct Controller {
    entries: Vec<Entry>,
}

pub struct ControllerView {
    pub models: Seq<ModelView>,
    pub slots: Seq<Option<Slot>>,
}

impl ControllerView {
    /// What holds of every controller: no two models share an identifier, no
    /// two live models share a name, no two requests of a model share an
    /// identifier, and a running slot names the active request of its model.
    pub open spec fn wf(self) -> bool {
        &&& self.slots.len() == self.models.len()
        &&& forall|i: int| 0 <= i < self.models.len() ==> (#[trigger] self.models[i]).ids_distinct()
        &&& forall|i: int, j: int|
            0 <= i < j < self.models.len() ==> (#[trigger] self.models[i]).id != (#[trigger] self.models[j]).id
        &&& forall|i: int, j: int|
            0 <= i < j < self.models.len() && !(#[trigger] self.models[i]).destroyed() && !(
            #[trigger] self.models[j]).destroyed() ==> self.models[i].name != self.models[j].name
        &&& forall|i: int|
            0 <= i < self.models.len() ==> ((#[trigger] self.slots[i]) matches Some(Slot::Running(r))
                ==> (self.models[i].active matches Some(a) && a.id == r))
    }

    /// Whether a model has the identifier `id`.
    pub open spec fn has_model(self, id: u128) -> bool {
        exists|i: int| 0 <= i < self.models.len() && (#[trigger] self.models[i]).id == id
    }

    /// The place of the model with the identifier `id`.
    pub open spec fn index_of(self, id: u128) -> int {
        choose|i: int| 0 <= i < self.models.len() && (#[trigger] self.models[i]).id == id
    }

    /// The model with the identifier `id`.
    pub open spec fn model(self, id: u128) -> ModelView {
        self.models[self.index_of(id)]
    }

    /// The slot of the model with the identifier `id`.
    pub open spec fn slot(self, id: u128) -> Option<Slot> {
        self.slots[self.index_of(id)]
    }

    /// Whether a live model has the name `name`.
    pub open spec fn name_taken(self, name: Seq<char>) -> bool {
        exists|i: int|
            0 <= i < self.models.len() && (#[trigger] self.models[i]).name == name
                && !self.models[i].destroyed()
    }

    /// Whether `e` is the error with which a request for the model with the
    /// identifier `id` is refused: no model has that identifier, or the model
    /// has been destroyed, or the identifier of the request belongs to one of
    /// its requests already.
    pub open spec fn refuses(self, id: u128, e: ErrorView) -> bool {
        if !self.has_model(id) {
            e == ErrorView::ModelLoad(id)
        } else if self.model(id).destroyed() {
            e == ErrorView::ModelAlreadyDeleted(id)
        } else {
            e matches ErrorView::RequestAlreadyExists(r) && self.model(id).request_ids().contains(r)
        }
    }

    /// The controller with one more model, which is not in flight.
    pub open spec fn add(self, m: ModelView) -> ControllerView {
        ControllerView { models: self.models.push(m), slots: self.slots.push(None) }
    }

    /// The controller after the log of the model with the identifier `id` has
    /// been advanced and its slot set to fit.
    pub open spec fn next(self, id: u128, completed: Option<CompletedView>, now: u128) -> ControllerView {
        let m = self.model(id).advance(completed, now);
        self.put(id, m, Some(slot_of(m)))
    }

    /// The controller with `m` and `slot` in the place of the model with the
    /// identifier `id`.
    pub open spec fn put(self, id: u128, m: ModelView, slot: Option<Slot>) -> ControllerView {
        ControllerView {
            models: self.models.update(self.index_of(id), m),
            slots: self.slots.update(self.index_of(id), slot),
        }
    }
}

/// The controller that holds the models `models`, none of them in flight.
pub open spec fn stored(models: Seq<ModelView>) -> ControllerView {
    ControllerView { models, slots: Seq::new(models.len(), |i: int| None::<Slot>) }
}

/// What looking at a model does to it and to its slot when the driver goes
/// round: a model in flight loses its slot once its status is destroyed; a
/// model that is not in flight and has not been destroyed has its log advanced
/// and gets the slot that fits.
pub open spec fn rehydrated(m: ModelView, slot: Option<Slot>, now: u128) -> (ModelView, Option<Slot>) {
    match slot {
        Some(_) => if m.status() == ModelStatus::Destroyed {
            (m, None)
        } else {
            (m, slot)
        },
        None => if m.destroyed() {
            (m, None)
        } else {
            (m.advance(None, now), Some(slot_of(m.advance(None, now))))
        },
    }
}

/// The tasks that going round starts for the first `n` models, in their order:
/// one for each model that was not in flight and has not been destroyed.
pub open spec fn rehydrate_tasks(c: ControllerView, now: u128, n: int) -> Seq<Task>
    decreases n,
{
    if n <= 0 {
        Seq::empty()
    } else if c.slots[n - 1] is None && !c.models[n - 1].destroyed() {
        rehydrate_tasks(c, now, n - 1).push(task_of(c.models[n - 1].advance(None, now)))
    } else {
        rehydrate_tasks(c, now, n - 1)
    }
}

impl View for Controller {
    type V = ControllerView;

    closed spec fn view(&self) -> ControllerView {
        ControllerView {
            models: self.entries@.map_values(|e: Entry| e.model@),
            slots: self.entries@.map_values(|e: Entry| e.slot),
        }
    }
}

impl Controller {
    /// A controller without models.
    pub fn new() -> (r: Self)
        ensures
            r@.models.len() == 0,
            r@.slots.len() == 0,
            r@.wf(),
    {
        Controller { entries: Vec::new() }
    }

    /// The place of the model with the identifier `id`.
    fn find(&self, id: u128) -> (r: Option<usize>)
        ensures
            match r {
                Some(i) => {
                    &&& i < self.entries@.len()
                    &&& self.entries@[i as int].model.id == id
                    &&& self@.has_model(id)
                    &&& self@.wf() ==> self@.index_of(id) == i
                },
                None => !self@.has_model(id),
            },
    {
        let mut i: usize = 0;
        while i < self.entries.len()
            invariant
                i <= self.entries@.len(),
                forall|k: int| 0 <= k < i ==> self@.models[k].id != id,
            decreases self.entries@.len() - i,
        {
            if self.entries[i].model.id == id {
                assert(self@.models[i as int].id == id);
                return Some(i);
            }
            i += 1;
        }
        None
    }

    /// The identifiers of all models, in the order in which they were created.
    pub fn list_model_ids(&self) -> (r: Vec<u128>)
        ensures
            r@ == self@.models.map_values(|m: ModelView| m.id),
    {
        let mut ids: Vec<u128> = Vec::new();
        let mut i: usize = 0;
        while i < self.entries.len()
            invariant
                i <= self.entries@.len(),
                ids@ == self@.models.take(i as int).map_values(|m: ModelView| m.id),
            decreases self.entries@.len() - i,
        {
            proof {
                assert(self@.models.take(i + 1) == self@.models.take(i as int).push(self@.models[i as int]));
                assert(self@.models.take(i as int).push(self@.models[i as int]).map_values(|m: ModelView| m.id)
                    == self@.models.take(i as int).map_values(|m: ModelView| m.id).push(
                    self@.models[i as int].id,
                ));
            }
            ids.push(self.entries[i].model.id);
            i += 1;
        }
        proof {
            assert(self@.models.take(i as int) == self@.models);
        }
        ids
    }

    /// The identifier of the live model with the name `name`.
    pub fn lookup_by_name(&self, name: &str) -> (r: Option<u128>)
        ensures
            match r {
                Some(id) => {
                    &&& self@.has_model(id)
                    &&& self@.name_taken(name@)
                    &&& exists|i: int|
                        0 <= i < self@.models.len() && (#[trigger] self@.models[i]).id == id
                            && self@.models[i].name == name@ && !self@.models[i].destroyed()
                },
                None => !self@.name_taken(name@),
            },
    {
        let mut i: usize = 0;
        while i < self.entries.len()
            invariant
                i <= self.entries@.len(),
                forall|k: int|
                    0 <= k < i ==> !((#[trigger] self@.models[k]).name == name@ && !self@.models[k].destroyed()),
            decreases self.entries@.len() - i,
        {
            if same_text(self.entries[i].model.name.as_str(), name) && !self.entries[i].model.is_destroyed() {
                assert(self@.models[i as int].name == name@ && !self@.models[i as int].destroyed());
                return Some(self.entries[i].model.id);
            }
            i += 1;
        }
        None
    }

    /// The model with the identifier `id`.
    pub fn get_model(&self, id: u128) -> (r: Result<&Model, Error>)
        ensures
            match r {
                Ok(m) => self@.has_model(id) && m.id == id && (self@.wf() ==> m@ == self@.model(id)),
                Err(e) => !self@.has_model(id) && e@ == ErrorView::ModelLoad(id),
            },
    {
        match self.find(id) {
            Some(i) => Ok(&self.entries[i].model),
            None => Err(Error::ModelLoad(id)),
        }
    }

    /// The cloud back end of the model with the identifier `id`.
    pub fn get_cloud(&self, id: u128) -> (r: Result<Cloud, Error>)
        ensures
            match r {
                Ok(cloud) => self@.has_model(id) && (self@.wf() ==> cloud == self@.model(id).cloud),
                Err(e) => !self@.has_model(id) && e@ == ErrorView::ModelLoad(id),
            },
    {
        match self.find(id) {
            Some(i) => Ok(self.entries[i].model.cloud),
            None => Err(Error::ModelLoad(id)),
        }
    }

    /// What the driver has going for the model with the identifier `id`.
    pub fn get_slot(&self, id: u128) -> (r: Option<Slot>)
        ensures
            !self@.has_model(id) ==> r is None,
            self@.has_model(id) && self@.wf() ==> r == self@.slot(id),
    {
        match self.find(id) {
            Some(i) => self.entries[i].slot,
            None => None,
        }
    }

    /// Takes a model into the controller. Fails where a model has the same
    /// identifier, then where two requests of the model share an identifier,
    /// then where the model is live and a live model has its name.
    pub fn save_model(&mut self, model: Model) -> (r: Result<(), Error>)
        requires
            old(self)@.wf(),
        ensures
            final(self)@.wf(),
            match r {
                Ok(_) => {
                    &&& !old(self)@.has_model(model.id)
                    &&& model@.ids_distinct()
                    &&& model@.destroyed() || !old(self)@.name_taken(model@.name)
                    &&& final(self)@ == old(self)@.add(model@)
                },
                Err(e) => {
                    &&& final(self)@ == old(self)@
                    &&& if old(self)@.has_model(model.id) {
                        e@ == ErrorView::ModelAlreadyExists(uuid_text(model.id))
                    } else if !model@.ids_distinct() {
                        e@ matches ErrorView::RequestAlreadyExists(r) && model@.request_ids().contains(r)
                    } else {
                        &&& !model@.destroyed()
                        &&& old(self)@.name_taken(model@.name)
                        &&& e@ == ErrorView::ModelAlreadyExists(model@.name)
                    }
                },
            },
    {
        if self.find(model.id).is_some() {
            return Err(Error::ModelAlreadyExists(to_text(model.id)));
        }
        if let Some(request) = model.repeated_request() {
            return Err(Error::RequestAlreadyExists(request));
        }
        if !model.is_destroyed() && self.lookup_by_name(model.name.as_str()).is_some() {
            return Err(Error::ModelAlreadyExists(model.name));
        }
        proof {
            let e = Entry { model, slot: None };
            assert(self.entries@.push(e).map_values(|e: Entry| e.model@) == self.entries@.map_values(
                |e: Entry| e.model@,
            ).push(model@));
            assert(self.entries@.push(e).map_values(|e: Entry| e.slot) == self.entries@.map_values(
                |e: Entry| e.slot,
            ).push(None));
        }
        self.entries.push(Entry { model, slot: None });
        Ok(())
    }

    /// Takes all models of a store into a new controller, in their order. None
    /// of them is in flight. Fails at the first model that `save_model` refuses.
    pub fn restore(models: Vec<Model>) -> (r: Result<Self, Error>)
        ensures
            r is Ok <==> stored(models@.map_values(|m: Model| m@)).wf(),
            match r {
                Ok(c) => c@ == stored(models@.map_values(|m: Model| m@)),
                Err(e) => e@ is ModelAlreadyExists || e@ is RequestAlreadyExists,
            },
    {
        let mut c = Controller::new();
        let ghost all = models@;
        let ghost views = models@.map_values(|m: Model| m@);
        let mut rest = models;
        let total: usize = rest.len();
        proof {
            assert(c@.models =~= views.take(0));
            assert(c@.slots =~= Seq::new(0, |i: int| None::<Slot>));
        }
        let mut n: usize = 0;
        while rest.len() > 0
            invariant
                c@.wf(),
                views == all.map_values(|m: Model| m@),
                n + rest@.len() == all.len(),
                all == models@,
                all.len() == total,
                rest@ == all.subrange(n as int, all.len() as int),
                c@.models == views.take(n as int),
                c@.slots == Seq::new(n as nat, |i: int| None::<Slot>),
            decreases rest@.len(),
        {
            let ghost left = rest@;
            let m = rest.remove(0);
            proof {
                assert(m == all[n as int]);
                assert(views.take(n + 1) == views.take(n as int).push(m@));
                assert(Seq::new((n + 1) as nat, |i: int| None::<Slot>) =~= Seq::new(n as nat, |i: int| None::<Slot>).push(
                    None,
                ));
                assert(left.remove(0) =~= all.subrange(n + 1, all.len() as int));
            }
            let ghost kept = c@;
            match c.save_model(m) {
                Ok(_) => {},
                Err(e) => {
                    proof {
                        let full = stored(views);
                        assert(full.models[n as int] == m@);
                        if kept.has_model(m.id) {
                            let k = choose|k: int| 0 <= k < kept.models.len() && (#[trigger] kept.models[k]).id == m.id;
                            assert(full.models[k] == kept.models[k]);
                            assert(full.models[k].id == full.models[n as int].id);
                        } else if !m@.ids_distinct() {
                            assert(!full.models[n as int].ids_distinct());
                        } else {
                            let k = choose|k: int|
                                0 <= k < kept.models.len() && (#[trigger] kept.models[k]).name == m@.name
                                    && !kept.models[k].destroyed();
                            assert(full.models[k] == kept.models[k]);
                            assert(full.models[k].name == full.models[n as int].name);
                        }
                        assert(!full.wf());
                    }
                    return Err(e);
                },
            }
            n += 1;
        }
        proof {
            assert(views.take(n as int) == views);
            assert(c@.slots =~= stored(views).slots);
        }
        Ok(c)
    }

    /// Creates a model with the name `name` on the back end `cloud`, with an
    /// empty log and a fresh random identifier. Fails where a live model has
    /// that name, then where the identifier drawn is already in use.
    pub fn create_model(&mut self, cloud: Cloud, name: &str) -> (r: Result<Model, Error>)
        requires
            old(self)@.wf(),
        ensures
            final(self)@.wf(),
            match r {
                Ok(m) => {
                    &&& !old(self)@.name_taken(name@)
                    &&& !old(self)@.has_model(m.id)
                    &&& m@ == (ModelView {
                        id: m.id,
                        name: name@,
                        cloud,
                        backlog: Seq::empty(),
                        active: None,
                        history: Seq::empty(),
                    })
                    &&& final(self)@ == old(self)@.add(m@)
                },
                Err(e) => {
                    &&& final(self)@ == old(self)@
                    &&& if old(self)@.name_taken(name@) {
                        e@ == ErrorView::ModelAlreadyExists(name@)
                    } else {
                        exists|id: u128| old(self)@.has_model(id) && e@ == ErrorView::ModelAlreadyExists(uuid_text(id))
                    }
                },
            },
    {
        if self.lookup_by_name(name).is_some() {
            return Err(Error::ModelAlreadyExists(name.to_owned()));
        }
        let model = Model::with_name(name.to_owned(), cloud);
        let id = model.id;
        proof {
            assert(model@.backlog =~= Seq::empty());
            assert(model@.history =~= Seq::empty());
            assert(!model@.destroyed());
            assert(model@.request_ids() =~= Seq::empty());
        }
        match self.save_model(model) {
            Ok(_) => {
                let shown = Model {
                    id,
                    name: name.to_owned(),
                    cloud,
                    backlog: std::collections::VecDeque::new(),
                    active: None,
                    history: Vec::new(),
                };
                proof {
                    assert(shown@.backlog =~= Seq::empty());
                    assert(shown@.history =~= Seq::empty());
                }
                Ok(shown)
            },
            Err(e) => Err(e),
        }
    }

    /// Appends a request to the backlog of the model with the identifier
    /// `model_id`. Fails where no model has that identifier, where the model
    /// has been destroyed, and where one of its requests carries the
    /// identifier of the request already; the controller is then unchanged.
    pub fn add_to_backlog(&mut self, model_id: u128, queued: Queued) -> (r: Result<u128, Error>)
        requires
            old(self)@.wf(),
        ensures
            final(self)@.wf(),
            match r {
                Ok(id) => {
                    &&& old(self)@.has_model(model_id)
                    &&& !old(self)@.model(model_id).destroyed()
                    &&& !old(self)@.model(model_id).request_ids().contains(id)
                    &&& id == queued.id
                    &&& final(self)@ == old(self)@.put(
                        model_id,
                        old(self)@.model(model_id).append(queued@),
                        old(self)@.slot(model_id),
                    )
                },
                Err(e) => {
                    &&& final(self)@ == old(self)@
                    &&& old(self)@.refuses(model_id, e@)
                    &&& e@ is RequestAlreadyExists ==> e@ == ErrorView::RequestAlreadyExists(queued.id)
                },
            },
    {
        let i = match self.find(model_id) {
            Some(i) => i,
            None => {
                return Err(Error::ModelLoad(model_id));
            },
        };
        let ghost before = self@;
        let ghost entries = self.entries@;
        let r = self.entries[i].model.append(queued);
        proof {
            if r is Ok {
                let after = before.put(model_id, before.model(model_id).append(queued@), before.slot(model_id));
                assert(self.entries@[i as int].slot == entries[i as int].slot);
                assert(self@.models =~= after.models);
                assert(self@.slots =~= after.slots);
                assert(before.models[i as int].ids_distinct());
                lemma_append_keeps_wf(before, i as int, queued@);
            } else {
                assert(self.entries@ =~= entries);
            }
        }
        r
    }

    /// Queues a request for `action` at the time `now`, under a fresh random
    /// identifier, for the model with the identifier `id`. The identifier
    /// that is handed back is new to the model: a request whose identifier
    /// the model holds already is refused.
    pub fn update_model(&mut self, id: u128, action: Action, now: u128) -> (r: Result<u128, Error>)
        requires
            old(self)@.wf(),
        ensures
            final(self)@.wf(),
            match r {
                Ok(request) => {
                    &&& old(self)@.has_model(id)
                    &&& !old(self)@.model(id).destroyed()
                    &&& !old(self)@.model(id).request_ids().contains(request)
                    &&& final(self)@ == old(self)@.put(
                        id,
                        old(self)@.model(id).append(QueuedView { id: request, action: action@, queued: now }),
                        old(self)@.slot(id),
                    )
                },
                Err(e) => final(self)@ == old(self)@ && old(self)@.refuses(id, e@),
            },
    {
        let queued = Queued::from_action(action, now);
        self.add_to_backlog(id, queued)
    }

    /// Queues the destruction of the model with the identifier `id`.
    pub fn delete_model(&mut self, id: u128, now: u128) -> (r: Result<u128, Error>)
        requires
            old(self)@.wf(),
        ensures
            final(self)@.wf(),
            match r {
                Ok(request) => {
                    &&& old(self)@.has_model(id)
                    &&& !old(self)@.model(id).destroyed()
                    &&& !old(self)@.model(id).request_ids().contains(request)
                    &&& final(self)@ == old(self)@.put(
                        id,
                        old(self)@.model(id).append(
                            QueuedView { id: request, action: ActionView::DestroyModel, queued: now },
                        ),
                        old(self)@.slot(id),
                    )
                },
                Err(e) => final(self)@ == old(self)@ && old(self)@.refuses(id, e@),
            },
    {
        self.update_model(id, Action::DestroyModel, now)
    }

    /// Queues the attachment of `rune` under the name `name` to the model with
    /// the identifier `id`.
    pub fn add_rune(&mut self, id: u128, name: String, rune: Rune, now: u128) -> (r: Result<u128, Error>)
        requires
            old(self)@.wf(),
        ensures
            final(self)@.wf(),
            match r {
                Ok(request) => {
                    &&& old(self)@.has_model(id)
                    &&& !old(self)@.model(id).destroyed()
                    &&& !old(self)@.model(id).request_ids().contains(request)
                    &&& final(self)@ == old(self)@.put(
                        id,
                        old(self)@.model(id).append(
                            QueuedView {
                                id: request,
                                action: ActionView::AddRune { name: name@, rune: rune@ },
                                queued: now,
                            },
                        ),
                        old(self)@.slot(id),
                    )
                },
                Err(e) => final(self)@ == old(self)@ && old(self)@.refuses(id, e@),
            },
    {
        self.update_model(id, Action::AddRune { name, rune }, now)
    }
    /// Advances the log of the model with the identifier `model_id` at the
    /// time `now` and says what to do next for it. A completed request must be
    /// the active request of the model, completed. Fails where no model has
    /// that identifier, and where the model has been destroyed; the controller
    /// is then unchanged.
    pub fn get_next_task(&mut self, model_id: u128, completed: Option<Completed>, now: u128) -> (r: Result<
        Task,
        Error,
    >)
        requires
            old(self)@.wf(),
            old(self)@.has_model(model_id) ==> (completed matches Some(c) ==> (old(self)@.model(
                model_id,
            ).active matches Some(a) && a.id == c.id)),
        ensures
            final(self)@.wf(),
            match r {
                Ok(task) => {
                    &&& old(self)@.has_model(model_id)
                    &&& !old(self)@.model(model_id).destroyed()
                    &&& final(self)@ == old(self)@.next(model_id, completed_view(completed), now)
                    &&& task == task_of(final(self)@.model(model_id))
                },
                Err(e) => {
                    &&& final(self)@ == old(self)@
                    &&& if old(self)@.has_model(model_id) {
                        old(self)@.model(model_id).destroyed() && e@ == ErrorView::ModelAlreadyDeleted(model_id)
                    } else {
                        e@ == ErrorView::ModelLoad(model_id)
                    }
                },
            },
    {
        let i = match self.find(model_id) {
            Some(i) => i,
            None => {
                return Err(Error::ModelLoad(model_id));
            },
        };
        if self.entries[i].model.is_destroyed() {
            return Err(Error::ModelAlreadyDeleted(model_id));
        }
        let ghost before = self@;
        let ghost entries = self.entries@;
        let ghost shown = completed_view(completed);
        let request = self.entries[i].model.advance(completed, now);
        self.entries[i].slot = Some(
            match request {
                Some(id) => Slot::Running(id),
                None => Slot::Idle,
            },
        );
        let task = Task { model: model_id, cloud: self.entries[i].model.cloud, request };
        proof {
            let after = before.next(model_id, shown, now);
            assert(self@.models =~= after.models);
            assert(self@.slots =~= after.slots);
            assert(before.models[i as int].ids_distinct());
            lemma_advance_keeps_wf(before, i as int, shown, now);
            assert(self@.models[i as int].id == model_id);
        }
        Ok(task)
    }

    /// One round of the driver over all models at the time `now`. A model in
    /// flight whose status is destroyed loses its slot: what runs for it is to
    /// be dropped. A model that is not in flight and has not been destroyed has
    /// its log advanced and gets a task. Returns the tasks in the order of the
    /// models.
    pub fn rehydrate(&mut self, now: u128) -> (tasks: Vec<Task>)
        requires
            old(self)@.wf(),
        ensures
            final(self)@.wf(),
            final(self)@.models.len() == old(self)@.models.len(),
            forall|i: int|
                0 <= i < old(self)@.models.len() ==> (#[trigger] final(self)@.models[i], final(self)@.slots[i])
                    == rehydrated(old(self)@.models[i], old(self)@.slots[i], now),
            tasks@ == rehydrate_tasks(old(self)@, now, old(self)@.models.len() as int),
    {
        let mut tasks: Vec<Task> = Vec::new();
        let ghost before = self@;
        let ghost entries = self.entries@;
        let mut i: usize = 0;
        while i < self.entries.len()
            invariant
                before.wf(),
                before.models == entries.map_values(|e: Entry| e.model@),
                before.slots == entries.map_values(|e: Entry| e.slot),
                self.entries@.len() == entries.len(),
                i <= entries.len(),
                forall|k: int|
                    0 <= k < i ==> (#[trigger] self.entries@[k].model@, self.entries@[k].slot) == rehydrated(
                        before.models[k],
                        before.slots[k],
                        now,
                    ),
                forall|k: int| i <= k < entries.len() ==> #[trigger] self.entries@[k] == entries[k],
                tasks@ == rehydrate_tasks(before, now, i as int),
            decreases entries.len() - i,
        {
            let ghost current = self.entries@;
            assert(current[i as int] == entries[i as int]);
            match self.entries[i].slot {
                Some(_) => {
                    if self.entries[i].model.get_status() == ModelStatus::Destroyed {
                        self.entries[i].slot = None;
                    }
                },
                None => {
                    if !self.entries[i].model.is_destroyed() {
                        let request = self.entries[i].model.advance(None, now);
                        self.entries[i].slot = Some(
                            match request {
                                Some(id) => Slot::Running(id),
                                None => Slot::Idle,
                            },
                        );
                        tasks.push(
                            Task {
                                model: self.entries[i].model.id,
                                cloud: self.entries[i].model.cloud,
                                request,
                            },
                        );
                    }
                },
            }
            proof {
                assert forall|k: int| 0 <= k < i implies (#[trigger] self.entries@[k].model@, self.entries@[k].slot)
                    == rehydrated(before.models[k], before.slots[k], now) by {
                    assert(self.entries@[k] == current[k]);
                }
                assert forall|k: int| i < k < entries.len() implies #[trigger] self.entries@[k] == entries[k] by {
                    assert(self.entries@[k] == current[k]);
                }
            }
            i += 1;
        }
        proof {
            assert forall|k: int| 0 <= k < before.models.len() implies (#[trigger] self@.models[k], self@.slots[k])
                == rehydrated(before.models[k], before.slots[k], now) by {
                assert((self.entries@[k].model@, self.entries@[k].slot) == rehydrated(
                    before.models[k],
                    before.slots[k],
                    now,
                ));
            }
            lemma_rehydrate_keeps_wf(before, self@, now);
        }
        tasks
    }

    /// Takes the report of what was running for the model with the identifier
    /// `model_id` and says what to do next for it. A request that a back end
    /// has carried out joins the history; a failure drops the active request,
    /// which does not reach the history; after a pause nothing is to be
    /// recorded. In each case the next queued request starts, if there is one.
    pub fn complete(&mut self, model_id: u128, result: Result<Option<Completed>, Error>, now: u128) -> (r:
        Result<Task, Error>)
        requires
            old(self)@.wf(),
            old(self)@.has_model(model_id) ==> (result matches Ok(Some(c)) ==> (old(self)@.model(
                model_id,
            ).active matches Some(a) && a.id == c.id)),
        ensures
            final(self)@.wf(),
            match r {
                Ok(task) => {
                    &&& old(self)@.has_model(model_id)
                    &&& !old(self)@.model(model_id).destroyed()
                    &&& final(self)@ == old(self)@.next(
                        model_id,
                        match result {
                            Ok(completed) => completed_view(completed),
                            Err(_) => None,
                        },
                        now,
                    )
                    &&& task == task_of(final(self)@.model(model_id))
                },
                Err(e) => {
                    &&& final(self)@ == old(self)@
                    &&& if old(self)@.has_model(model_id) {
                        old(self)@.model(model_id).destroyed() && e@ == ErrorView::ModelAlreadyDeleted(model_id)
                    } else {
                        e@ == ErrorView::ModelLoad(model_id)
                    }
                },
            },
    {
        let completed = match result {
            Ok(completed) => completed,
            Err(_) => None,
        };
        self.get_next_task(model_id, completed, now)
    }
}

/// Appending to the backlog of one model keeps a controller well formed.
proof fn lemma_append_keeps_wf(c: ControllerView, i: int, q: QueuedView)
    requires
        c.wf(),
        0 <= i < c.models.len(),
        c.models[i].append(q).ids_distinct(),
    ensures
        (ControllerView { models: c.models.update(i, c.models[i].append(q)), slots: c.slots }).wf(),
{
    let after = ControllerView { models: c.models.update(i, c.models[i].append(q)), slots: c.slots };
    assert forall|k: int| 0 <= k < after.models.len() implies (#[trigger] after.models[k]).destroyed()
        == c.models[k].destroyed() && after.models[k].id == c.models[k].id && after.models[k].name
        == c.models[k].name && after.models[k].active == c.models[k].active && after.models[k].ids_distinct() by {
        assert(c.models[k].ids_distinct());
    }
}

/// Advancing the log of one live model keeps a controller well formed.
proof fn lemma_advance_keeps_wf(c: ControllerView, i: int, completed: Option<CompletedView>, now: u128)
    requires
        c.wf(),
        0 <= i < c.models.len(),
        c.models[i].advance(completed, now).ids_distinct(),
    ensures
        (ControllerView {
            models: c.models.update(i, c.models[i].advance(completed, now)),
            slots: c.slots.update(i, Some(slot_of(c.models[i].advance(completed, now)))),
        }).wf(),
{
    let m = c.models[i].advance(completed, now);
    let after = ControllerView { models: c.models.update(i, m), slots: c.slots.update(i, Some(slot_of(m))) };
    assert forall|k: int| 0 <= k < after.models.len() implies (#[trigger] after.models[k]).id == c.models[k].id
        && after.models[k].name == c.models[k].name && (c.models[k].destroyed() ==> after.models[k].destroyed())
        && after.models[k].ids_distinct() by {
        assert(c.models[k].ids_distinct());
        if k == i && c.models[k].destroyed() {
            lemma_destroyed_stays(c.models[i], arbitrary(), completed, now);
        }
    }
    assert forall|a: int, b: int|
        0 <= a < b < after.models.len() && !(#[trigger] after.models[a]).destroyed() && !(
        #[trigger] after.models[b]).destroyed() implies after.models[a].name != after.models[b].name by {
        assert(!c.models[a].destroyed() && !c.models[b].destroyed());
    }
}

/// One round of the driver keeps a controller well formed.
proof fn lemma_rehydrate_keeps_wf(c: ControllerView, after: ControllerView, now: u128)
    requires
        c.wf(),
        after.models.len() == c.models.len(),
        after.slots.len() == c.slots.len(),
        forall|i: int|
            0 <= i < c.models.len() ==> (#[trigger] after.models[i], after.slots[i]) == rehydrated(
                c.models[i],
                c.slots[i],
                now,
            ),
    ensures
        after.wf(),
{
    assert forall|k: int| 0 <= k < after.models.len() implies (#[trigger] after.models[k]).id == c.models[k].id
        && after.models[k].name == c.models[k].name && after.models[k].destroyed() == c.models[k].destroyed()
        && ((#[trigger] after.slots[k]) matches Some(Slot::Running(r)) ==> (after.models[k].active matches Some(a)
        && a.id == r)) && after.models[k].ids_distinct() by {
        assert((after.models[k], after.slots[k]) == rehydrated(c.models[k], c.slots[k], now));
        assert(c.models[k].ids_distinct());
        lemma_advance_keeps_ids_distinct(c.models[k], None, now);
        assert(c.models[k].advance(None, now).history == c.models[k].history);
        assert(c.slots[k] matches Some(Slot::Running(r)) ==> (c.models[k].active matches Some(a) && a.id == r));
    }
    assert forall|a: int, b: int|
        0 <= a < b < after.models.len() && !(#[trigger] after.models[a]).destroyed() && !(
        #[trigger] after.models[b]).destroyed() implies after.models[a].name != after.models[b].name by {
        assert(!c.models[a].destroyed() && !c.models[b].destroyed());
    }
}

} // verus!
