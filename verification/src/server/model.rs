//! A model and its request log.
//!
//! A request is queued, then active, then completed. A model keeps the queued
//! requests in its backlog, at most one active request, and the completed
//! ones in its history, each in the order in which they came.

use crate::api::v1 as apiv1;
use crate::clouds::Cloud;
use crate::ident::{is_v4, new_v4, to_text};
use crate::rune::v1::{Rune, RuneView};
use crate::server::error::{Error, ErrorView};
use std::collections::VecDeque;
use vstd::prelude::*;

verus! {

/// What a request asks for.
#[derive(Clone, Debug, PartialEq)]
pub enum Action {
    CreateModel { name: String },
    ConfigureModel { foo: Option<String> },
    DestroyModel,
    AddRune { name: String, rune: Rune },
    ConfigureRune { name: String, attribute: String, value: String },
    RemoveRune { name: String },
}

pub enum ActionView {
    CreateModel { name: Seq<char> },
    ConfigureModel { foo: Option<Seq<char>> },
    DestroyModel,
    AddRune { name: Seq<char>, rune: RuneView },
    ConfigureRune { name: Seq<char>, attribute: Seq<char>, value: Seq<char> },
    RemoveRune { name: Seq<char> },
}

impl View for Action {
    type V = ActionView;

    open spec fn view(&self) -> ActionView {
        match self {
            Action::CreateModel { name } => ActionView::CreateModel { name: name@ },
            Action::ConfigureModel { foo } => ActionView::ConfigureModel { foo: foo.deep_view() },
            Action::DestroyModel => ActionView::DestroyModel,
            Action::AddRune { name, rune } => ActionView::AddRune { name: name@, rune: rune@ },
            Action::ConfigureRune { name, attribute, value } => ActionView::ConfigureRune {
                name: name@,
                attribute: attribute@,
                value: value@,
            },
            Action::RemoveRune { name } => ActionView::RemoveRune { name: name@ },
        }
    }
}

impl Action {
    /// The action as the interface shows it.
    pub fn into_api(&self) -> (r: apiv1::Action)
        ensures
            r@ == apiv1::shown_action(self@),
    {
        match self {
            Action::CreateModel { name } => apiv1::Action::CreateModel { name: name.clone() },
            Action::ConfigureModel { foo } => apiv1::Action::ConfigureModel { foo: foo.clone() },
            Action::DestroyModel => apiv1::Action::DestroyModel,
            Action::AddRune { name, rune } => apiv1::Action::AddRune {
                name: name.clone(),
                rune: rune.into_api(),
            },
            Action::ConfigureRune { name, attribute, value } => apiv1::Action::ConfigureRune {
                name: name.clone(),
                attribute: attribute.clone(),
                value: value.clone(),
            },
            Action::RemoveRune { name } => apiv1::Action::RemoveRune { name: name.clone() },
        }
    }

    /// Whether the action destroys the model.
    pub fn is_destroy(&self) -> (r: bool)
        ensures
            r == (self@ is DestroyModel),
    {
        match self {
            Action::DestroyModel => true,
            _ => false,
        }
    }
}

/// A request that waits in the backlog.
#[derive(Clone, Debug, PartialEq)]
pub struct Queued {
    pub id: u128,
    pub action: Action,
    pub queued: u128,
}

pub struct QueuedView {
    pub id: u128,
    pub action: ActionView,
    pub queued: u128,
}

impl View for Queued {
    type V = QueuedView;

    open spec fn view(&self) -> QueuedView {
        QueuedView { id: self.id, action: self.action@, queued: self.queued }
    }
}

impl Queued {
    /// A new request for `action`, queued at the time `queued`, under a fresh
    /// random identifier.
    pub fn from_action(action: Action, queued: u128) -> (r: Self)
        ensures
            r.action == action,
            r.queued == queued,
            is_v4(r.id),
    {
        Queued { id: new_v4(), action, queued }
    }
}

/// The request that a model is working on.
#[derive(Clone, Debug, PartialEq)]
pub struct Active {
    pub id: u128,
    pub action: Action,
    pub queued: u128,
    pub started: u128,
}

pub struct ActiveView {
    pub id: u128,
    pub action: ActionView,
    pub queued: u128,
    pub started: u128,
}

impl ActiveView {
    /// The queued request `q`, started at the time `started`.
    pub open spec fn from_queued(q: QueuedView, started: u128) -> ActiveView {
        ActiveView { id: q.id, action: q.action, queued: q.queued, started }
    }
}

impl View for Active {
    type V = ActiveView;

    open spec fn view(&self) -> ActiveView {
        ActiveView { id: self.id, action: self.action@, queued: self.queued, started: self.started }
    }
}

impl Active {
    /// The queued request, started at the time `started`.
    pub fn from_queued(queued: Queued, started: u128) -> (r: Self)
        ensures
            r.id == queued.id,
            r.action == queued.action,
            r.queued == queued.queued,
            r.started == started,
            r@ == ActiveView::from_queued(queued@, started),
    {
        Active { id: queued.id, action: queued.action, queued: queued.queued, started }
    }

    /// What the request asks for.
    pub fn get_action(&self) -> (r: &Action)
        ensures
            *r == self.action,
    {
        &self.action
    }
}

/// A request that a cloud back end has carried out.
#[derive(Clone, Debug, PartialEq)]
pub struct Completed {
    pub id: u128,
    pub action: Action,
    pub queued: u128,
    pub started: u128,
    pub completed: u128,
}

pub struct CompletedView {
    pub id: u128,
    pub action: ActionView,
    pub queued: u128,
    pub started: u128,
    pub completed: u128,
}

impl CompletedView {
    /// The active request `a`, completed at the time `completed`.
    pub open spec fn from_active(a: ActiveView, completed: u128) -> CompletedView {
        CompletedView { id: a.id, action: a.action, queued: a.queued, started: a.started, completed }
    }
}

impl View for Completed {
    type V = CompletedView;

    open spec fn view(&self) -> CompletedView {
        CompletedView {
            id: self.id,
            action: self.action@,
            queued: self.queued,
            started: self.started,
            completed: self.completed,
        }
    }
}

impl Completed {
    /// The active request, completed at the time `completed`.
    pub fn from_active(active: Active, completed: u128) -> (r: Self)
        ensures
            r.id == active.id,
            r.action == active.action,
            r.queued == active.queued,
            r.started == active.started,
            r.completed == completed,
            r@ == CompletedView::from_active(active@, completed),
    {
        Completed {
            id: active.id,
            action: active.action,
            queued: active.queued,
            started: active.started,
            completed,
        }
    }
}

/// The view of a completed request that may be missing.
pub open spec fn completed_view(completed: Option<Completed>) -> Option<CompletedView> {
    match completed {
        Some(c) => Some(c@),
        None => None,
    }
}

/// The configuration of a model.
#[derive(Clone, Debug, PartialEq)]
pub struct ModelConfig {
    pub foo: Option<String>,
}

pub struct ModelConfigView {
    pub foo: Option<Seq<char>>,
}

impl View for ModelConfig {
    type V = ModelConfigView;

    open spec fn view(&self) -> ModelConfigView {
        ModelConfigView { foo: self.foo.deep_view() }
    }
}

impl Default for ModelConfig {
    fn default() -> (r: Self)
        ensures
            r@ == (ModelConfigView { foo: None }),
    {
        ModelConfig { foo: None }
    }
}

/// How far a model has come.
#[derive(Clone, Copy, Debug, PartialEq, Eq, Structural)]
pub enum ModelStatus {
    Requested,
    Creating,
    Ready,
    Configuring,
    Destroyed,
}

impl Default for ModelStatus {
    fn default() -> (r: Self)
        ensures
            r == ModelStatus::Requested,
    {
        ModelStatus::Requested
    }
}

/// The status that a history adds up to: requested from the start, ready
/// after a completed creation, destroyed after a completed destruction; the
/// last of these decides.
pub open spec fn status_of(history: Seq<CompletedView>) -> ModelStatus
    decreases history.len(),
{
    if history.len() == 0 {
        ModelStatus::Requested
    } else {
        match history.last().action {
            ActionView::CreateModel { .. } => ModelStatus::Ready,
            ActionView::DestroyModel => ModelStatus::Destroyed,
            _ => status_of(history.drop_last()),
        }
    }
}

/// Where a model stands between its requests.
#[derive(Clone, Copy, Debug, PartialEq, Eq, Structural)]
pub enum Phase {
    /// Nothing is queued and nothing is active.
    Idle,
    /// Requests are queued and none is active.
    HasBacklog,
    /// A request is active.
    Running,
    /// A completed request has destroyed the model: it takes no more
    /// requests.
    Terminal,
}

/// A model: its identity and its request log.
#[derive(Clone, Debug, PartialEq)]
pub struct Model {
    pub id: u128,
    pub name: String,
    pub cloud: Cloud,
    pub backlog: VecDeque<Queued>,
    pub active: Option<Active>,
    pub history: Vec<Completed>,
}

pub struct ModelView {
    pub id: u128,
    pub name: Seq<char>,
    pub cloud: Cloud,
    pub backlog: Seq<QueuedView>,
    pub active: Option<ActiveView>,
    pub history: Seq<CompletedView>,
}

impl ModelView {
    /// Whether a completed request has destroyed the model.
    pub open spec fn destroyed(self) -> bool {
        exists|i: int| 0 <= i < self.history.len() && (#[trigger] self.history[i]).action is DestroyModel
    }

    /// The status that the history adds up to.
    pub open spec fn status(self) -> ModelStatus {
        status_of(self.history)
    }

    /// Where the model stands between its requests.
    pub open spec fn phase(self) -> Phase {
        if self.destroyed() {
            Phase::Terminal
        } else if self.active is Some {
            Phase::Running
        } else if self.backlog.len() > 0 {
            Phase::HasBacklog
        } else {
            Phase::Idle
        }
    }

    /// The identifiers of all requests of the model in the order in which they
    /// are shown: the history, the active request, the backlog.
    pub open spec fn request_ids(self) -> Seq<u128> {
        self.history.map_values(|c: CompletedView| c.id) + (match self.active {
            Some(a) => seq![a.id],
            None => Seq::<u128>::empty(),
        }) + self.backlog.map_values(|q: QueuedView| q.id)
    }

    /// Whether no identifier belongs to two requests of the model.
    pub open spec fn ids_distinct(self) -> bool {
        self.request_ids().no_duplicates()
    }

    /// The model with `q` at the tail of its backlog.
    pub open spec fn append(self, q: QueuedView) -> ModelView {
        ModelView { backlog: self.backlog.push(q), ..self }
    }

    /// The model after one step of its log at the time `now`: `completed`, if
    /// there is one, joins the history; the head of the backlog, if there is
    /// one, becomes the active request; otherwise no request is active.
    pub open spec fn advance(self, completed: Option<CompletedView>, now: u128) -> ModelView {
        let history = match completed {
            Some(c) => self.history.push(c),
            None => self.history,
        };
        if self.backlog.len() > 0 {
            ModelView {
                history,
                active: Some(ActiveView::from_queued(self.backlog.first(), now)),
                backlog: self.backlog.drop_first(),
                ..self
            }
        } else {
            ModelView { history, active: None, ..self }
        }
    }
}

impl View for Model {
    type V = ModelView;

    open spec fn view(&self) -> ModelView {
        ModelView {
            id: self.id,
            name: self.name@,
            cloud: self.cloud,
            backlog: self.backlog@.map_values(|q: Queued| q@),
            active: match self.active {
                Some(a) => Some(a@),
                None => None,
            },
            history: self.history@.map_values(|c: Completed| c@),
        }
    }
}

impl Model {
    /// A new model with an empty log, under a fresh random identifier.
    pub fn with_name(name: String, cloud: Cloud) -> (r: Self)
        ensures
            r.name == name,
            r.cloud == cloud,
            r@.backlog.len() == 0,
            r@.active is None,
            r@.history.len() == 0,
            is_v4(r.id),
    {
        Model {
            id: new_v4(),
            name,
            cloud,
            backlog: VecDeque::new(),
            active: None,
            history: Vec::new(),
        }
    }

    /// Whether a completed request has destroyed the model.
    pub fn is_destroyed(&self) -> (r: bool)
        ensures
            r == self@.destroyed(),
    {
        let mut i: usize = 0;
        while i < self.history.len()
            invariant
                i <= self.history@.len(),
                forall|k: int| 0 <= k < i ==> !(self@.history[k].action is DestroyModel),
            decreases self.history@.len() - i,
        {
            if self.history[i].action.is_destroy() {
                assert(self@.history[i as int].action is DestroyModel);
                return true;
            }
            i += 1;
        }
        false
    }

    /// Where the model stands between its requests.
    pub fn phase(&self) -> (r: Phase)
        ensures
            r == self@.phase(),
    {
        if self.is_destroyed() {
            Phase::Terminal
        } else if self.active.is_some() {
            Phase::Running
        } else if self.backlog.len() > 0 {
            Phase::HasBacklog
        } else {
            Phase::Idle
        }
    }

    /// The status that the history adds up to: the status of the state that
    /// is derived from it.
    pub fn get_status(&self) -> (r: ModelStatus)
        ensures
            r == self@.status(),
    {
        let mut status = ModelStatus::Requested;
        let mut i: usize = 0;
        proof {
            assert(self@.history.take(0).len() == 0);
        }
        while i < self.history.len()
            invariant
                i <= self.history@.len(),
                status == status_of(self@.history.take(i as int)),
            decreases self.history@.len() - i,
        {
            proof {
                let next = self@.history.take(i + 1);
                assert(next.drop_last() == self@.history.take(i as int));
                assert(next.last() == self@.history[i as int]);
            }
            match &self.history[i].action {
                Action::CreateModel { .. } => {
                    status = ModelStatus::Ready;
                },
                Action::DestroyModel => {
                    status = ModelStatus::Destroyed;
                },
                _ => {},
            }
            i += 1;
        }
        proof {
            assert(self@.history.take(i as int) == self@.history);
        }
        status
    }

    /// The identifiers of all requests of the model: the history, the active
    /// request, the backlog.
    pub fn request_ids(&self) -> (r: Vec<u128>)
        ensures
            r@ == self@.request_ids(),
    {
        let mut ids: Vec<u128> = Vec::new();
        let mut i: usize = 0;
        while i < self.history.len()
            invariant
                i <= self.history@.len(),
                ids@ == self@.history.take(i as int).map_values(|c: CompletedView| c.id),
            decreases self.history@.len() - i,
        {
            proof {
                assert(self@.history.take(i + 1) == self@.history.take(i as int).push(self@.history[i as int]));
                assert(self@.history.take(i as int).push(self@.history[i as int]).map_values(
                    |c: CompletedView| c.id,
                ) == self@.history.take(i as int).map_values(|c: CompletedView| c.id).push(
                    self@.history[i as int].id,
                ));
            }
            ids.push(self.history[i].id);
            i += 1;
        }
        proof {
            assert(self@.history.take(i as int) == self@.history);
        }
        if let Some(a) = &self.active {
            ids.push(a.id);
        }
        let ghost front = ids@;
        proof {
            assert(front == self@.history.map_values(|c: CompletedView| c.id) + (match self@.active {
                Some(a) => seq![a.id],
                None => Seq::<u128>::empty(),
            }));
        }
        let mut j: usize = 0;
        while j < self.backlog.len()
            invariant
                j <= self.backlog@.len(),
                ids@ == front + self@.backlog.take(j as int).map_values(|q: QueuedView| q.id),
            decreases self.backlog@.len() - j,
        {
            proof {
                assert(self@.backlog.take(j + 1) == self@.backlog.take(j as int).push(self@.backlog[j as int]));
                assert(self@.backlog.take(j as int).push(self@.backlog[j as int]).map_values(
                    |q: QueuedView| q.id,
                ) == self@.backlog.take(j as int).map_values(|q: QueuedView| q.id).push(
                    self@.backlog[j as int].id,
                ));
                assert((front + self@.backlog.take(j as int).map_values(|q: QueuedView| q.id)).push(
                    self@.backlog[j as int].id,
                ) == front + self@.backlog.take(j as int).map_values(|q: QueuedView| q.id).push(
                    self@.backlog[j as int].id,
                ));
            }
            ids.push(self.backlog[j].id);
            j += 1;
        }
        proof {
            assert(self@.backlog.take(j as int) == self@.backlog);
        }
        ids
    }

    /// Whether a request of the model carries the identifier `id`.
    pub fn has_request(&self, id: u128) -> (r: bool)
        ensures
            r == self@.request_ids().contains(id),
    {
        let ids = self.request_ids();
        let mut i: usize = 0;
        while i < ids.len()
            invariant
                i <= ids@.len(),
                ids@ == self@.request_ids(),
                forall|k: int| 0 <= k < i ==> ids@[k] != id,
            decreases ids@.len() - i,
        {
            if ids[i] == id {
                assert(ids@[i as int] == id);
                return true;
            }
            i += 1;
        }
        false
    }

    /// An identifier that two requests of the model carry, if there is one.
    pub fn repeated_request(&self) -> (r: Option<u128>)
        ensures
            r is None <==> self@.ids_distinct(),
            r matches Some(id) ==> self@.request_ids().contains(id),
    {
        let ids = self.request_ids();
        let mut i: usize = 0;
        while i < ids.len()
            invariant
                i <= ids@.len(),
                ids@ == self@.request_ids(),
                forall|a: int, b: int| 0 <= a < i && 0 <= b < a ==> ids@[a] != ids@[b],
            decreases ids@.len() - i,
        {
            let mut j: usize = 0;
            while j < i
                invariant
                    j <= i < ids@.len(),
                    ids@ == self@.request_ids(),
                    forall|b: int| 0 <= b < j ==> ids@[i as int] != ids@[b],
                decreases i - j,
            {
                if ids[i] == ids[j] {
                    assert(ids@[i as int] == ids@[j as int] && i != j);
                    return Some(ids[i]);
                }
                j += 1;
            }
            i += 1;
        }
        proof {
            assert forall|a: int, b: int| 0 <= a < ids@.len() && 0 <= b < ids@.len() && a != b implies ids@[a]
                != ids@[b] by {
                if b < a {
                    assert(ids@[a] != ids@[b]);
                } else {
                    assert(ids@[b] != ids@[a]);
                }
            }
        }
        None
    }

    /// Appends a request to the backlog. A model that has been destroyed takes
    /// no request, and no model takes a request under an identifier that one
    /// of its requests carries already; the model then stays as it is.
    /// Identifiers that are distinct stay so.
    pub fn append(&mut self, queued: Queued) -> (r: Result<u128, Error>)
        ensures
            old(self)@.ids_distinct() ==> final(self)@.ids_distinct(),
            match r {
                Ok(id) => {
                    &&& !old(self)@.destroyed()
                    &&& !old(self)@.request_ids().contains(queued.id)
                    &&& id == queued.id
                    &&& final(self)@ == old(self)@.append(queued@)
                },
                Err(e) => {
                    &&& *final(self) == *old(self)
                    &&& if old(self)@.destroyed() {
                        e@ == ErrorView::ModelAlreadyDeleted(old(self).id)
                    } else {
                        &&& old(self)@.request_ids().contains(queued.id)
                        &&& e@ == ErrorView::RequestAlreadyExists(queued.id)
                    }
                },
            },
    {
        if self.is_destroyed() {
            return Err(Error::ModelAlreadyDeleted(self.id));
        }
        if self.has_request(queued.id) {
            return Err(Error::RequestAlreadyExists(queued.id));
        }
        let id = queued.id;
        proof {
            assert(self.backlog@.push(queued).map_values(|q: Queued| q@) == self.backlog@.map_values(
                |q: Queued| q@,
            ).push(queued@));
            if self@.ids_distinct() {
                crate::server::laws::lemma_append_keeps_ids_distinct(self@, queued@);
            }
        }
        self.backlog.push_back(queued);
        Ok(id)
    }

    /// Starts the next queued request at the time `now`, provided that no
    /// request is active. Returns the identifier of the request that is
    /// active now. With an active request the model stays as it is.
    pub fn get_next_task(&mut self, now: u128) -> (r: Result<Option<u128>, Error>)
        ensures
            old(self)@.ids_distinct() ==> final(self)@.ids_distinct(),
            match r {
                Ok(id) => {
                    &&& old(self).active is None
                    &&& final(self)@ == old(self)@.advance(None, now)
                    &&& id == match final(self).active {
                        Some(a) => Some(a.id),
                        None => None,
                    }
                },
                Err(e) => {
                    &&& old(self).active matches Some(a)
                    &&& e@ == ErrorView::ExistingActiveTask(a.id)
                    &&& *final(self) == *old(self)
                },
            },
    {
        match &self.active {
            Some(a) => Err(Error::ExistingActiveTask(a.id)),
            None => Ok(self.advance(None, now)),
        }
    }

    /// One step of the log at the time `now`. A completed request joins the
    /// history; it must be the active request, completed. Then the head of the
    /// backlog becomes the active request; with an empty backlog no request is
    /// active. Returns the identifier of the request that is active now.
    pub fn advance(&mut self, completed: Option<Completed>, now: u128) -> (r: Option<u128>)
        requires
            completed matches Some(c) ==> (old(self).active matches Some(a) && a.id == c.id),
        ensures
            old(self)@.ids_distinct() ==> final(self)@.ids_distinct(),
            final(self)@ == old(self)@.advance(completed_view(completed), now),
            r == match final(self).active {
                Some(a) => Some(a.id),
                None => None,
            },
    {
        proof {
            if self@.ids_distinct() {
                crate::server::laws::lemma_advance_keeps_ids_distinct(self@, completed_view(completed), now);
            }
        }
        if let Some(c) = completed {
            proof {
                assert(self.history@.push(c).map_values(|c: Completed| c@) == self.history@.map_values(
                    |c: Completed| c@,
                ).push(c@));
            }
            self.history.push(c);
        }
        proof {
            if self.backlog@.len() > 0 {
                assert(self.backlog@.subrange(1, self.backlog@.len() as int).map_values(|q: Queued| q@)
                    == self.backlog@.map_values(|q: Queued| q@).drop_first());
            }
        }
        match self.backlog.pop_front() {
            Some(q) => {
                let id = q.id;
                self.active = Some(Active::from_queued(q, now));
                Some(id)
            },
            None => {
                self.active = None;
                None
            },
        }
    }
    /// The state that the history adds up to. Fails where a completed request
    /// configures or removes a rune that the model does not hold at that point.
    pub fn get_state(&self) -> (r: Result<apiv1::ModelState, Error>)
        ensures
            match r {
                Ok(state) => {
                    &&& apiv1::derive_state(self@.history) == Ok::<apiv1::ModelStateView, Seq<char>>(state@)
                    &&& state@.status == self@.status()
                },
                Err(e) => {
                    &&& apiv1::derive_state(self@.history) matches Err(name)
                    &&& e@ == ErrorView::UnknownRune(name)
                },
            },
    {
        proof {
            crate::server::laws::lemma_status_is_derived(self@.history);
        }
        let mut state = apiv1::ModelState {
            status: ModelStatus::Requested,
            config: ModelConfig { foo: None },
            runes: crate::dict::Dict::new(),
        };
        let mut i: usize = 0;
        proof {
            assert(self@.history.take(0).len() == 0);
        }
        while i < self.history.len()
            invariant
                i <= self.history@.len(),
                apiv1::derive_state(self@.history.take(i as int)) == Ok::<apiv1::ModelStateView, Seq<char>>(state@),
            decreases self.history@.len() - i,
        {
            proof {
                let next = self@.history.take(i + 1);
                assert(next.drop_last() == self@.history.take(i as int));
                assert(next.last() == self@.history[i as int]);
                assert(self@.history[i as int].action == self.history@[i as int].action@);
            }
            let ghost before = state@;
            match &self.history[i].action {
                Action::CreateModel { .. } => {
                    state.status = ModelStatus::Ready;
                },
                Action::ConfigureModel { foo } => {
                    state.config = ModelConfig { foo: foo.clone() };
                },
                Action::DestroyModel => {
                    state.status = ModelStatus::Destroyed;
                },
                Action::AddRune { name, rune } => {
                    state.runes.insert(name.clone(), rune.into_api());
                },
                Action::ConfigureRune { name, attribute, value } => {
                    match state.runes.remove(name.as_str()) {
                        Some(mut rune) => {
                            rune.state.insert(attribute.clone(), Some(value.clone()));
                            state.runes.insert(name.clone(), rune);
                            proof {
                                assert(state.runes@ == before.runes.insert(name@, rune@));
                            }
                        },
                        None => {
                            proof {
                                apiv1::lemma_failure_stays(self@.history, i + 1);
                            }
                            return Err(Error::UnknownRune(name.clone()));
                        },
                    }
                },
                Action::RemoveRune { name } => {
                    match state.runes.remove(name.as_str()) {
                        Some(_) => {},
                        None => {
                            proof {
                                apiv1::lemma_failure_stays(self@.history, i + 1);
                            }
                            return Err(Error::UnknownRune(name.clone()));
                        },
                    }
                },
            }
            i += 1;
        }
        proof {
            assert(self@.history.take(i as int) == self@.history);
        }
        Ok(state)
    }

    /// The requests of the model in one list: the history, then the active
    /// request, then the backlog.
    pub fn get_requests(&self) -> (r: Vec<apiv1::Request>)
        ensures
            r@.map_values(|q: apiv1::Request| q@) == apiv1::shown_requests(self@),
    {
        let mut requests: Vec<apiv1::Request> = Vec::new();
        let ghost done = |c: CompletedView| apiv1::shown_completed(c);
        let ghost waiting = |q: QueuedView| apiv1::shown_queued(q);
        let mut i: usize = 0;
        while i < self.history.len()
            invariant
                i <= self.history@.len(),
                done == |c: CompletedView| apiv1::shown_completed(c),
                requests@.map_values(|q: apiv1::Request| q@) == self@.history.take(i as int).map_values(done),
            decreases self.history@.len() - i,
        {
            let h = &self.history[i];
            let shown = apiv1::Request {
                id: h.id,
                action: h.action.into_api(),
                queued: h.queued,
                started: Some(h.started),
                completed: Some(h.completed),
            };
            proof {
                assert(self@.history[i as int] == h@);
                assert(shown@ == apiv1::shown_completed(h@));
                assert(self@.history.take(i + 1) == self@.history.take(i as int).push(h@));
                assert(requests@.push(shown).map_values(|q: apiv1::Request| q@) == requests@.map_values(
                    |q: apiv1::Request| q@,
                ).push(shown@));
                assert(self@.history.take(i as int).push(h@).map_values(done) == self@.history.take(
                    i as int,
                ).map_values(done).push(done(h@)));
            }
            requests.push(shown);
            i += 1;
        }
        proof {
            assert(self@.history.take(i as int) == self@.history);
        }
        let ghost shown_history = requests@.map_values(|q: apiv1::Request| q@);
        if let Some(a) = &self.active {
            requests.push(
                apiv1::Request {
                    id: a.id,
                    action: a.action.into_api(),
                    queued: a.queued,
                    started: Some(a.started),
                    completed: None,
                },
            );
        }
        let ghost shown_front = requests@.map_values(|q: apiv1::Request| q@);
        proof {
            assert(shown_front =~= shown_history + (match self@.active {
                Some(a) => seq![apiv1::shown_active(a)],
                None => Seq::<apiv1::RequestView>::empty(),
            }));
        }
        let mut j: usize = 0;
        while j < self.backlog.len()
            invariant
                j <= self.backlog@.len(),
                waiting == |q: QueuedView| apiv1::shown_queued(q),
                requests@.map_values(|q: apiv1::Request| q@) == shown_front + self@.backlog.take(j as int).map_values(
                    waiting,
                ),
            decreases self.backlog@.len() - j,
        {
            let q = &self.backlog[j];
            let shown = apiv1::Request {
                id: q.id,
                action: q.action.into_api(),
                queued: q.queued,
                started: None,
                completed: None,
            };
            proof {
                assert(self@.backlog[j as int] == q@);
                assert(shown@ == apiv1::shown_queued(q@));
                assert(self@.backlog.take(j + 1) == self@.backlog.take(j as int).push(q@));
                assert(requests@.push(shown).map_values(|q: apiv1::Request| q@) == requests@.map_values(
                    |q: apiv1::Request| q@,
                ).push(shown@));
                assert(self@.backlog.take(j as int).push(q@).map_values(waiting) == self@.backlog.take(
                    j as int,
                ).map_values(waiting).push(waiting(q@)));
                assert((shown_front + self@.backlog.take(j as int).map_values(waiting)).push(waiting(q@))
                    == shown_front + self@.backlog.take(j as int).map_values(waiting).push(waiting(q@)));
            }
            requests.push(shown);
            j += 1;
        }
        proof {
            assert(self@.backlog.take(j as int) == self@.backlog);
        }
        requests
    }

    /// What the interface shows of the model. Fails where the history does not
    /// add up to a state.
    pub fn into_api(&self) -> (r: Result<apiv1::Model, Error>)
        ensures
            match r {
                Ok(shown) => {
                    &&& apiv1::derive_state(self@.history) matches Ok(state)
                    &&& shown@ == apiv1::shown_model(self@, state)
                },
                Err(e) => {
                    &&& apiv1::derive_state(self@.history) matches Err(name)
                    &&& e@ == ErrorView::UnknownRune(name)
                },
            },
    {
        let state = match self.get_state() {
            Ok(state) => state,
            Err(e) => {
                return Err(e);
            },
        };
        let requests = self.get_requests();
        Ok(
            apiv1::Model {
                id: to_text(self.id),
                name: self.name.clone(),
                cloud: self.cloud.to_string(),
                requests,
                state,
            },
        )
    }
}

} // verus!
