//! The resources of the first version of the interface, and how they follow
//! from a model and its request log.

use crate::clouds::Cloud;
use crate::dict::Dict;
use crate::ident::uuid_text;
use crate::server::error::Error;
use crate::server::model;
use vstd::prelude::*;

pub use crate::server::model::{ModelConfig, ModelConfigView, ModelStatus};

verus! {

/// An attached rune as the interface shows it: its scripts and the current
/// value of every configuration item.
#[derive(Clone, Debug, PartialEq)]
pub struct Rune {
    pub transformers: Option<String>,
    pub react: Option<String>,
    pub state: Dict<Option<String>>,
}

pub struct RuneView {
    pub transformers: Option<Seq<char>>,
    pub react: Option<Seq<char>>,
    pub state: Map<Seq<char>, Option<Seq<char>>>,
}

impl View for Rune {
    type V = RuneView;

    open spec fn view(&self) -> RuneView {
        RuneView {
            transformers: self.transformers.deep_view(),
            react: self.react.deep_view(),
            state: self.state@,
        }
    }
}

impl DeepView for Rune {
    type V = RuneView;

    open spec fn deep_view(&self) -> RuneView {
        self@
    }
}

/// What a request asks for, as the interface shows it: a rune appears with
/// the state it has when it is attached.
#[derive(Clone, Debug, PartialEq)]
pub enum Action {
    CreateModel { name: String },
    ConfigureModel { foo: Option<String> },
    DestroyModel,
    AddRune { name: String, rune: Rune },
    ConfigureRune { name: String, attribute: String, value: String },
    RemoveRune { name: String },
}

pub enum ActionView {
    CreateModel { name: Seq<char> },
    ConfigureModel { foo: Option<Seq<char>> },
    DestroyModel,
    AddRune { name: Seq<char>, rune: RuneView },
    ConfigureRune { name: Seq<char>, attribute: Seq<char>, value: Seq<char> },
    RemoveRune { name: Seq<char> },
}

impl View for Action {
    type V = ActionView;

    open spec fn view(&self) -> ActionView {
        match self {
            Action::CreateModel { name } => ActionView::CreateModel { name: name@ },
            Action::ConfigureModel { foo } => ActionView::ConfigureModel { foo: foo.deep_view() },
            Action::DestroyModel => ActionView::DestroyModel,
            Action::AddRune { name, rune } => ActionView::AddRune { name: name@, rune: rune@ },
            Action::ConfigureRune { name, attribute, value } => ActionView::ConfigureRune {
                name: name@,
                attribute: attribute@,
                value: value@,
            },
            Action::RemoveRune { name } => ActionView::RemoveRune { name: name@ },
        }
    }
}

/// The action of a request as the interface shows it.
pub open spec fn shown_action(a: model::ActionView) -> ActionView {
    match a {
        model::ActionView::CreateModel { name } => ActionView::CreateModel { name },
        model::ActionView::ConfigureModel { foo } => ActionView::ConfigureModel { foo },
        model::ActionView::DestroyModel => ActionView::DestroyModel,
        model::ActionView::AddRune { name, rune } => ActionView::AddRune {
            name,
            rune: rune.initial_state(),
        },
        model::ActionView::ConfigureRune { name, attribute, value } => ActionView::ConfigureRune {
            name,
            attribute,
            value,
        },
        model::ActionView::RemoveRune { name } => ActionView::RemoveRune { name },
    }
}

/// A request with the times that it has reached so far.
#[derive(Clone, Debug, PartialEq)]
pub struct Request {
    pub id: u128,
    pub action: Action,
    pub queued: u128,
    pub started: Option<u128>,
    pub completed: Option<u128>,
}

pub struct RequestView {
    pub id: u128,
    pub action: ActionView,
    pub queued: u128,
    pub started: Option<u128>,
    pub completed: Option<u128>,
}

impl View for Request {
    type V = RequestView;

    open spec fn view(&self) -> RequestView {
        RequestView {
            id: self.id,
            action: self.action@,
            queued: self.queued,
            started: self.started,
            completed: self.completed,
        }
    }
}

/// A completed request as the interface shows it.
pub open spec fn shown_completed(c: model::CompletedView) -> RequestView {
    RequestView {
        id: c.id,
        action: shown_action(c.action),
        queued: c.queued,
        started: Some(c.started),
        completed: Some(c.completed),
    }
}

/// The active request as the interface shows it.
pub open spec fn shown_active(a: model::ActiveView) -> RequestView {
    RequestView {
        id: a.id,
        action: shown_action(a.action),
        queued: a.queued,
        started: Some(a.started),
        completed: None,
    }
}

/// A queued request as the interface shows it.
pub open spec fn shown_queued(q: model::QueuedView) -> RequestView {
    RequestView { id: q.id, action: shown_action(q.action), queued: q.queued, started: None, completed: None }
}

/// The requests of a model in one list: the history, then the active request,
/// then the backlog.
pub open spec fn shown_requests(m: model::ModelView) -> Seq<RequestView> {
    m.history.map_values(|c: model::CompletedView| shown_completed(c)) + (match m.active {
        Some(a) => seq![shown_active(a)],
        None => Seq::<RequestView>::empty(),
    }) + m.backlog.map_values(|q: model::QueuedView| shown_queued(q))
}

/// The state of a model: what its completed requests add up to.
#[derive(Clone, Debug, PartialEq)]
pub struct ModelState {
    pub status: ModelStatus,
    pub config: ModelConfig,
    pub runes: Dict<Rune>,
}

pub struct ModelStateView {
    pub status: ModelStatus,
    pub config: ModelConfigView,
    pub runes: Map<Seq<char>, RuneView>,
}

impl View for ModelState {
    type V = ModelStateView;

    open spec fn view(&self) -> ModelStateView {
        ModelStateView { status: self.status, config: self.config@, runes: self.runes@ }
    }
}

impl Default for ModelState {
    fn default() -> (r: Self)
        ensures
            r@ == initial_state(),
    {
        ModelState {
            status: ModelStatus::Requested,
            config: ModelConfig { foo: None },
            runes: Dict::new(),
        }
    }
}

/// The state of a model without completed requests.
pub open spec fn initial_state() -> ModelStateView {
    ModelStateView {
        status: ModelStatus::Requested,
        config: ModelConfigView { foo: None },
        runes: Map::empty(),
    }
}

/// The effect of one completed action on the state. Configuring or removing a
/// rune that the model does not hold fails, with the name of that rune.
pub open spec fn apply(state: ModelStateView, action: model::ActionView) -> Result<
    ModelStateView,
    Seq<char>,
> {
    match action {
        model::ActionView::CreateModel { .. } => Ok(
            ModelStateView { status: ModelStatus::Ready, ..state },
        ),
        model::ActionView::ConfigureModel { foo } => Ok(
            ModelStateView { config: ModelConfigView { foo }, ..state },
        ),
        model::ActionView::DestroyModel => Ok(
            ModelStateView { status: ModelStatus::Destroyed, ..state },
        ),
        model::ActionView::AddRune { name, rune } => Ok(
            ModelStateView { runes: state.runes.insert(name, rune.initial_state()), ..state },
        ),
        model::ActionView::ConfigureRune { name, attribute, value } => {
            if state.runes.contains_key(name) {
                let rune = state.runes[name];
                Ok(
                    ModelStateView {
                        runes: state.runes.insert(
                            name,
                            RuneView { state: rune.state.insert(attribute, Some(value)), ..rune },
                        ),
                        ..state
                    },
                )
            } else {
                Err(name)
            }
        },
        model::ActionView::RemoveRune { name } => {
            if state.runes.contains_key(name) {
                Ok(ModelStateView { runes: state.runes.remove(name), ..state })
            } else {
                Err(name)
            }
        },
    }
}

/// The state that a history adds up to: its actions applied from first to
/// last, or the failure of the first action that fails.
pub open spec fn derive_state(history: Seq<model::CompletedView>) -> Result<ModelStateView, Seq<char>>
    decreases history.len(),
{
    if history.len() == 0 {
        Ok(initial_state())
    } else {
        match derive_state(history.drop_last()) {
            Ok(state) => apply(state, history.last().action),
            Err(name) => Err(name),
        }
    }
}

/// A history whose beginning fails, fails in the same way.
pub proof fn lemma_failure_stays(history: Seq<model::CompletedView>, n: int)
    requires
        0 <= n <= history.len(),
        derive_state(history.take(n)) is Err,
    ensures
        derive_state(history) == derive_state(history.take(n)),
    decreases history.len(),
{
    if n == history.len() {
        assert(history.take(n) == history);
    } else {
        assert(history.drop_last().take(n) == history.take(n));
        lemma_failure_stays(history.drop_last(), n);
    }
}

/// A model as the interface shows it.
#[derive(Clone, Debug, PartialEq)]
pub struct Model {
    pub id: String,
    pub name: String,
    pub cloud: String,
    pub requests: Vec<Request>,
    pub state: ModelState,
}

pub struct ModelView {
    pub id: Seq<char>,
    pub name: Seq<char>,
    pub cloud: Seq<char>,
    pub requests: Seq<RequestView>,
    pub state: ModelStateView,
}

impl View for Model {
    type V = ModelView;

    open spec fn view(&self) -> ModelView {
        ModelView {
            id: self.id@,
            name: self.name@,
            cloud: self.cloud@,
            requests: self.requests@.map_values(|r: Request| r@),
            state: self.state@,
        }
    }
}

/// What the interface shows of a model whose history adds up to `state`.
pub open spec fn shown_model(m: model::ModelView, state: ModelStateView) -> ModelView {
    ModelView {
        id: uuid_text(m.id),
        name: m.name,
        cloud: m.cloud.name(),
        requests: shown_requests(m),
        state,
    }
}

impl Model {
    /// What the interface shows of `model`: its identity, its requests in one
    /// list, and the state that its history adds up to. Fails where the
    /// history does not add up to a state.
    pub fn from_model(model: &model::Model) -> (r: Result<Model, Error>)
        ensures
            match r {
                Ok(shown) => {
                    &&& derive_state(model@.history) matches Ok(state)
                    &&& shown@ == shown_model(model@, state)
                },
                Err(e) => {
                    &&& derive_state(model@.history) matches Err(name)
                    &&& e@ == crate::server::error::ErrorView::UnknownRune(name)
                },
            },
    {
        model.into_api()
    }
}

/// The kind of an action, as the list of requests names it: the action
/// without the rune and without what a rune is configured to.
#[derive(Clone, Debug, PartialEq)]
pub enum ActionKind {
    CreateModel { name: String },
    ConfigureModel { foo: Option<String> },
    DestroyModel,
    AddRune,
    ConfigureRune,
    RemoveRune,
}

pub enum ActionKindView {
    CreateModel { name: Seq<char> },
    ConfigureModel { foo: Option<Seq<char>> },
    DestroyModel,
    AddRune,
    ConfigureRune,
    RemoveRune,
}

impl View for ActionKind {
    type V = ActionKindView;

    open spec fn view(&self) -> ActionKindView {
        match self {
            ActionKind::CreateModel { name } => ActionKindView::CreateModel { name: name@ },
            ActionKind::ConfigureModel { foo } => ActionKindView::ConfigureModel { foo: foo.deep_view() },
            ActionKind::DestroyModel => ActionKindView::DestroyModel,
            ActionKind::AddRune => ActionKindView::AddRune,
            ActionKind::ConfigureRune => ActionKindView::ConfigureRune,
            ActionKind::RemoveRune => ActionKindView::RemoveRune,
        }
    }
}

/// The kind of an action.
pub open spec fn kind_of(a: model::ActionView) -> ActionKindView {
    match a {
        model::ActionView::CreateModel { name } => ActionKindView::CreateModel { name },
        model::ActionView::ConfigureModel { foo } => ActionKindView::ConfigureModel { foo },
        model::ActionView::DestroyModel => ActionKindView::DestroyModel,
        model::ActionView::AddRune { .. } => ActionKindView::AddRune,
        model::ActionView::ConfigureRune { .. } => ActionKindView::ConfigureRune,
        model::ActionView::RemoveRune { .. } => ActionKindView::RemoveRune,
    }
}

impl ActionKind {
    /// The kind of the action `a`.
    pub fn from_action(a: &model::Action) -> (r: Self)
        ensures
            r@ == kind_of(a@),
    {
        match a {
            model::Action::CreateModel { name } => ActionKind::CreateModel { name: name.clone() },
            model::Action::ConfigureModel { foo } => ActionKind::ConfigureModel { foo: foo.clone() },
            model::Action::DestroyModel => ActionKind::DestroyModel,
            model::Action::AddRune { .. } => ActionKind::AddRune,
            model::Action::ConfigureRune { .. } => ActionKind::ConfigureRune,
            model::Action::RemoveRune { .. } => ActionKind::RemoveRune,
        }
    }
}

/// The body of a request that creates a model.
#[derive(Clone, Debug, PartialEq)]
pub struct ModelCreate {
    pub name: String,
    pub cloud: Cloud,
}

/// The body of a request that configures a model.
#[derive(Clone, Debug, PartialEq)]
pub struct ModelConfigure {
    pub foo: Option<String>,
}

impl ModelConfigure {
    /// The action that the request asks for.
    pub fn into_action(self) -> (r: model::Action)
        ensures
            r@ == (model::ActionView::ConfigureModel { foo: self.foo.deep_view() }),
    {
        model::Action::ConfigureModel { foo: self.foo }
    }
}

/// The body of a request that attaches a rune: its name and its archive.
#[derive(Clone, Debug, PartialEq)]
pub struct RuneAdd {
    pub name: String,
    pub rune: Vec<u8>,
}

/// The body of a request that configures a rune.
#[derive(Clone, Debug, PartialEq)]
pub struct RuneConfigure {
    pub attribute: String,
    pub value: String,
}

impl RuneConfigure {
    /// The action that the request asks for, for the rune with the name
    /// `rune_name`.
    pub fn into_action(self, rune_name: String) -> (r: model::Action)
        ensures
            r@ == (model::ActionView::ConfigureRune {
                name: rune_name@,
                attribute: self.attribute@,
                value: self.value@,
            }),
    {
        model::Action::ConfigureRune { name: rune_name, attribute: self.attribute, value: self.value }
    }
}

} // verus!
