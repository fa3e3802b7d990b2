//! The cloud back ends that a model can be deployed to.
//!
//! A back end carries out a request outside of this library. What is decided
//! here is which call a request amounts to, and what becomes of the request
//! once the call has returned.

pub mod aws;
pub mod kubernetes;

use crate::server::error::{Error, ErrorView};
use crate::server::model::{Action, ActionView, Active, Completed, CompletedView};
use crate::text::same_text;
use vstd::prelude::*;
use vstd::string::{StrSliceExecFns, StringSliceAdditionalSpecFns};

verus! {

/// A cloud back end.
#[derive(Clone, Copy, Debug, PartialEq, Eq, Structural)]
pub enum Cloud {
    AWS,
    Dummy,
    Kubernetes,
}

/// The states that a back end tells apart while it sets a model up.
#[derive(Clone, Copy, Debug, PartialEq, Eq, Structural)]
pub enum ModelState {
    Requested,
    Creating,
    Ready,
    Configuring,
}

/// What a back end is called to do for an action. A rune is named only: the
/// caller has the request and with it the rune.
#[derive(Clone, Debug, PartialEq)]
pub enum AdapterCall {
    CreateModel { name: String },
    ConfigureModel,
    DestroyModel,
    AddRune { name: String },
    ConfigureRune { name: String, attribute: String, value: String },
    RemoveRune { name: String },
}

pub enum AdapterCallView {
    CreateModel { name: Seq<char> },
    ConfigureModel,
    DestroyModel,
    AddRune { name: Seq<char> },
    ConfigureRune { name: Seq<char>, attribute: Seq<char>, value: Seq<char> },
    RemoveRune { name: Seq<char> },
}

impl View for AdapterCall {
    type V = AdapterCallView;

    open spec fn view(&self) -> AdapterCallView {
        match self {
            AdapterCall::CreateModel { name } => AdapterCallView::CreateModel { name: name@ },
            AdapterCall::ConfigureModel => AdapterCallView::ConfigureModel,
            AdapterCall::DestroyModel => AdapterCallView::DestroyModel,
            AdapterCall::AddRune { name } => AdapterCallView::AddRune { name: name@ },
            AdapterCall::ConfigureRune { name, attribute, value } => AdapterCallView::ConfigureRune {
                name: name@,
                attribute: attribute@,
                value: value@,
            },
            AdapterCall::RemoveRune { name } => AdapterCallView::RemoveRune { name: name@ },
        }
    }
}

/// The call that an action amounts to on a back end other than the dummy.
pub open spec fn call_for(action: ActionView) -> AdapterCallView {
    match action {
        ActionView::CreateModel { name } => AdapterCallView::CreateModel { name },
        ActionView::ConfigureModel { .. } => AdapterCallView::ConfigureModel,
        ActionView::DestroyModel => AdapterCallView::DestroyModel,
        ActionView::AddRune { name, .. } => AdapterCallView::AddRune { name },
        ActionView::ConfigureRune { name, attribute, value } => AdapterCallView::ConfigureRune {
            name,
            attribute,
            value,
        },
        ActionView::RemoveRune { name } => AdapterCallView::RemoveRune { name },
    }
}

/// What the surroundings are to do for a call on a back end.
#[derive(Clone, Debug, PartialEq)]
pub enum Errand {
    /// Nothing: the request succeeds as it is.
    Nothing,
    /// Look for the namespace of this name and decide by what is found.
    LookUpNamespace { name: String },
    /// Nothing: the request fails with this error.
    Fail(Error),
}

pub enum ErrandView {
    Nothing,
    LookUpNamespace { name: Seq<char> },
    Fail(ErrorView),
}

impl View for Errand {
    type V = ErrandView;

    open spec fn view(&self) -> ErrandView {
        match self {
            Errand::Nothing => ErrandView::Nothing,
            Errand::LookUpNamespace { name } => ErrandView::LookUpNamespace { name: name@ },
            Errand::Fail(e) => ErrandView::Fail(e@),
        }
    }
}

/// The view of a call that may be missing.
pub open spec fn call_view(call: Option<AdapterCall>) -> Option<AdapterCallView> {
    match call {
        Some(c) => Some(c@),
        None => None,
    }
}

/// What is to be done for a call on a back end. Without a call, and on the
/// dummy back end, nothing is to be done. Kubernetes creates a model after a
/// look for its namespace. Every other call is one that the back end cannot
/// carry out: it fails as a failure of that back end.
pub open spec fn errand_of(cloud: Cloud, call: Option<AdapterCallView>) -> ErrandView {
    match call {
        None => ErrandView::Nothing,
        Some(call) => match cloud {
            Cloud::Dummy => ErrandView::Nothing,
            Cloud::Kubernetes => match call {
                AdapterCallView::CreateModel { name } => ErrandView::LookUpNamespace { name },
                _ => ErrandView::Fail(ErrorView::AdapterFailure(cloud.name())),
            },
            Cloud::AWS => ErrandView::Fail(ErrorView::AdapterFailure(cloud.name())),
        },
    }
}

/// What is to be done for a call on a back end.
pub fn errand(cloud: Cloud, call: Option<AdapterCall>) -> (r: Errand)
    ensures
        r@ == errand_of(cloud, call_view(call)),
{
    match call {
        None => Errand::Nothing,
        Some(call) => match cloud {
            Cloud::Dummy => Errand::Nothing,
            Cloud::Kubernetes => match call {
                AdapterCall::CreateModel { name } => Errand::LookUpNamespace { name },
                _ => Errand::Fail(Error::AdapterFailure(cloud.to_string())),
            },
            Cloud::AWS => Errand::Fail(Error::AdapterFailure(cloud.to_string())),
        },
    }
}

/// The back end that the bytes `name` name.
pub open spec fn cloud_of_bytes(name: Seq<u8>) -> Option<Cloud> {
    if name == Cloud::AWS.name_bytes() {
        Some(Cloud::AWS)
    } else if name == Cloud::Dummy.name_bytes() {
        Some(Cloud::Dummy)
    } else if name == Cloud::Kubernetes.name_bytes() {
        Some(Cloud::Kubernetes)
    } else {
        None
    }
}

/// The back end that the text `name` names.
pub open spec fn cloud_of_name(name: Seq<char>) -> Option<Cloud> {
    if name == Cloud::AWS.name() {
        Some(Cloud::AWS)
    } else if name == Cloud::Dummy.name() {
        Some(Cloud::Dummy)
    } else if name == Cloud::Kubernetes.name() {
        Some(Cloud::Kubernetes)
    } else {
        None
    }
}

/// Whether two byte strings are equal.
fn same_bytes(a: &[u8], b: &[u8]) -> (r: bool)
    ensures
        r == (a@ == b@),
{
    if a.len() != b.len() {
        return false;
    }
    let mut i: usize = 0;
    while i < a.len()
        invariant
            a@.len() == b@.len(),
            i <= a@.len(),
            forall|k: int| 0 <= k < i ==> a@[k] == b@[k],
        decreases a@.len() - i,
    {
        if a[i] != b[i] {
            return false;
        }
        i += 1;
    }
    assert(a@ =~= b@);
    true
}

impl Cloud {
    /// The name of the back end.
    pub open spec fn name(self) -> Seq<char> {
        match self {
            Cloud::AWS => seq!['a', 'w', 's'],
            Cloud::Dummy => seq!['d', 'u', 'm', 'm', 'y'],
            Cloud::Kubernetes => seq!['k', 'u', 'b', 'e', 'r', 'n', 'e', 't', 'e', 's'],
        }
    }

    /// The name of the back end in bytes.
    pub open spec fn name_bytes(self) -> Seq<u8> {
        match self {
            Cloud::AWS => seq![0x61u8, 0x77u8, 0x73u8],
            Cloud::Dummy => seq![0x64u8, 0x75u8, 0x6du8, 0x6du8, 0x79u8],
            Cloud::Kubernetes => seq![
                0x6bu8,
                0x75u8,
                0x62u8,
                0x65u8,
                0x72u8,
                0x6eu8,
                0x65u8,
                0x74u8,
                0x65u8,
                0x73u8,
            ],
        }
    }

    /// The back end with the name `name`. Any other name is handed back in
    /// the error, in bytes.
    pub fn from_str(name: &str) -> (r: Result<Cloud, Error>)
        ensures
            match r {
                Ok(cloud) => cloud_of_name(name@) == Some(cloud),
                Err(e) => cloud_of_name(name@) is None && e@ == ErrorView::UnknownCloud(name.spec_bytes()),
            },
    {
        proof {
            reveal_strlit("aws");
            reveal_strlit("dummy");
            reveal_strlit("kubernetes");
            assert("aws"@ =~= Cloud::AWS.name());
            assert("dummy"@ =~= Cloud::Dummy.name());
            assert("kubernetes"@ =~= Cloud::Kubernetes.name());
        }
        if same_text(name, "aws") {
            Ok(Cloud::AWS)
        } else if same_text(name, "dummy") {
            Ok(Cloud::Dummy)
        } else if same_text(name, "kubernetes") {
            Ok(Cloud::Kubernetes)
        } else {
            Err(Error::UnknownCloud(name.as_bytes_vec()))
        }
    }

    /// The back end with the name `name`.
    pub fn from_name(name: &str) -> (r: Result<Cloud, Error>)
        ensures
            match r {
                Ok(cloud) => cloud_of_name(name@) == Some(cloud),
                Err(e) => cloud_of_name(name@) is None && e@ == ErrorView::UnknownCloud(name.spec_bytes()),
            },
    {
        Cloud::from_str(name)
    }

    /// The back end whose name the bytes `name` are. Any other name is handed
    /// back in the error.
    pub fn from_bytes(name: &[u8]) -> (r: Result<Cloud, Error>)
        ensures
            match r {
                Ok(cloud) => cloud_of_bytes(name@) == Some(cloud),
                Err(e) => cloud_of_bytes(name@) is None && e@ == ErrorView::UnknownCloud(name@),
            },
    {
        let aws: Vec<u8> = vec![0x61u8, 0x77u8, 0x73u8];
        let dummy: Vec<u8> = vec![0x64u8, 0x75u8, 0x6du8, 0x6du8, 0x79u8];
        let kubernetes: Vec<u8> = vec![
            0x6bu8,
            0x75u8,
            0x62u8,
            0x65u8,
            0x72u8,
            0x6eu8,
            0x65u8,
            0x74u8,
            0x65u8,
            0x73u8,
        ];
        proof {
            assert(aws@ =~= Cloud::AWS.name_bytes());
            assert(dummy@ =~= Cloud::Dummy.name_bytes());
            assert(kubernetes@ =~= Cloud::Kubernetes.name_bytes());
        }
        if same_bytes(name, aws.as_slice()) {
            Ok(Cloud::AWS)
        } else if same_bytes(name, dummy.as_slice()) {
            Ok(Cloud::Dummy)
        } else if same_bytes(name, kubernetes.as_slice()) {
            Ok(Cloud::Kubernetes)
        } else {
            Err(Error::UnknownCloud(crate::clouds::to_vec(name)))
        }
    }

    /// The name of the back end.
    pub fn to_string(&self) -> (r: String)
        ensures
            r@ == self.name(),
    {
        proof {
            reveal_strlit("aws");
            reveal_strlit("dummy");
            reveal_strlit("kubernetes");
        }
        let name = match self {
            Cloud::AWS => "aws",
            Cloud::Dummy => "dummy",
            Cloud::Kubernetes => "kubernetes",
        };
        assert(name@ =~= self.name());
        name.to_owned()
    }

    /// The call that `action` amounts to on this back end. The dummy back end
    /// is never called: it has no effect outside.
    pub fn adapter_call(&self, action: &Action) -> (r: Option<AdapterCall>)
        ensures
            match r {
                Some(call) => *self != Cloud::Dummy && call@ == call_for(action@),
                None => *self == Cloud::Dummy,
            },
    {
        match self {
            Cloud::Dummy => None,
            _ => Some(
                match action {
                    Action::CreateModel { name } => AdapterCall::CreateModel { name: name.clone() },
                    Action::ConfigureModel { .. } => AdapterCall::ConfigureModel,
                    Action::DestroyModel => AdapterCall::DestroyModel,
                    Action::AddRune { name, .. } => AdapterCall::AddRune { name: name.clone() },
                    Action::ConfigureRune { name, attribute, value } => AdapterCall::ConfigureRune {
                        name: name.clone(),
                        attribute: attribute.clone(),
                        value: value.clone(),
                    },
                    Action::RemoveRune { name } => AdapterCall::RemoveRune { name: name.clone() },
                },
            ),
        }
    }

    /// What becomes of the active request `request` once the back end has
    /// been called: `effect` is what the call returned, `now` the time at
    /// which it returned. On the dummy back end every request succeeds; on
    /// the others a request succeeds where the call did, and fails with the
    /// error of the call where it did not.
    pub fn handle_request(&self, request: Active, effect: Result<(), Error>, now: u128) -> (r: Result<
        Completed,
        Error,
    >)
        ensures
            match r {
                Ok(c) => {
                    &&& *self == Cloud::Dummy || effect is Ok
                    &&& c.id == request.id
                    &&& c.action == request.action
                    &&& c.queued == request.queued
                    &&& c.started == request.started
                    &&& c.completed == now
                    &&& c@ == CompletedView::from_active(request@, now)
                },
                Err(e) => *self != Cloud::Dummy && effect == Err::<(), Error>(e),
            },
    {
        match self {
            Cloud::Dummy => Ok(Completed::from_active(request, now)),
            _ => match effect {
                Ok(_) => Ok(Completed::from_active(request, now)),
                Err(e) => Err(e),
            },
        }
    }
}

/// A copy of a byte string.
fn to_vec(bytes: &[u8]) -> (r: Vec<u8>)
    ensures
        r@ == bytes@,
{
    let mut r: Vec<u8> = Vec::new();
    let mut i: usize = 0;
    while i < bytes.len()
        invariant
            i <= bytes@.len(),
            r@ == bytes@.take(i as int),
        decreases bytes@.len() - i,
    {
        r.push(bytes[i]);
        assert(bytes@.take(i + 1) =~= bytes@.take(i as int).push(bytes@[i as int]));
        i += 1;
    }
    assert(bytes@.take(i as int) =~= bytes@);
    r
}

} // verus!
