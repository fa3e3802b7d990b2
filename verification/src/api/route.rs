//! The routes of the interface: which operation a method and a path ask for.
//!
//! A path is read as its segments. All routes live under `api/v1/models`; a
//! model is named by the text of its identifier.

use crate::ident::{parse_str, parsed_uuid};
use crate::server::error::Error;
use crate::text::same_text;
use vstd::prelude::*;
use vstd::string::StrSliceExecFns;

verus! {

/// The method of a request.
#[derive(Clone, Copy, Debug, PartialEq, Eq, Structural)]
pub enum Method {
    Get,
    Post,
    Patch,
    Delete,
    Other,
}

/// What a method and a path address, before the identifier of the model is
/// read.
#[derive(Clone, Debug, PartialEq)]
pub enum Target {
    ListModels,
    CreateModel,
    GetModel,
    ConfigureModel,
    DeleteModel,
    AddRune,
    ConfigureRune { name: String },
}

pub enum TargetView {
    ListModels,
    CreateModel,
    GetModel,
    ConfigureModel,
    DeleteModel,
    AddRune,
    ConfigureRune { name: Seq<char> },
}

impl View for Target {
    type V = TargetView;

    open spec fn view(&self) -> TargetView {
        match self {
            Target::ListModels => TargetView::ListModels,
            Target::CreateModel => TargetView::CreateModel,
            Target::GetModel => TargetView::GetModel,
            Target::ConfigureModel => TargetView::ConfigureModel,
            Target::DeleteModel => TargetView::DeleteModel,
            Target::AddRune => TargetView::AddRune,
            Target::ConfigureRune { name } => TargetView::ConfigureRune { name: name@ },
        }
    }
}

/// The view of a target that may be missing.
pub open spec fn target_view(target: Option<Target>) -> Option<TargetView> {
    match target {
        Some(t) => Some(t@),
        None => None,
    }
}

/// An operation of the interface.
#[derive(Clone, Debug, PartialEq)]
pub enum Route {
    ListModels,
    CreateModel,
    GetModel { id: u128 },
    ConfigureModel { id: u128 },
    DeleteModel { id: u128 },
    AddRune { id: u128 },
    ConfigureRune { id: u128, name: String },
}

pub enum RouteView {
    ListModels,
    CreateModel,
    GetModel { id: u128 },
    ConfigureModel { id: u128 },
    DeleteModel { id: u128 },
    AddRune { id: u128 },
    ConfigureRune { id: u128, name: Seq<char> },
}

impl View for Route {
    type V = RouteView;

    open spec fn view(&self) -> RouteView {
        match self {
            Route::ListModels => RouteView::ListModels,
            Route::CreateModel => RouteView::CreateModel,
            Route::GetModel { id } => RouteView::GetModel { id: *id },
            Route::ConfigureModel { id } => RouteView::ConfigureModel { id: *id },
            Route::DeleteModel { id } => RouteView::DeleteModel { id: *id },
            Route::AddRune { id } => RouteView::AddRune { id: *id },
            Route::ConfigureRune { id, name } => RouteView::ConfigureRune { id: *id, name: name@ },
        }
    }
}

/// Why a request has no route.
#[derive(Clone, Copy, Debug, PartialEq, Eq, Structural)]
pub enum RouteError {
    /// No operation has this method and path.
    NotFound,
    /// The text in the place of the identifier is no identifier.
    BadRequest,
}

/// Whether the segments begin with `api`, `v1`, `models`.
pub open spec fn under_models(segments: Seq<Seq<char>>) -> bool {
    segments.len() >= 3 && segments[0] == "api"@ && segments[1] == "v1"@ && segments[2] == "models"@
}

/// What a method and the segments of a path address.
pub open spec fn target_of(method: Method, segments: Seq<Seq<char>>) -> Option<TargetView> {
    if !under_models(segments) {
        None
    } else if segments.len() == 3 {
        match method {
            Method::Get => Some(TargetView::ListModels),
            Method::Post => Some(TargetView::CreateModel),
            _ => None,
        }
    } else if segments.len() == 4 {
        match method {
            Method::Get => Some(TargetView::GetModel),
            Method::Delete => Some(TargetView::DeleteModel),
            _ => None,
        }
    } else if segments.len() == 5 {
        if method == Method::Post && segments[4] == "config"@ {
            Some(TargetView::ConfigureModel)
        } else if method == Method::Post && segments[4] == "runes"@ {
            Some(TargetView::AddRune)
        } else {
            None
        }
    } else if segments.len() == 7 {
        if method == Method::Patch && segments[4] == "runes"@ && segments[6] == "config"@ {
            Some(TargetView::ConfigureRune { name: segments[5] })
        } else {
            None
        }
    } else {
        None
    }
}

/// The operation that a target and the identifier read from the path make
/// up. The two targets without a model need no identifier; the others need
/// one that could be read.
pub open spec fn resolved(target: TargetView, id: Option<u128>) -> Result<RouteView, RouteError> {
    match target {
        TargetView::ListModels => Ok(RouteView::ListModels),
        TargetView::CreateModel => Ok(RouteView::CreateModel),
        _ => match id {
            None => Err(RouteError::BadRequest),
            Some(id) => Ok(
                match target {
                    TargetView::GetModel => RouteView::GetModel { id },
                    TargetView::ConfigureModel => RouteView::ConfigureModel { id },
                    TargetView::DeleteModel => RouteView::DeleteModel { id },
                    TargetView::AddRune => RouteView::AddRune { id },
                    TargetView::ConfigureRune { name } => RouteView::ConfigureRune { id, name },
                    _ => RouteView::ListModels,
                },
            ),
        },
    }
}

/// The operation that a method and the segments of a path ask for.
pub open spec fn routed(method: Method, segments: Seq<Seq<char>>) -> Result<RouteView, RouteError> {
    match target_of(method, segments) {
        None => Err(RouteError::NotFound),
        Some(target) => resolved(
            target,
            if segments.len() > 3 {
                parsed_uuid(segments[3])
            } else {
                None
            },
        ),
    }
}

/// What a method and the segments of a path address.
pub fn target(method: Method, segments: &Vec<String>) -> (r: Option<Target>)
    ensures
        target_view(r) == target_of(method, segments.deep_view()),
{
    let n = segments.len();
    if n < 3 || !same_text(segments[0].as_str(), "api") || !same_text(segments[1].as_str(), "v1") || !same_text(
        segments[2].as_str(),
        "models",
    ) {
        return None;
    }
    if n == 3 {
        match method {
            Method::Get => Some(Target::ListModels),
            Method::Post => Some(Target::CreateModel),
            _ => None,
        }
    } else if n == 4 {
        match method {
            Method::Get => Some(Target::GetModel),
            Method::Delete => Some(Target::DeleteModel),
            _ => None,
        }
    } else if n == 5 {
        if method == Method::Post && same_text(segments[4].as_str(), "config") {
            Some(Target::ConfigureModel)
        } else if method == Method::Post && same_text(segments[4].as_str(), "runes") {
            Some(Target::AddRune)
        } else {
            None
        }
    } else if n == 7 {
        if method == Method::Patch && same_text(segments[4].as_str(), "runes") && same_text(
            segments[6].as_str(),
            "config",
        ) {
            Some(Target::ConfigureRune { name: segments[5].clone() })
        } else {
            None
        }
    } else {
        None
    }
}

/// The operation that a target and the identifier read from the path make up.
pub fn resolve(target: Target, id: Option<u128>) -> (r: Result<Route, RouteError>)
    ensures
        match r {
            Ok(route) => resolved(target@, id) == Ok::<RouteView, RouteError>(route@),
            Err(e) => resolved(target@, id) == Err::<RouteView, RouteError>(e),
        },
{
    match target {
        Target::ListModels => Ok(Route::ListModels),
        Target::CreateModel => Ok(Route::CreateModel),
        Target::GetModel => match id {
            Some(id) => Ok(Route::GetModel { id }),
            None => Err(RouteError::BadRequest),
        },
        Target::ConfigureModel => match id {
            Some(id) => Ok(Route::ConfigureModel { id }),
            None => Err(RouteError::BadRequest),
        },
        Target::DeleteModel => match id {
            Some(id) => Ok(Route::DeleteModel { id }),
            None => Err(RouteError::BadRequest),
        },
        Target::AddRune => match id {
            Some(id) => Ok(Route::AddRune { id }),
            None => Err(RouteError::BadRequest),
        },
        Target::ConfigureRune { name } => match id {
            Some(id) => Ok(Route::ConfigureRune { id, name }),
            None => Err(RouteError::BadRequest),
        },
    }
}

/// The number of characters of a path before its first slash.
pub open spec fn head_len(path: Seq<char>) -> int
    decreases path.len(),
{
    if path.len() == 0 || path[0] == '/' {
        0
    } else {
        1 + head_len(path.skip(1))
    }
}

/// The segments of a path: what stands between its slashes, without the
/// empty pieces.
pub open spec fn segments_of(path: Seq<char>) -> Seq<Seq<char>>
    decreases path.len(),
{
    if path.len() == 0 {
        Seq::empty()
    } else {
        let n = head_len(path);
        let rest = if 0 <= n < path.len() {
            segments_of(path.skip(n + 1))
        } else {
            Seq::empty()
        };
        if n == 0 {
            rest
        } else {
            seq![path.take(n)] + rest
        }
    }
}

/// Where the first `k` characters of a path are no slashes and the path ends
/// there or goes on with a slash, its head is `k` characters long.
proof fn lemma_head_len(path: Seq<char>, k: int)
    requires
        0 <= k <= path.len(),
        forall|j: int| 0 <= j < k ==> path[j] != '/',
        k == path.len() || path[k] == '/',
    ensures
        head_len(path) == k,
    decreases k,
{
    if k > 0 {
        assert(path[0] != '/');
        let rest = path.skip(1);
        assert forall|j: int| 0 <= j < k - 1 implies rest[j] != '/' by {
            assert(rest[j] == path[j + 1]);
        }
        lemma_head_len(rest, k - 1);
    }
}

/// The segments of a path.
pub fn segments(path: &str) -> (r: Vec<String>)
    ensures
        r.deep_view() == segments_of(path@),
{
    let n = path.unicode_len();
    let mut out: Vec<String> = Vec::new();
    let mut start: usize = 0;
    let mut i: usize = 0;
    proof {
        assert(path@.skip(0) == path@);
        assert(out.deep_view() + segments_of(path@) == segments_of(path@));
    }
    while i < n
        invariant
            n == path@.len(),
            start <= i <= n,
            forall|k: int| start <= k < i ==> path@[k] != '/',
            out.deep_view() + segments_of(path@.skip(start as int)) == segments_of(path@),
        decreases n - i,
    {
        if path.get_char(i) == '/' {
            let ghost tail = path@.skip(start as int);
            let ghost before = out.deep_view();
            proof {
                assert forall|j: int| 0 <= j < i - start implies tail[j] != '/' by {
                    assert(tail[j] == path@[start + j]);
                }
                assert(tail[i - start] == path@[i as int]);
                lemma_head_len(tail, i - start);
                assert(tail.skip(i - start + 1) == path@.skip(i + 1));
                assert(tail.take(i - start) == path@.subrange(start as int, i as int));
            }
            if i > start {
                let piece = path.substring_char(start, i).to_owned();
                proof {
                    assert(out.deep_view().push(piece@) + segments_of(path@.skip(i + 1)) == before + (seq![
                        piece@,
                    ] + segments_of(path@.skip(i + 1))));
                }
                out.push(piece);
                proof {
                    assert(out.deep_view() == before.push(piece@));
                }
            }
            start = i + 1;
        }
        i += 1;
    }
    proof {
        let tail = path@.skip(start as int);
        assert forall|j: int| 0 <= j < n - start implies tail[j] != '/' by {
            assert(tail[j] == path@[start + j]);
        }
        lemma_head_len(tail, n - start);
        assert(tail.take(n - start) == path@.subrange(start as int, n as int));
    }
    if n > start {
        let ghost before = out.deep_view();
        let piece = path.substring_char(start, n).to_owned();
        out.push(piece);
        proof {
            assert(out.deep_view() == before.push(piece@));
            assert(before.push(piece@) == before + seq![piece@]);
        }
    } else {
        proof {
            assert(path@.skip(start as int).len() == 0);
            assert(out.deep_view() + Seq::<Seq<char>>::empty() == out.deep_view());
        }
    }
    out
}

/// The operation that a method and a path ask for.
pub fn route_path(method: Method, path: &str) -> (r: Result<Route, RouteError>)
    ensures
        match r {
            Ok(route) => routed(method, segments_of(path@)) == Ok::<RouteView, RouteError>(route@),
            Err(e) => routed(method, segments_of(path@)) == Err::<RouteView, RouteError>(e),
        },
{
    let parts = segments(path);
    route(method, &parts)
}

/// The operation that a method and the segments of a path ask for.
pub fn route(method: Method, segments: &Vec<String>) -> (r: Result<Route, RouteError>)
    ensures
        match r {
            Ok(route) => routed(method, segments.deep_view()) == Ok::<RouteView, RouteError>(route@),
            Err(e) => routed(method, segments.deep_view()) == Err::<RouteView, RouteError>(e),
        },
{
    match target(method, segments) {
        None => Err(RouteError::NotFound),
        Some(t) => {
            let id = if segments.len() > 3 {
                assert(segments.deep_view()[3] == segments@[3]@);
                parse_str(segments[3].as_str())
            } else {
                None
            };
            resolve(t, id)
        },
    }
}

/// The status that the interface answers a failed operation with: a cloud
/// that is not known is a bad request; everything else is reported as not
/// found.
pub fn status_of(error: &Error) -> (r: u16)
    ensures
        r == if error@ is UnknownCloud {
            400u16
        } else {
            404u16
        },
{
    match error {
        Error::UnknownCloud(_) => 400,
        _ => 404,
    }
}

/// The status that the interface answers a request without a route with.
pub fn status_of_route_error(error: RouteError) -> (r: u16)
    ensures
        r == match error {
            RouteError::NotFound => 404u16,
            RouteError::BadRequest => 400u16,
        },
{
    match error {
        RouteError::NotFound => 404,
        RouteError::BadRequest => 400,
    }
}

} // verus!
