use liburuz::api::route::{
    resolve, route, route_path, segments, status_of, status_of_route_error, target, Method, Route, RouteError,
    Target,
};
use liburuz::client::{is_completed, wait_for_action, ATTEMPTS};
use liburuz::clouds::aws::AWS;
use liburuz::clouds::kubernetes::{create_model, Kubernetes, NamespaceLookup};
use liburuz::clouds::{errand, AdapterCall, Cloud, Errand};
use liburuz::server::config::Config;
use liburuz::server::error::Error;
use liburuz::server::model::{Action, Active, Completed, Model, ModelStatus};
use liburuz::server::state::{desired_state, StateChange};
use liburuz::server::store::{list_model_ids, model_id_of, namespace_of, Slots};
use liburuz::traits::Cloud as BackEnd;
use std::collections::VecDeque;

fn active(action: Action) -> Active {
    Active { id: 9, action, queued: 1, started: 2 }
}

fn path(segments: &[&str]) -> Vec<String> {
    segments.iter().map(|s| s.to_string()).collect()
}

const X: &str = "a1a2a3a4-b1b2-c1c2-d1d2-d3d4d5d6d7d8";
const X_ID: u128 = 0xa1a2a3a4_b1b2_c1c2_d1d2_d3d4d5d6d7d8;

#[test]
fn clouds_are_known_by_their_names() {
    assert_eq!(Cloud::from_str("aws"), Ok(Cloud::AWS));
    assert_eq!(Cloud::from_str("dummy"), Ok(Cloud::Dummy));
    assert_eq!(Cloud::from_str("kubernetes"), Ok(Cloud::Kubernetes));
    assert_eq!(Cloud::from_name("kubernetes"), Ok(Cloud::Kubernetes));
    assert_eq!(Cloud::from_bytes(b"aws"), Ok(Cloud::AWS));
    assert_eq!(Cloud::from_bytes(b"dummy"), Ok(Cloud::Dummy));
    assert_eq!(Cloud::from_bytes(b"kubernetes"), Ok(Cloud::Kubernetes));
    assert_eq!(Cloud::from_str("azure"), Err(Error::UnknownCloud(b"azure".to_vec())));
    assert_eq!(Cloud::from_name("AWS"), Err(Error::UnknownCloud(b"AWS".to_vec())));
    assert_eq!(Cloud::from_bytes(b"aw"), Err(Error::UnknownCloud(b"aw".to_vec())));
    assert_eq!(Cloud::from_bytes(b""), Err(Error::UnknownCloud(vec![])));
    for cloud in [Cloud::AWS, Cloud::Dummy, Cloud::Kubernetes] {
        assert_eq!(Cloud::from_str(&cloud.to_string()), Ok(cloud));
        assert_eq!(Cloud::from_bytes(cloud.to_string().as_bytes()), Ok(cloud));
    }
    assert_eq!(Cloud::Kubernetes.to_string(), "kubernetes");
}

#[test]
fn the_dummy_is_never_called_and_the_others_are() {
    let create = Action::CreateModel { name: "m".to_string() };
    assert_eq!(Cloud::Dummy.adapter_call(&create), None);
    assert_eq!(
        Cloud::Kubernetes.adapter_call(&create),
        Some(AdapterCall::CreateModel { name: "m".to_string() })
    );
    assert_eq!(
        Cloud::AWS.adapter_call(&Action::ConfigureModel { foo: None }),
        Some(AdapterCall::ConfigureModel)
    );
    assert_eq!(Cloud::AWS.adapter_call(&Action::DestroyModel), Some(AdapterCall::DestroyModel));
    assert_eq!(
        Cloud::AWS.adapter_call(&Action::RemoveRune { name: "r".to_string() }),
        Some(AdapterCall::RemoveRune { name: "r".to_string() })
    );
    assert_eq!(
        Cloud::AWS.adapter_call(&Action::ConfigureRune {
            name: "r".to_string(),
            attribute: "a".to_string(),
            value: "v".to_string()
        }),
        Some(AdapterCall::ConfigureRune {
            name: "r".to_string(),
            attribute: "a".to_string(),
            value: "v".to_string()
        })
    );
}

#[test]
fn a_request_is_completed_where_the_call_succeeded() {
    let done = Completed { id: 9, action: Action::DestroyModel, queued: 1, started: 2, completed: 3 };
    assert_eq!(Cloud::AWS.handle_request(active(Action::DestroyModel), Ok(()), 3), Ok(done.clone()));
    assert_eq!(Cloud::Dummy.handle_request(active(Action::DestroyModel), Ok(()), 3), Ok(done.clone()));
    let failure = Error::AdapterFailure("no".to_string());
    assert_eq!(
        Cloud::AWS.handle_request(active(Action::DestroyModel), Err(failure.clone()), 3),
        Err(failure.clone())
    );
    assert_eq!(Cloud::Dummy.handle_request(active(Action::DestroyModel), Err(failure), 3), Ok(done));
}

#[test]
fn a_namespace_that_exists_stands_for_a_model_that_exists() {
    assert_eq!(
        create_model(NamespaceLookup::Found),
        Err(Error::ModelAlreadyExists("Namespace already exists!".to_string()))
    );
    assert_eq!(create_model(NamespaceLookup::Refused { reason: "NotFound".to_string() }), Ok(()));
    assert_eq!(
        create_model(NamespaceLookup::Refused { reason: "Forbidden".to_string() }),
        Err(Error::AdapterFailure("Forbidden".to_string()))
    );
    assert_eq!(
        create_model(NamespaceLookup::Failed { message: "no route".to_string() }),
        Err(Error::AdapterFailure("no route".to_string()))
    );
}

#[test]
fn every_operation_has_its_route() {
    assert_eq!(route(Method::Get, &path(&["api", "v1", "models"])), Ok(Route::ListModels));
    assert_eq!(route(Method::Post, &path(&["api", "v1", "models"])), Ok(Route::CreateModel));
    assert_eq!(route(Method::Get, &path(&["api", "v1", "models", X])), Ok(Route::GetModel { id: X_ID }));
    assert_eq!(
        route(Method::Delete, &path(&["api", "v1", "models", X])),
        Ok(Route::DeleteModel { id: X_ID })
    );
    assert_eq!(
        route(Method::Post, &path(&["api", "v1", "models", X, "config"])),
        Ok(Route::ConfigureModel { id: X_ID })
    );
    assert_eq!(
        route(Method::Post, &path(&["api", "v1", "models", X, "runes"])),
        Ok(Route::AddRune { id: X_ID })
    );
    assert_eq!(
        route(Method::Patch, &path(&["api", "v1", "models", X, "runes", "mariadb", "config"])),
        Ok(Route::ConfigureRune { id: X_ID, name: "mariadb".to_string() })
    );
}

#[test]
fn anything_else_has_no_route() {
    assert_eq!(route(Method::Patch, &path(&["api", "v1", "models"])), Err(RouteError::NotFound));
    assert_eq!(route(Method::Get, &path(&["api", "v2", "models"])), Err(RouteError::NotFound));
    assert_eq!(route(Method::Get, &path(&["api", "v1"])), Err(RouteError::NotFound));
    assert_eq!(route(Method::Get, &path(&[])), Err(RouteError::NotFound));
    assert_eq!(route(Method::Post, &path(&["api", "v1", "models", X])), Err(RouteError::NotFound));
    assert_eq!(route(Method::Get, &path(&["api", "v1", "models", X, "config"])), Err(RouteError::NotFound));
    assert_eq!(route(Method::Post, &path(&["api", "v1", "models", X, "rune"])), Err(RouteError::NotFound));
    assert_eq!(
        route(Method::Patch, &path(&["api", "v1", "models", X, "runes", "mariadb"])),
        Err(RouteError::NotFound)
    );
    assert_eq!(
        route(Method::Post, &path(&["api", "v1", "models", X, "runes", "mariadb", "config"])),
        Err(RouteError::NotFound)
    );
    assert_eq!(
        route(Method::Other, &path(&["api", "v1", "models", X, "runes", "mariadb", "config", "x"])),
        Err(RouteError::NotFound)
    );
}

#[test]
fn a_bad_identifier_is_a_bad_request() {
    assert_eq!(route(Method::Get, &path(&["api", "v1", "models", "nope"])), Err(RouteError::BadRequest));
    assert_eq!(
        route(Method::Post, &path(&["api", "v1", "models", "", "config"])),
        Err(RouteError::BadRequest)
    );
    assert_eq!(status_of_route_error(RouteError::BadRequest), 400);
    assert_eq!(status_of_route_error(RouteError::NotFound), 404);
    assert_eq!(status_of(&Error::UnknownCloud(b"x".to_vec())), 400);
    assert_eq!(status_of(&Error::ModelLoad(1)), 404);
    assert_eq!(status_of(&Error::ModelAlreadyExists("m".to_string())), 404);
}

#[test]
fn targets_resolve_with_the_identifier_read() {
    assert_eq!(target(Method::Get, &path(&["api", "v1", "models", "whatever"])), Some(Target::GetModel));
    assert_eq!(target(Method::Get, &path(&["api", "v1", "models"])), Some(Target::ListModels));
    assert_eq!(target(Method::Get, &path(&["api"])), None);
    assert_eq!(resolve(Target::ListModels, None), Ok(Route::ListModels));
    assert_eq!(resolve(Target::CreateModel, Some(4)), Ok(Route::CreateModel));
    assert_eq!(resolve(Target::GetModel, Some(4)), Ok(Route::GetModel { id: 4 }));
    assert_eq!(resolve(Target::GetModel, None), Err(RouteError::BadRequest));
    assert_eq!(resolve(Target::AddRune, None), Err(RouteError::BadRequest));
    assert_eq!(
        resolve(Target::ConfigureRune { name: "r".to_string() }, Some(4)),
        Ok(Route::ConfigureRune { id: 4, name: "r".to_string() })
    );
}

#[test]
fn a_client_waits_until_the_request_is_completed_or_gives_up() {
    let mut model = Model::with_name("m".to_string(), Cloud::Dummy);
    model.append(liburuz::server::model::Queued { id: 1, action: Action::DestroyModel, queued: 0 }).unwrap();
    let shown = model.into_api().unwrap();
    assert!(!is_completed(&shown, 1));
    assert_eq!(ATTEMPTS, 10);
    assert_eq!(wait_for_action(&shown, 1, ATTEMPTS), Ok(Some(9)));
    assert_eq!(wait_for_action(&shown, 1, 2), Ok(Some(1)));
    assert_eq!(wait_for_action(&shown, 1, 1), Err(Error::Timeout(1)));
    assert_eq!(wait_for_action(&shown, 1, 0), Err(Error::Timeout(1)));
    model.advance(None, 1);
    let started = model.into_api().unwrap();
    assert!(!is_completed(&started, 1));
    let done = Completed::from_active(model.active.clone().unwrap(), 2);
    model.advance(Some(done), 3);
    let shown = model.into_api().unwrap();
    assert!(is_completed(&shown, 1));
    assert!(!is_completed(&shown, 2));
    assert_eq!(wait_for_action(&shown, 1, 1), Ok(None));
    assert_eq!(wait_for_action(&shown, 2, 1), Err(Error::Timeout(2)));
}

#[test]
fn a_namespace_is_named_by_the_bytes_of_the_identifier() {
    let name = namespace_of(X_ID);
    assert_eq!(
        name,
        vec![0xa1, 0xa2, 0xa3, 0xa4, 0xb1, 0xb2, 0xc1, 0xc2, 0xd1, 0xd2, 0xd3, 0xd4, 0xd5, 0xd6, 0xd7, 0xd8]
    );
    assert_eq!(model_id_of(&name), Some(X_ID));
    assert_eq!(model_id_of(&namespace_of(0)), Some(0));
    assert_eq!(model_id_of(&namespace_of(u128::MAX)), Some(u128::MAX));
    assert_eq!(model_id_of(b"__sled__default"), None);
    assert_eq!(model_id_of(b"short"), None);
    assert_eq!(model_id_of(&[0u8; 17]), None);
    let names = vec![b"__sled__default".to_vec(), namespace_of(2), b"x".to_vec(), namespace_of(1)];
    assert_eq!(list_model_ids(&names), vec![2, 1]);
    assert_eq!(list_model_ids(&vec![]), Vec::<u128>::new());
}

#[test]
fn a_model_is_read_from_its_slots_where_all_are_there() {
    let model = Model::with_name("m".to_string(), Cloud::AWS);
    let slots = Slots::from_model(model.clone());
    assert_eq!(Model::from_tree(model.id, slots.clone()), Ok(model.clone()));
    let mut missing = slots.clone();
    missing.history = None;
    assert_eq!(Model::from_tree(3, missing), Err(Error::ModelLoad(3)));
    let mut missing = slots.clone();
    missing.id = None;
    assert_eq!(Model::from_tree(3, missing), Err(Error::ModelLoad(3)));
    let mut missing = slots;
    missing.active = None;
    missing.backlog = Some(VecDeque::new());
    assert_eq!(Model::from_tree(4, missing), Err(Error::ModelLoad(4)));
}

#[test]
fn the_changes_of_a_model_add_up_to_its_desired_status() {
    assert_eq!(desired_state(&vec![]), ModelStatus::Requested);
    assert_eq!(desired_state(&vec![StateChange::CreateModel]), ModelStatus::Requested);
    assert_eq!(
        desired_state(&vec![StateChange::CreateModel, StateChange::ModelCreated]),
        ModelStatus::Ready
    );
    assert_eq!(
        desired_state(&vec![
            StateChange::CreateModel,
            StateChange::ModelCreated,
            StateChange::ConfigureModel,
            StateChange::RuneAdded
        ]),
        ModelStatus::Ready
    );
    assert_eq!(
        desired_state(&vec![StateChange::ModelCreated, StateChange::CreateModel, StateChange::AddRune]),
        ModelStatus::Requested
    );
}

#[test]
fn the_settings_have_their_defaults() {
    let config = Config::default();
    assert_eq!(config.database_path, "uruz.sled");
    assert_eq!(config.api_host, [0, 0, 0, 0]);
    assert_eq!(config.api_port, 8000);
}

#[test]
fn the_back_ends_by_type_have_their_names() {
    assert_eq!(AWS {}.name(), "AWS");
    assert_eq!(AWS {}.create(), Ok(()));
    assert_eq!(Kubernetes {}.name(), "Kubernetes");
    assert_eq!(Kubernetes {}.create(), Ok(()));
}

#[test]
fn a_path_is_read_as_its_segments() {
    assert_eq!(segments("/api/v1/models"), path(&["api", "v1", "models"]));
    assert_eq!(segments("api/v1/models/"), path(&["api", "v1", "models"]));
    assert_eq!(segments("//api///v1//"), path(&["api", "v1"]));
    assert_eq!(segments(""), Vec::<String>::new());
    assert_eq!(segments("/"), Vec::<String>::new());
    assert_eq!(segments("x"), path(&["x"]));
    assert_eq!(segments("/r\u{fc}ne/\u{df}"), path(&["r\u{fc}ne", "\u{df}"]));
    for text in ["/api/v1/models/abc/runes/mariadb/config", "a//b/", "///", "no-slash"] {
        let expected: Vec<String> = text.split('/').filter(|s| !s.is_empty()).map(String::from).collect();
        assert_eq!(segments(text), expected);
    }
    assert_eq!(route_path(Method::Get, "/api/v1/models"), Ok(Route::ListModels));
    assert_eq!(
        route_path(Method::Patch, &format!("/api/v1/models/{}/runes/mariadb/config", X)),
        Ok(Route::ConfigureRune { id: X_ID, name: "mariadb".to_string() })
    );
    assert_eq!(route_path(Method::Get, "/api/v1/models/nope"), Err(RouteError::BadRequest));
    assert_eq!(route_path(Method::Get, "/elsewhere"), Err(RouteError::NotFound));
}

#[test]
fn each_call_has_its_errand() {
    let create = AdapterCall::CreateModel { name: "m".to_string() };
    assert_eq!(errand(Cloud::Dummy, None), Errand::Nothing);
    assert_eq!(errand(Cloud::Kubernetes, None), Errand::Nothing);
    assert_eq!(errand(Cloud::Dummy, Some(create.clone())), Errand::Nothing);
    assert_eq!(
        errand(Cloud::Kubernetes, Some(create.clone())),
        Errand::LookUpNamespace { name: "m".to_string() }
    );
    assert_eq!(
        errand(Cloud::Kubernetes, Some(AdapterCall::DestroyModel)),
        Errand::Fail(Error::AdapterFailure("kubernetes".to_string()))
    );
    assert_eq!(
        errand(Cloud::AWS, Some(create)),
        Errand::Fail(Error::AdapterFailure("aws".to_string()))
    );
}
