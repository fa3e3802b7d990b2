use liburuz::api::v1::{Action as ShownAction, ActionKind, Model as ShownModel};
use liburuz::clouds::Cloud;
use liburuz::server::error::Error;
use liburuz::server::model::{
    Action, Active, Completed, Model, ModelConfig, ModelStatus, Phase, Queued,
};

fn configure(value: &str) -> Action {
    Action::ConfigureModel { foo: Some(value.to_string()) }
}

fn model_with_ids() -> Model {
    let mut model = Model::with_name("m".to_string(), Cloud::Dummy);
    model.id = 7;
    model
}

fn queued(id: u128, action: Action, at: u128) -> Queued {
    Queued { id, action, queued: at }
}

fn finish(model: &Model, at: u128) -> Completed {
    Completed::from_active(model.active.clone().unwrap(), at)
}

#[test]
fn a_new_model_is_requested_and_empty() {
    let model = Model::with_name("m".to_string(), Cloud::Dummy);
    assert_eq!(model.name, "m");
    assert_eq!(model.cloud, Cloud::Dummy);
    assert_eq!(model.get_status(), ModelStatus::Requested);
    assert_eq!(model.get_state().unwrap().status, ModelStatus::Requested);
    assert!(!model.is_destroyed());
    assert!(model.backlog.is_empty());
    assert!(model.active.is_none());
    assert!(model.history.is_empty());
}

#[test]
fn fresh_identifiers_are_random_version_four() {
    let a = Model::with_name("a".to_string(), Cloud::Dummy);
    let b = Model::with_name("b".to_string(), Cloud::Dummy);
    assert_ne!(a.id, b.id);
    let mask: u128 = 0x0000_0000_0000_f000_c000_0000_0000_0000;
    let marks: u128 = 0x0000_0000_0000_4000_8000_0000_0000_0000;
    assert_eq!(a.id & mask, marks);
    let q = Queued::from_action(Action::DestroyModel, 5);
    assert_eq!(q.id & mask, marks);
    assert_eq!(q.queued, 5);
    assert_eq!(q.action, Action::DestroyModel);
}

#[test]
fn a_request_keeps_its_parts_through_its_life() {
    let q = queued(1, configure("x"), 10);
    let a = Active::from_queued(q, 20);
    assert_eq!(a, Active { id: 1, action: configure("x"), queued: 10, started: 20 });
    assert_eq!(a.get_action(), &configure("x"));
    let c = Completed::from_active(a, 30);
    assert_eq!(
        c,
        Completed { id: 1, action: configure("x"), queued: 10, started: 20, completed: 30 }
    );
}

#[test]
fn append_puts_the_request_at_the_tail() {
    let mut model = model_with_ids();
    assert_eq!(model.append(queued(1, configure("a"), 1)), Ok(1));
    assert_eq!(model.append(queued(2, configure("b"), 2)), Ok(2));
    assert_eq!(model.backlog.len(), 2);
    assert_eq!(model.backlog[0].id, 1);
    assert_eq!(model.backlog[1].id, 2);
    assert!(model.active.is_none());
    assert!(model.history.is_empty());
}

#[test]
fn advance_without_backlog_leaves_the_model_idle() {
    let mut model = model_with_ids();
    assert_eq!(model.advance(None, 5), None);
    assert!(model.active.is_none());
    assert!(model.backlog.is_empty());
    assert!(model.history.is_empty());
}

#[test]
fn advance_promotes_the_head_of_the_backlog() {
    let mut model = model_with_ids();
    model.append(queued(1, configure("a"), 1)).unwrap();
    model.append(queued(2, configure("b"), 2)).unwrap();
    assert_eq!(model.advance(None, 5), Some(1));
    assert_eq!(
        model.active,
        Some(Active { id: 1, action: configure("a"), queued: 1, started: 5 })
    );
    assert_eq!(model.backlog.len(), 1);
    assert_eq!(model.backlog[0].id, 2);
}

#[test]
fn advance_with_a_completed_request_extends_the_history() {
    let mut model = model_with_ids();
    model.append(queued(1, configure("a"), 1)).unwrap();
    model.append(queued(2, configure("b"), 2)).unwrap();
    model.advance(None, 5);
    let done = finish(&model, 6);
    assert_eq!(model.advance(Some(done), 7), Some(2));
    assert_eq!(model.history.len(), 1);
    assert_eq!(
        model.history[0],
        Completed { id: 1, action: configure("a"), queued: 1, started: 5, completed: 6 }
    );
    assert_eq!(model.active.as_ref().unwrap().id, 2);
    assert_eq!(model.active.as_ref().unwrap().started, 7);
    assert!(model.backlog.is_empty());
    let done = finish(&model, 8);
    assert_eq!(model.advance(Some(done), 9), None);
    assert_eq!(model.history.len(), 2);
    assert!(model.active.is_none());
}

#[test]
fn advance_without_a_completed_request_drops_the_active_one() {
    let mut model = model_with_ids();
    model.append(queued(1, configure("a"), 1)).unwrap();
    model.append(queued(2, configure("b"), 2)).unwrap();
    model.advance(None, 5);
    assert_eq!(model.advance(None, 6), Some(2));
    assert!(model.history.is_empty());
    assert_eq!(model.active.as_ref().unwrap().id, 2);
    assert!(model.backlog.is_empty());
}

#[test]
fn get_next_task_refuses_while_a_request_is_active() {
    let mut model = model_with_ids();
    model.append(queued(1, configure("a"), 1)).unwrap();
    model.append(queued(2, configure("b"), 2)).unwrap();
    assert_eq!(model.get_next_task(5), Ok(Some(1)));
    let before = model.clone();
    assert_eq!(model.get_next_task(6), Err(Error::ExistingActiveTask(1)));
    assert_eq!(model, before);
}

#[test]
fn a_destroyed_model_takes_no_more_requests() {
    let mut model = model_with_ids();
    model.append(queued(1, Action::DestroyModel, 1)).unwrap();
    model.advance(None, 2);
    let done = finish(&model, 3);
    model.advance(Some(done), 4);
    assert!(model.is_destroyed());
    assert_eq!(model.get_status(), ModelStatus::Destroyed);
    let before = model.clone();
    assert_eq!(model.append(queued(2, configure("baz"), 5)), Err(Error::ModelAlreadyDeleted(7)));
    assert_eq!(model, before);
}

#[test]
fn the_status_follows_the_last_creation_or_destruction() {
    let mut model = model_with_ids();
    model.history.push(Completed {
        id: 1,
        action: Action::DestroyModel,
        queued: 1,
        started: 2,
        completed: 3,
    });
    model.history.push(Completed { id: 2, action: configure("a"), queued: 1, started: 2, completed: 3 });
    assert_eq!(model.get_status(), ModelStatus::Destroyed);
    model.history.push(Completed {
        id: 3,
        action: Action::CreateModel { name: "m".to_string() },
        queued: 1,
        started: 2,
        completed: 3,
    });
    assert_eq!(model.get_status(), ModelStatus::Ready);
    assert_eq!(model.get_state().unwrap().status, model.get_status());
    assert!(model.is_destroyed());
    let mut plain = model_with_ids();
    plain.history.push(Completed { id: 1, action: configure("a"), queued: 1, started: 2, completed: 3 });
    assert_eq!(plain.get_status(), ModelStatus::Requested);
    assert_eq!(plain.get_state().unwrap().status, ModelStatus::Requested);
}

#[test]
fn the_state_starts_as_requested_without_configuration() {
    let model = model_with_ids();
    let state = model.get_state().unwrap();
    assert_eq!(state.status, ModelStatus::Requested);
    assert_eq!(state.config, ModelConfig { foo: None });
    assert_eq!(state.runes.len(), 0);
    assert_eq!(ModelStatus::default(), ModelStatus::Requested);
    assert_eq!(ModelConfig::default(), ModelConfig { foo: None });
}

#[test]
fn the_state_adds_up_the_history_in_order() {
    let mut model = model_with_ids();
    for (id, action) in [
        (1, Action::CreateModel { name: "m".to_string() }),
        (2, configure("baz1")),
        (3, configure("baz2")),
    ] {
        model.history.push(Completed { id, action, queued: 1, started: 2, completed: 3 });
    }
    let state = model.get_state().unwrap();
    assert_eq!(state.status, ModelStatus::Ready);
    assert_eq!(state.config.foo, Some("baz2".to_string()));
    model.history.push(Completed { id: 4, action: Action::DestroyModel, queued: 1, started: 2, completed: 3 });
    assert_eq!(model.get_state().unwrap().status, ModelStatus::Destroyed);
}

#[test]
fn deriving_the_state_twice_gives_the_same_state() {
    let mut model = model_with_ids();
    model.history.push(Completed { id: 1, action: configure("a"), queued: 1, started: 2, completed: 3 });
    assert_eq!(model.get_state(), model.get_state());
}

#[test]
fn configuring_or_removing_a_missing_rune_fails_the_derivation() {
    let mut model = model_with_ids();
    model.history.push(Completed {
        id: 1,
        action: Action::ConfigureRune {
            name: "ghost".to_string(),
            attribute: "a".to_string(),
            value: "v".to_string(),
        },
        queued: 1,
        started: 2,
        completed: 3,
    });
    model.history.push(Completed { id: 2, action: configure("later"), queued: 1, started: 2, completed: 3 });
    assert_eq!(model.get_state(), Err(Error::UnknownRune("ghost".to_string())));
    assert_eq!(model.into_api(), Err(Error::UnknownRune("ghost".to_string())));
    let mut other = model_with_ids();
    other.history.push(Completed {
        id: 1,
        action: Action::RemoveRune { name: "gone".to_string() },
        queued: 1,
        started: 2,
        completed: 3,
    });
    assert_eq!(other.get_state(), Err(Error::UnknownRune("gone".to_string())));
}

#[test]
fn the_shown_requests_are_history_then_active_then_backlog() {
    let mut model = model_with_ids();
    model.append(queued(1, configure("a"), 10)).unwrap();
    model.append(queued(2, configure("b"), 11)).unwrap();
    model.append(queued(3, configure("c"), 12)).unwrap();
    model.advance(None, 20);
    let done = finish(&model, 30);
    model.advance(Some(done), 40);
    let shown = model.get_requests();
    assert_eq!(shown.len(), 3);
    assert_eq!(shown[0].id, 1);
    assert_eq!(shown[0].queued, 10);
    assert_eq!(shown[0].started, Some(20));
    assert_eq!(shown[0].completed, Some(30));
    assert_eq!(shown[1].id, 2);
    assert_eq!(shown[1].started, Some(40));
    assert_eq!(shown[1].completed, None);
    assert_eq!(shown[2].id, 3);
    assert_eq!(shown[2].started, None);
    assert_eq!(shown[2].completed, None);
    assert_eq!(shown[2].action, ShownAction::ConfigureModel { foo: Some("c".to_string()) });
    let active = shown.iter().filter(|r| r.started.is_some() && r.completed.is_none()).count();
    assert_eq!(active, 1);
}

#[test]
fn the_shown_model_carries_identity_requests_and_state() {
    let mut model = model_with_ids();
    model.id = 0xa1a2a3a4_b1b2_c1c2_d1d2_d3d4d5d6d7d8;
    model.history.push(Completed { id: 1, action: configure("bar"), queued: 1, started: 2, completed: 3 });
    let shown = ShownModel::from_model(&model).unwrap();
    assert_eq!(shown.id, "a1a2a3a4-b1b2-c1c2-d1d2-d3d4d5d6d7d8");
    assert_eq!(shown.name, "m");
    assert_eq!(shown.cloud, "dummy");
    assert_eq!(shown.requests.len(), 1);
    assert_eq!(shown.state.config.foo, Some("bar".to_string()));
    assert_eq!(shown, model.into_api().unwrap());
}

#[test]
fn the_kind_of_an_action_drops_the_rune() {
    assert_eq!(
        ActionKind::from_action(&Action::CreateModel { name: "m".to_string() }),
        ActionKind::CreateModel { name: "m".to_string() }
    );
    assert_eq!(
        ActionKind::from_action(&configure("x")),
        ActionKind::ConfigureModel { foo: Some("x".to_string()) }
    );
    assert_eq!(ActionKind::from_action(&Action::DestroyModel), ActionKind::DestroyModel);
    assert_eq!(
        ActionKind::from_action(&Action::RemoveRune { name: "r".to_string() }),
        ActionKind::RemoveRune
    );
    assert_eq!(
        ActionKind::from_action(&Action::ConfigureRune {
            name: "r".to_string(),
            attribute: "a".to_string(),
            value: "v".to_string()
        }),
        ActionKind::ConfigureRune
    );
    assert!(Action::DestroyModel.is_destroy());
    assert!(!configure("x").is_destroy());
}

#[test]
fn a_model_moves_through_its_phases() {
    let mut model = model_with_ids();
    assert_eq!(model.phase(), Phase::Idle);
    model.append(queued(1, configure("a"), 1)).unwrap();
    assert_eq!(model.phase(), Phase::HasBacklog);
    model.append(queued(2, Action::DestroyModel, 2)).unwrap();
    model.advance(None, 3);
    assert_eq!(model.phase(), Phase::Running);
    let done = finish(&model, 4);
    model.advance(Some(done), 5);
    assert_eq!(model.phase(), Phase::Running);
    let done = finish(&model, 6);
    model.advance(Some(done), 7);
    assert_eq!(model.phase(), Phase::Terminal);
    model.advance(None, 8);
    assert_eq!(model.phase(), Phase::Terminal);
}

#[test]
fn a_model_takes_no_identifier_twice() {
    let mut model = model_with_ids();
    model.append(queued(1, configure("a"), 1)).unwrap();
    model.append(queued(2, configure("b"), 2)).unwrap();
    model.append(queued(3, configure("c"), 3)).unwrap();
    model.advance(None, 4);
    let done = finish(&model, 5);
    model.advance(Some(done), 6);
    assert_eq!(model.request_ids(), vec![1, 2, 3]);
    assert_eq!(model.repeated_request(), None);
    for id in [1, 2, 3] {
        assert!(model.has_request(id));
        let before = model.clone();
        assert_eq!(model.append(queued(id, configure("again"), 7)), Err(Error::RequestAlreadyExists(id)));
        assert_eq!(model, before);
    }
    assert!(!model.has_request(4));
    assert_eq!(model.append(queued(4, configure("d"), 8)), Ok(4));
    assert_eq!(model.request_ids(), vec![1, 2, 3, 4]);
    model.backlog.push_back(queued(2, configure("forged"), 9));
    assert_eq!(model.repeated_request(), Some(2));
}
