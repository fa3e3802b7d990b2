use liburuz::api::v1::{Action as ShownAction, ModelConfigure, RuneConfigure};
use liburuz::clouds::Cloud;
use liburuz::dict::Dict;
use liburuz::rune::metadata::{ConfigItem, Metadata};
use liburuz::rune::v1::Rune;
use liburuz::server::controller::{Controller, Slot, Task};
use liburuz::server::error::Error;
use liburuz::server::model::{Action, Model, ModelConfig, ModelStatus, Queued};

/// Plays the surroundings of the controller: goes round, hands each running
/// request to its back end and reports back, reports each pause as over,
/// until nothing runs any more.
fn drive(controller: &mut Controller, clock: &mut u128) {
    loop {
        *clock += 1;
        controller.rehydrate(*clock);
        let mut worked = false;
        for id in controller.list_model_ids() {
            match controller.get_slot(id) {
                Some(Slot::Running(request)) => {
                    let active = controller.get_model(id).unwrap().active.clone().unwrap();
                    assert_eq!(active.id, request);
                    let cloud = controller.get_cloud(id).unwrap();
                    *clock += 1;
                    let done = cloud.handle_request(active, Ok(()), *clock);
                    *clock += 1;
                    controller.complete(id, done.map(Some), *clock).unwrap();
                    worked = true;
                }
                Some(Slot::Idle) => {
                    *clock += 1;
                    let next = controller.complete(id, Ok(None), *clock).unwrap();
                    worked = worked || next.request.is_some();
                }
                None => {}
            }
        }
        if !worked {
            break;
        }
    }
}

fn configure(value: &str) -> Action {
    ModelConfigure { foo: Some(value.to_string()) }.into_action()
}

fn history_ids(controller: &Controller, model: u128) -> Vec<u128> {
    controller.get_model(model).unwrap().history.iter().map(|c| c.id).collect()
}

fn mariadb() -> Rune {
    let mut config = Dict::new();
    for (name, default) in [("database", "mysql-db"), ("user", "mysql-user")] {
        config.insert(
            name.to_string(),
            ConfigItem::String {
                description: name.to_string(),
                default: default.to_string(),
                transformer: None,
            },
        );
    }
    for name in ["password", "root-password"] {
        config.insert(
            name.to_string(),
            ConfigItem::Secret { description: name.to_string(), source: None, transformer: None },
        );
    }
    Rune {
        metadata: Metadata {
            name: "mariadb".to_string(),
            description: String::new(),
            repo: String::new(),
            maintainers: vec![],
            tags: vec![],
            series: vec![],
            provides: vec![],
            requires: vec![],
            dependencies: Dict::new(),
            react: None,
            config,
        },
        template: vec![],
        transformers: None,
        react: None,
    }
}

#[test]
fn test_uruzd_test_main() {
    let mut controller = Controller::new();
    let mut clock: u128 = 0;

    // The model starts off with the default configuration, then it changes.
    let model = controller.create_model(Cloud::Dummy, "test-model-config").unwrap();
    assert_eq!(model.get_state().unwrap().config, ModelConfig { foo: None });
    let id = model.id;
    controller.update_model(id, configure("bar"), clock).unwrap();
    drive(&mut controller, &mut clock);
    let shown = controller.get_model(id).unwrap().into_api().unwrap();
    assert_eq!(shown.state.config, ModelConfig { foo: Some("bar".into()) });

    // Two requests one after the other, without waiting in between.
    controller.update_model(id, configure("baz1"), clock).unwrap();
    controller.update_model(id, configure("baz2"), clock).unwrap();
    drive(&mut controller, &mut clock);
    let shown = controller.get_model(id).unwrap().into_api().unwrap();
    assert_eq!(shown.state.config, ModelConfig { foo: Some("baz2".into()) });
    assert_eq!(
        shown.requests.iter().map(|r| &r.action).collect::<Vec<_>>(),
        vec![
            &ShownAction::ConfigureModel { foo: Some("bar".into()) },
            &ShownAction::ConfigureModel { foo: Some("baz1".into()) },
            &ShownAction::ConfigureModel { foo: Some("baz2".into()) }
        ]
    );

    // After the model is destroyed it cannot be changed.
    controller.delete_model(id, clock).unwrap();
    drive(&mut controller, &mut clock);
    assert!(controller.update_model(id, configure("baz"), clock).is_err());

    // Runes.
    let model = controller.create_model(Cloud::Dummy, "test-runes").unwrap();
    let id = model.id;
    controller.add_rune(id, "mariadb".into(), mariadb(), clock).unwrap();
    drive(&mut controller, &mut clock);
    let shown = controller.get_model(id).unwrap().into_api().unwrap();
    let rune = shown.state.runes.get("mariadb").unwrap();
    assert_eq!(rune.state.len(), 4);
    assert_eq!(rune.state.get("database"), Some(&Some("mysql-db".to_string())));
    assert_eq!(rune.state.get("user"), Some(&Some("mysql-user".to_string())));
    assert_eq!(rune.state.get("password"), Some(&None));
    assert_eq!(rune.state.get("root-password"), Some(&None));

    let request = RuneConfigure { attribute: "password".into(), value: "password".into() };
    controller.update_model(id, request.into_action("mariadb".into()), clock).unwrap();
    drive(&mut controller, &mut clock);
    let shown = controller.get_model(id).unwrap().into_api().unwrap();
    let rune = shown.state.runes.get("mariadb").unwrap();
    assert_eq!(rune.state.get("password").unwrap(), &Some("password".into()));
}

#[test]
fn test_runed_test_main() {
    let mut controller = Controller::new();
    let mut clock: u128 = 0;
    let cloud = Cloud::from_name("dummy").unwrap();
    let model = controller.create_model(cloud, "test-model").unwrap();
    assert_eq!(model.get_state().unwrap().config, ModelConfig { foo: None });
    controller.update_model(model.id, configure("baz"), clock).unwrap();
    drive(&mut controller, &mut clock);
    let state = controller.get_model(model.id).unwrap().get_state().unwrap();
    assert_eq!(state.config, ModelConfig { foo: Some("baz".into()) });
}

#[test]
fn create_configure_read() {
    let mut controller = Controller::new();
    let mut clock: u128 = 0;
    let x = controller.create_model(Cloud::Dummy, "m").unwrap().id;
    let r1 = controller.update_model(x, configure("baz"), clock).unwrap();
    assert!(controller.get_model(x).unwrap().backlog.iter().any(|q| q.id == r1));
    drive(&mut controller, &mut clock);
    assert_eq!(history_ids(&controller, x), vec![r1]);
    let model = controller.get_model(x).unwrap();
    assert_eq!(model.get_state().unwrap().config.foo, Some("baz".to_string()));
    assert_eq!(model.get_status(), ModelStatus::Requested);
    assert_eq!(model.get_state().unwrap().status, ModelStatus::Requested);
}

#[test]
fn the_state_is_ready_once_a_creation_is_recorded() {
    let mut controller = Controller::new();
    let mut clock: u128 = 0;
    let x = controller.create_model(Cloud::Dummy, "m").unwrap().id;
    controller.update_model(x, Action::CreateModel { name: "m".to_string() }, clock).unwrap();
    drive(&mut controller, &mut clock);
    let state = controller.get_model(x).unwrap().get_state().unwrap();
    assert_eq!(state.status, ModelStatus::Ready);
}

#[test]
fn two_configures_keep_their_order() {
    let mut controller = Controller::new();
    let mut clock: u128 = 0;
    let x = controller.create_model(Cloud::Dummy, "m").unwrap().id;
    let a = controller.update_model(x, configure("baz1"), clock).unwrap();
    let b = controller.update_model(x, configure("baz2"), clock).unwrap();
    drive(&mut controller, &mut clock);
    assert_eq!(history_ids(&controller, x), vec![a, b]);
    let model = controller.get_model(x).unwrap();
    assert_eq!(model.get_state().unwrap().config.foo, Some("baz2".to_string()));
    let actions: Vec<&Action> = model.history.iter().map(|c| &c.action).collect();
    assert_eq!(actions, vec![&configure("baz1"), &configure("baz2")]);
    assert!(model.history[0].completed <= model.history[1].completed);
}

#[test]
fn destroy_is_terminal() {
    let mut controller = Controller::new();
    let mut clock: u128 = 0;
    let x = controller.create_model(Cloud::Dummy, "m").unwrap().id;
    controller.delete_model(x, clock).unwrap();
    drive(&mut controller, &mut clock);
    assert_eq!(controller.get_model(x).unwrap().get_status(), ModelStatus::Destroyed);
    assert_eq!(controller.get_model(x).unwrap().get_state().unwrap().status, ModelStatus::Destroyed);
    let before = controller.get_model(x).unwrap().clone();
    assert_eq!(controller.update_model(x, configure("baz"), clock), Err(Error::ModelAlreadyDeleted(x)));
    assert_eq!(controller.delete_model(x, clock), Err(Error::ModelAlreadyDeleted(x)));
    assert_eq!(
        controller.add_rune(x, "mariadb".into(), mariadb(), clock),
        Err(Error::ModelAlreadyDeleted(x))
    );
    drive(&mut controller, &mut clock);
    assert_eq!(controller.get_model(x).unwrap(), &before);
    assert_eq!(controller.get_slot(x), None);
}

#[test]
fn what_was_queued_behind_a_destruction_never_completes() {
    let mut controller = Controller::new();
    let mut clock: u128 = 0;
    let x = controller.create_model(Cloud::Dummy, "m").unwrap().id;
    let destroy = controller.delete_model(x, clock).unwrap();
    let late = controller.update_model(x, configure("late"), clock).unwrap();
    drive(&mut controller, &mut clock);
    assert_eq!(history_ids(&controller, x), vec![destroy]);
    assert_eq!(controller.get_slot(x), None);
    let model = controller.get_model(x).unwrap();
    assert_eq!(model.active.as_ref().map(|a| a.id), Some(late));
    assert_eq!(controller.complete(x, Ok(None), clock), Err(Error::ModelAlreadyDeleted(x)));
}

#[test]
fn rune_attach_and_configure() {
    let mut controller = Controller::new();
    let mut clock: u128 = 0;
    let x = controller.create_model(Cloud::Dummy, "m").unwrap().id;
    controller.add_rune(x, "mariadb".to_string(), mariadb(), clock).unwrap();
    drive(&mut controller, &mut clock);
    let state = controller.get_model(x).unwrap().get_state().unwrap();
    let rune = state.runes.get("mariadb").unwrap();
    assert_eq!(rune.state.len(), 4);
    assert_eq!(rune.state.get("database"), Some(&Some("mysql-db".to_string())));
    assert_eq!(rune.state.get("user"), Some(&Some("mysql-user".to_string())));
    assert_eq!(rune.state.get("password"), Some(&None));
    assert_eq!(rune.state.get("root-password"), Some(&None));
    let request = RuneConfigure { attribute: "password".to_string(), value: "pw".to_string() };
    controller.update_model(x, request.into_action("mariadb".to_string()), clock).unwrap();
    drive(&mut controller, &mut clock);
    let state = controller.get_model(x).unwrap().get_state().unwrap();
    assert_eq!(state.runes.get("mariadb").unwrap().state.get("password"), Some(&Some("pw".to_string())));
}

#[test]
fn names_are_unique_among_live_models() {
    let mut controller = Controller::new();
    let mut clock: u128 = 0;
    let first = controller.create_model(Cloud::Dummy, "dup").unwrap();
    assert_eq!(
        controller.create_model(Cloud::Dummy, "dup"),
        Err(Error::ModelAlreadyExists("dup".to_string()))
    );
    assert_eq!(controller.list_model_ids(), vec![first.id]);
    assert_eq!(controller.lookup_by_name("dup"), Some(first.id));
    assert_eq!(controller.lookup_by_name("other"), None);
    controller.delete_model(first.id, clock).unwrap();
    drive(&mut controller, &mut clock);
    assert_eq!(controller.lookup_by_name("dup"), None);
    let second = controller.create_model(Cloud::Kubernetes, "dup").unwrap();
    assert_ne!(second.id, first.id);
    assert_eq!(controller.list_model_ids(), vec![first.id, second.id]);
}

#[test]
fn restart_recovery() {
    let mut controller = Controller::new();
    let mut clock: u128 = 0;
    let y = controller.create_model(Cloud::Dummy, "y").unwrap().id;
    let a = controller.update_model(y, configure("one"), clock).unwrap();
    let b = controller.update_model(y, configure("two"), clock).unwrap();
    let c = controller.update_model(y, configure("three"), clock).unwrap();
    let stored: Vec<Model> =
        controller.list_model_ids().iter().map(|id| controller.get_model(*id).unwrap().clone()).collect();
    let mut restarted = Controller::restore(stored).unwrap();
    assert_eq!(restarted.get_slot(y), None);
    drive(&mut restarted, &mut clock);
    assert_eq!(history_ids(&restarted, y), vec![a, b, c]);
    assert_eq!(restarted.get_model(y).unwrap().get_state().unwrap().config.foo, Some("three".to_string()));
}

#[test]
fn a_restart_in_the_middle_keeps_state_and_backlog() {
    let mut controller = Controller::new();
    let mut clock: u128 = 0;
    let y = controller.create_model(Cloud::Dummy, "y").unwrap().id;
    let a = controller.update_model(y, configure("one"), clock).unwrap();
    drive(&mut controller, &mut clock);
    let b = controller.update_model(y, configure("two"), clock).unwrap();
    let c = controller.update_model(y, configure("three"), clock).unwrap();
    let before = controller.get_model(y).unwrap().clone();
    let mut restarted = Controller::restore(vec![before.clone()]).unwrap();
    let tasks = restarted.rehydrate(100);
    assert_eq!(tasks, vec![Task { model: y, cloud: Cloud::Dummy, request: Some(b) }]);
    let after = restarted.get_model(y).unwrap();
    assert_eq!(after.history, before.history);
    assert_eq!(after.get_state(), before.get_state());
    assert_eq!(after.active.as_ref().map(|x| x.id), Some(b));
    assert_eq!(after.backlog.iter().map(|q| q.id).collect::<Vec<_>>(), vec![c]);
    assert_eq!(history_ids(&restarted, y), vec![a]);
}

#[test]
fn restoring_refuses_clashing_models() {
    let mut first = Model::with_name("same".to_string(), Cloud::Dummy);
    let mut second = Model::with_name("same".to_string(), Cloud::Dummy);
    assert_eq!(
        Controller::restore(vec![first.clone(), second.clone()]).err(),
        Some(Error::ModelAlreadyExists("same".to_string()))
    );
    second.name = "other".to_string();
    assert!(Controller::restore(vec![first.clone(), second.clone()]).is_ok());
    first.id = 0xa1a2a3a4_b1b2_c1c2_d1d2_d3d4d5d6d7d8;
    second.id = first.id;
    assert_eq!(
        Controller::restore(vec![first, second]).err(),
        Some(Error::ModelAlreadyExists("a1a2a3a4-b1b2-c1c2-d1d2-d3d4d5d6d7d8".to_string()))
    );
}

#[test]
fn unknown_models_are_reported() {
    let mut controller = Controller::new();
    assert_eq!(controller.get_model(5).err(), Some(Error::ModelLoad(5)));
    assert_eq!(controller.get_cloud(5), Err(Error::ModelLoad(5)));
    assert_eq!(controller.get_slot(5), None);
    assert_eq!(controller.update_model(5, configure("x"), 0), Err(Error::ModelLoad(5)));
    assert_eq!(controller.add_to_backlog(5, Queued::from_action(configure("x"), 0)), Err(Error::ModelLoad(5)));
    assert_eq!(controller.get_next_task(5, None, 0), Err(Error::ModelLoad(5)));
    assert_eq!(controller.complete(5, Ok(None), 0), Err(Error::ModelLoad(5)));
    assert!(controller.rehydrate(0).is_empty());
}

#[test]
fn one_request_runs_per_model_and_an_idle_model_pauses() {
    let mut controller = Controller::new();
    let m = controller.create_model(Cloud::Dummy, "m").unwrap().id;
    let n = controller.create_model(Cloud::AWS, "n").unwrap().id;
    let a = controller.update_model(m, configure("a"), 1).unwrap();
    let b = controller.update_model(m, configure("b"), 2).unwrap();
    let tasks = controller.rehydrate(3);
    assert_eq!(
        tasks,
        vec![
            Task { model: m, cloud: Cloud::Dummy, request: Some(a) },
            Task { model: n, cloud: Cloud::AWS, request: None }
        ]
    );
    assert_eq!(controller.get_slot(m), Some(Slot::Running(a)));
    assert_eq!(controller.get_slot(n), Some(Slot::Idle));
    assert!(controller.rehydrate(4).is_empty());
    assert_eq!(controller.get_model(m).unwrap().active.as_ref().unwrap().id, a);
    assert_eq!(controller.get_model(m).unwrap().backlog.len(), 1);
    let late = controller.update_model(n, configure("late"), 5).unwrap();
    assert_eq!(controller.complete(n, Ok(None), 6), Ok(Task { model: n, cloud: Cloud::AWS, request: Some(late) }));
    let active = controller.get_model(m).unwrap().active.clone().unwrap();
    let done = Cloud::Dummy.handle_request(active, Ok(()), 7).unwrap();
    assert_eq!(controller.complete(m, Ok(Some(done)), 8), Ok(Task { model: m, cloud: Cloud::Dummy, request: Some(b) }));
    assert_eq!(history_ids(&controller, m), vec![a]);
}

#[test]
fn a_failed_request_is_dropped_and_the_next_one_starts() {
    let mut controller = Controller::new();
    let m = controller.create_model(Cloud::Kubernetes, "m").unwrap().id;
    let a = controller.update_model(m, configure("a"), 1).unwrap();
    let b = controller.update_model(m, configure("b"), 2).unwrap();
    controller.rehydrate(3);
    let active = controller.get_model(m).unwrap().active.clone().unwrap();
    assert_eq!(active.id, a);
    let failed = Cloud::Kubernetes.handle_request(active, Err(Error::AdapterFailure("down".to_string())), 4);
    assert_eq!(failed, Err(Error::AdapterFailure("down".to_string())));
    let next = controller.complete(m, failed.map(Some), 5).unwrap();
    assert_eq!(next, Task { model: m, cloud: Cloud::Kubernetes, request: Some(b) });
    let model = controller.get_model(m).unwrap();
    assert!(model.history.is_empty());
    assert_eq!(model.active.as_ref().unwrap().id, b);
    assert!(model.get_requests().iter().all(|r| r.id != a));
}

fn all_ids(model: &Model) -> Vec<u128> {
    let mut ids: Vec<u128> = model.history.iter().map(|c| c.id).collect();
    ids.extend(model.active.iter().map(|a| a.id));
    ids.extend(model.backlog.iter().map(|q| q.id));
    ids
}

#[test]
fn no_identifier_belongs_to_two_requests() {
    let mut controller = Controller::new();
    let mut clock: u128 = 0;
    let x = controller.create_model(Cloud::Dummy, "m").unwrap().id;
    for value in ["a", "b", "c", "d", "e"] {
        controller.update_model(x, configure(value), clock).unwrap();
    }
    for round in 0..4 {
        let model = controller.get_model(x).unwrap();
        let ids = all_ids(model);
        assert_eq!(ids.len(), 5);
        for i in 0..ids.len() {
            for j in 0..i {
                assert_ne!(ids[i], ids[j]);
            }
        }
        assert_eq!(ids, model.get_requests().iter().map(|r| r.id).collect::<Vec<_>>());
        assert!(model.active.iter().count() <= 1);
        if round == 0 {
            controller.rehydrate(clock);
        } else {
            let active = controller.get_model(x).unwrap().active.clone().unwrap();
            clock += 1;
            let done = Cloud::Dummy.handle_request(active, Ok(()), clock).unwrap();
            controller.complete(x, Ok(Some(done)), clock).unwrap();
        }
    }
    let model = controller.get_model(x).unwrap();
    assert_eq!(model.history.len(), 3);
    assert!(model.history.windows(2).all(|w| w[0].completed <= w[1].completed));
}

#[test]
fn the_controller_takes_no_request_identifier_twice() {
    let mut controller = Controller::new();
    let x = controller.create_model(Cloud::Dummy, "m").unwrap().id;
    let first = Queued { id: 11, action: configure("a"), queued: 1 };
    assert_eq!(controller.add_to_backlog(x, first.clone()), Ok(11));
    let before = controller.get_model(x).unwrap().clone();
    assert_eq!(controller.add_to_backlog(x, first), Err(Error::RequestAlreadyExists(11)));
    assert_eq!(controller.get_model(x).unwrap(), &before);
    let a = controller.update_model(x, configure("b"), 2).unwrap();
    assert_ne!(a, 11);
    let mut forged = Model::with_name("forged".to_string(), Cloud::Dummy);
    forged.backlog.push_back(Queued { id: 5, action: configure("a"), queued: 1 });
    forged.backlog.push_back(Queued { id: 5, action: configure("b"), queued: 2 });
    assert_eq!(controller.save_model(forged.clone()), Err(Error::RequestAlreadyExists(5)));
    assert_eq!(Controller::restore(vec![forged]).err(), Some(Error::RequestAlreadyExists(5)));
    assert_eq!(controller.list_model_ids(), vec![x]);
}
