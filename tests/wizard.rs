use acdc::project::{App, FocusArea, ImageEntry, VolumeEntry};
use acdc::tab::Tab;
use acdc::wizard::{
    default_service_name, handle_key, preferred_container_port, split_port_mapping, ConfigureField, Effect, Key,
    LookupOutcome, LoopControl, ModalState, MountInputField,
};

fn entry(name: &str) -> ImageEntry {
    ImageEntry {
        service_name: name.to_string(),
        namespace: "library".to_string(),
        repo: name.to_string(),
        tag: "latest".to_string(),
        port_mapping: "8000:80".to_string(),
        mounts: Vec::new(),
        env_vars: Vec::new(),
    }
}

fn app_with(n: usize) -> App {
    let mut app = App::new("demo".to_string());
    for i in 0..n {
        app.images.push(entry(&format!("svc{i}")));
    }
    app
}

fn type_text(app: &mut App, text: &str) {
    for c in text.chars() {
        handle_key(app, Key::Char(c));
    }
}

#[test]
fn escape_cancels_any_step() {
    let mut app = app_with(2);
    app.volumes.push(VolumeEntry { name: "v".to_string() });
    app.images_selected = 1;
    app.modal = Some(ModalState::AddVolume { input: "half".to_string() });
    let before = app.compose_yaml();
    let effect = handle_key(&mut app, Key::Esc);
    assert!(matches!(effect, Effect::Continue));
    assert!(app.modal.is_none());
    assert_eq!(app.compose_yaml(), before);
    assert_eq!(app.images_selected, 1);
    assert_eq!(app.command_log.last().unwrap(), "modal canceled");
}

#[test]
fn delete_removes_and_clamps() {
    let mut app = app_with(3);
    app.images_selected = 2;
    app.modal = Some(ModalState::ConfirmDeleteImage { index: 2 });
    handle_key(&mut app, Key::Char('y'));
    assert_eq!(app.images.len(), 2);
    assert_eq!(app.images_selected, 1);
    assert!(app.modal.is_none());
    assert_eq!(app.command_log.last().unwrap(), "deleted image library/svc2:latest");
}

#[test]
fn delete_out_of_range_is_noop() {
    let mut app = app_with(2);
    app.modal = Some(ModalState::ConfirmDeleteImage { index: 5 });
    handle_key(&mut app, Key::Enter);
    assert_eq!(app.images.len(), 2);
    assert!(app.modal.is_none());
}

#[test]
fn delete_last_entry_resets_selection() {
    let mut app = app_with(1);
    app.modal = Some(ModalState::ConfirmDeleteImage { index: 0 });
    handle_key(&mut app, Key::Enter);
    assert!(app.images.is_empty());
    assert_eq!(app.images_selected, 0);
}

#[test]
fn existing_volume_without_volumes_redirects() {
    let mut app = app_with(1);
    app.modal = Some(ModalState::SelectImageVolumeSource { image_index: 0, selected_option: 0 });
    handle_key(&mut app, Key::Enter);
    match &app.modal {
        Some(ModalState::MountNewVolume { new_volume_input, target_input, active_field, .. }) => {
            assert_eq!(new_volume_input, "volume_1");
            assert_eq!(target_input, "/data");
            assert_eq!(*active_field, MountInputField::Source);
        }
        other => panic!("unexpected {:?}", other),
    }
    assert!(app.volumes.is_empty());
    handle_key(&mut app, Key::Enter);
    assert_eq!(app.volumes.len(), 1);
    assert_eq!(app.volumes[0].name, "volume_1");
    assert_eq!(app.images[0].mounts[0].source, "volume_1");
    assert_eq!(app.images[0].mounts[0].target, "/data");
}

#[test]
fn mount_existing_volume() {
    let mut app = app_with(1);
    app.volumes.push(VolumeEntry { name: "a".to_string() });
    app.volumes.push(VolumeEntry { name: "b".to_string() });
    app.modal = Some(ModalState::SelectImageVolumeSource { image_index: 0, selected_option: 0 });
    handle_key(&mut app, Key::Enter);
    handle_key(&mut app, Key::Down);
    handle_key(&mut app, Key::Tab);
    type_text(&mut app, "/srv");
    handle_key(&mut app, Key::Enter);
    assert!(app.modal.is_none());
    assert_eq!(app.images[0].mounts[0].source, "b");
    assert_eq!(app.images[0].mounts[0].target, "/srv");
    assert_eq!(app.volumes.len(), 2);
}

#[test]
fn local_path_needs_prefix() {
    let mut app = app_with(1);
    app.modal = Some(ModalState::SelectImageVolumeSource { image_index: 0, selected_option: 2 });
    handle_key(&mut app, Key::Enter);
    type_text(&mut app, "data");
    handle_key(&mut app, Key::Enter);
    assert!(matches!(app.modal, Some(ModalState::MountLocalPath { .. })));
    assert_eq!(app.command_log.last().unwrap(), "local path must start with ./ or /");
    assert!(app.images[0].mounts.is_empty());
    for _ in 0..4 {
        handle_key(&mut app, Key::Backspace);
    }
    type_text(&mut app, "./data");
    handle_key(&mut app, Key::Enter);
    assert!(app.modal.is_none());
    assert_eq!(app.images[0].mounts[0].source, "./data");
    assert!(app.volumes.is_empty());
}

#[test]
fn env_var_upsert() {
    let mut app = app_with(1);
    app.modal = Some(ModalState::AddImageEnv {
        image_index: 0,
        key_input: String::new(),
        value_input: String::new(),
        active_field: acdc::wizard::EnvInputField::Key,
    });
    type_text(&mut app, "db_host!");
    handle_key(&mut app, Key::Tab);
    type_text(&mut app, "x y");
    handle_key(&mut app, Key::Enter);
    assert_eq!(app.images[0].env_vars.len(), 1);
    assert_eq!(app.images[0].env_vars[0].key, "DB_HOST");
    assert_eq!(app.images[0].env_vars[0].value, "x y");
    assert_eq!(app.command_log.last().unwrap(), "added env DB_HOST on svc0");
    app.modal = Some(ModalState::AddImageEnv {
        image_index: 0,
        key_input: "DB_HOST".to_string(),
        value_input: "z".to_string(),
        active_field: acdc::wizard::EnvInputField::Key,
    });
    handle_key(&mut app, Key::Enter);
    assert_eq!(app.images[0].env_vars.len(), 1);
    assert_eq!(app.images[0].env_vars[0].value, "z");
    assert_eq!(app.command_log.last().unwrap(), "updated env DB_HOST on svc0");
}

#[test]
fn env_name_required() {
    let mut app = app_with(1);
    app.modal = Some(ModalState::AddImageEnv {
        image_index: 0,
        key_input: "  ".to_string(),
        value_input: "v".to_string(),
        active_field: acdc::wizard::EnvInputField::Value,
    });
    handle_key(&mut app, Key::Enter);
    assert!(app.modal.is_some());
    assert_eq!(app.command_log.last().unwrap(), "env variable name is required");
}

#[test]
fn add_image_flow() {
    let mut app = App::new("demo".to_string());
    app.active_tab = Tab::Images;
    handle_key(&mut app, Key::Char('n'));
    assert!(matches!(app.modal, Some(ModalState::AddImageType { .. })));
    type_text(&mut app, " nginx ");
    let effect = handle_key(&mut app, Key::Enter);
    let term = match effect {
        Effect::ResolveImage { term } => term,
        other => panic!("unexpected {:?}", other),
    };
    assert_eq!(term, "nginx");
    let tags: Vec<String> = ["1.2", "latest", "1.10"].iter().map(|s| s.to_string()).collect();
    app.complete_image_lookup(
        term,
        LookupOutcome::Found { namespace: "library".to_string(), repo: "nginx".to_string(), tags },
    );
    match &app.modal {
        Some(ModalState::SelectImageTag { filtered_tags, selected, .. }) => {
            assert_eq!(filtered_tags, &vec!["latest".to_string(), "1.10".to_string(), "1.2".to_string()]);
            assert_eq!(*selected, 0);
        }
        other => panic!("unexpected {:?}", other),
    }
    handle_key(&mut app, Key::Down);
    let effect = handle_key(&mut app, Key::Enter);
    match effect {
        Effect::FetchPorts { namespace, repo, tag } => {
            assert_eq!(namespace, "library");
            assert_eq!(repo, "nginx");
            assert_eq!(tag, "1.10");
        }
        other => panic!("unexpected {:?}", other),
    }
    app.complete_tag_selection(Ok(vec![22, 443, 8080]));
    match &app.modal {
        Some(ModalState::ConfigureImagePorts { host_port_input, container_port_input, service_name_input, active_field, .. }) => {
            assert_eq!(host_port_input, "8000");
            assert_eq!(container_port_input, "443");
            assert_eq!(service_name_input, "nginx");
            assert_eq!(*active_field, ConfigureField::HostPort);
        }
        other => panic!("unexpected {:?}", other),
    }
    assert_eq!(app.command_log.last().unwrap(), "resolved nginx -> library/nginx; set ports");
    type_text(&mut app, "9");
    handle_key(&mut app, Key::Enter);
    assert!(app.modal.is_none());
    assert_eq!(app.images.len(), 1);
    assert_eq!(app.images[0].port_mapping, "9:443");
    assert_eq!(app.images[0].tag, "1.10");
    assert_eq!(app.images_selected, 0);
}

#[test]
fn tag_choice_without_ports() {
    let mut app = app_with(2);
    app.modal = Some(ModalState::SelectImageTag {
        image_term: "x".to_string(),
        namespace: "me".to_string(),
        repo: "my.app".to_string(),
        all_tags: vec!["1".to_string()],
        query: String::new(),
        filtered_tags: vec!["1".to_string()],
        selected: 0,
    });
    app.complete_tag_selection(Err("offline".to_string()));
    match &app.modal {
        Some(ModalState::ConfigureImagePorts { host_port_input, container_port_input, service_name_input, .. }) => {
            assert_eq!(host_port_input, "8002");
            assert_eq!(container_port_input, "80");
            assert_eq!(service_name_input, "my_app");
        }
        other => panic!("unexpected {:?}", other),
    }
    assert_eq!(app.command_log[app.command_log.len() - 2], "port suggestions unavailable: offline");
}

#[test]
fn lookup_failures_are_logged() {
    let mut app = App::new("demo".to_string());
    app.modal = Some(ModalState::AddImageType { input: "x".to_string() });
    app.complete_image_lookup("x".to_string(), LookupOutcome::NoMatch);
    assert_eq!(app.command_log.last().unwrap(), "no repo match found");
    app.complete_image_lookup("x".to_string(), LookupOutcome::SearchFailed("boom".to_string()));
    assert_eq!(app.command_log.last().unwrap(), "repo search failed: boom");
    app.complete_image_lookup("x".to_string(), LookupOutcome::TagsFailed("401".to_string()));
    assert_eq!(app.command_log.last().unwrap(), "tag fetch failed: 401");
    assert!(matches!(app.modal, Some(ModalState::AddImageType { .. })));
}

#[test]
fn empty_term_is_rejected() {
    let mut app = App::new("demo".to_string());
    app.modal = Some(ModalState::AddImageType { input: "   ".to_string() });
    let effect = handle_key(&mut app, Key::Enter);
    assert!(matches!(effect, Effect::Continue));
    assert_eq!(app.command_log.last().unwrap(), "type an image name to continue");
}

#[test]
fn edit_keeps_mapping_when_fields_cleared() {
    let mut app = app_with(1);
    app.images[0].port_mapping = "8123:9000".to_string();
    app.active_tab = Tab::Images;
    app.focus = FocusArea::Main;
    handle_key(&mut app, Key::Char('e'));
    match &app.modal {
        Some(ModalState::ConfigureImagePorts { existing_index, host_port_input, container_port_input, .. }) => {
            assert_eq!(*existing_index, Some(0));
            assert_eq!(host_port_input, "8123");
            assert_eq!(container_port_input, "9000");
        }
        other => panic!("unexpected {:?}", other),
    }
    for _ in 0..4 {
        handle_key(&mut app, Key::Backspace);
    }
    handle_key(&mut app, Key::Enter);
    assert_eq!(app.images[0].port_mapping, "8123:9000");
    assert_eq!(app.command_log.last().unwrap(), "updated image library/svc0:latest");
}

#[test]
fn write_confirmation_and_result() {
    let mut app = app_with(1);
    handle_key(&mut app, Key::Char('p'));
    assert!(matches!(app.modal, Some(ModalState::ConfirmWriteCompose)));
    let effect = handle_key(&mut app, Key::Char('y'));
    match effect {
        Effect::WriteCompose { contents } => assert_eq!(contents, app.compose_yaml()),
        other => panic!("unexpected {:?}", other),
    }
    assert!(app.modal.is_none());
    assert_eq!(app.complete_compose_write(Err("denied".to_string())), LoopControl::Continue);
    assert_eq!(app.command_log.last().unwrap(), "failed to write docker-compose.yaml: denied");
    assert_eq!(app.complete_compose_write(Ok(())), LoopControl::Exit);
}

#[test]
fn navigation_keys() {
    let mut app = app_with(3);
    assert!(matches!(handle_key(&mut app, Key::Down), Effect::Continue));
    assert_eq!(app.active_tab, Tab::Images);
    handle_key(&mut app, Key::Tab);
    assert_eq!(app.focus, FocusArea::Main);
    handle_key(&mut app, Key::Char('j'));
    handle_key(&mut app, Key::Char('j'));
    handle_key(&mut app, Key::Char('j'));
    assert_eq!(app.images_selected, 2);
    handle_key(&mut app, Key::Up);
    assert_eq!(app.images_selected, 1);
    handle_key(&mut app, Key::Left);
    handle_key(&mut app, Key::Up);
    assert_eq!(app.active_tab, Tab::Project);
    handle_key(&mut app, Key::Char('r'));
    assert_eq!(app.command_log.last().unwrap(), "[Project] rename project requested");
    assert!(matches!(handle_key(&mut app, Key::Char('q')), Effect::Exit));
}

#[test]
fn delete_volume_from_tab() {
    let mut app = App::new("demo".to_string());
    app.volumes.push(VolumeEntry { name: "a".to_string() });
    app.volumes.push(VolumeEntry { name: "b".to_string() });
    app.volumes_selected = 1;
    app.active_tab = Tab::Volume;
    app.focus = FocusArea::Main;
    handle_key(&mut app, Key::Char('d'));
    assert_eq!(app.volumes.len(), 1);
    assert_eq!(app.volumes_selected, 0);
    assert_eq!(app.command_log.last().unwrap(), "deleted volume b");
}

#[test]
fn service_name_defaults() {
    assert_eq!(default_service_name("my.app", 0), "my_app");
    assert_eq!(default_service_name("", 2), "service_3");
}

#[test]
fn container_port_preference() {
    assert_eq!(preferred_container_port(&[22, 6379, 443]), Some(443));
    assert_eq!(preferred_container_port(&[22, 9000]), Some(22));
    assert_eq!(preferred_container_port(&[]), None);
}

#[test]
fn mapping_split() {
    assert_eq!(split_port_mapping(" 8080 : 80 "), ("8080".to_string(), "80".to_string()));
    assert_eq!(split_port_mapping("9000"), ("9000".to_string(), "80".to_string()));
}

#[test]
fn unmount_and_remove_env() {
    let mut app = app_with(1);
    app.images[0].mounts.push(acdc::project::VolumeMount { source: "a".to_string(), target: "/a".to_string() });
    app.images[0].mounts.push(acdc::project::VolumeMount { source: "b".to_string(), target: "/b".to_string() });
    app.modal = Some(ModalState::RemoveImageMount { image_index: 0, selected_mount: 7 });
    handle_key(&mut app, Key::Char('y'));
    assert_eq!(app.images[0].mounts.len(), 1);
    assert_eq!(app.images[0].mounts[0].source, "a");
    assert_eq!(app.command_log.last().unwrap(), "removed mount b:/b from svc0");
    app.modal = Some(ModalState::RemoveImageEnv { image_index: 0, selected_env: 0 });
    handle_key(&mut app, Key::Enter);
    assert_eq!(app.command_log.last().unwrap(), "selected image has no env vars");
    assert!(app.modal.is_none());
}

#[test]
fn q_is_typed_inside_steps() {
    let mut app = app_with(1);
    app.modal = Some(ModalState::AddImageEnv {
        image_index: 0,
        key_input: "QUERY".to_string(),
        value_input: String::new(),
        active_field: acdc::wizard::EnvInputField::Value,
    });
    let effect = handle_key(&mut app, Key::Char('q'));
    assert!(matches!(effect, Effect::Continue));
    match &app.modal {
        Some(ModalState::AddImageEnv { value_input, .. }) => assert_eq!(value_input, "q"),
        other => panic!("unexpected {:?}", other),
    }
    app.modal = Some(ModalState::AddImageType { input: "my".to_string() });
    type_text(&mut app, "sql");
    match &app.modal {
        Some(ModalState::AddImageType { input }) => assert_eq!(input, "mysql"),
        other => panic!("unexpected {:?}", other),
    }
}
