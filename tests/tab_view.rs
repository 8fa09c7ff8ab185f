use acdc::tab::{Tab, TabCommand, TabStats};
use acdc::view::{actions_text, visible_window};

#[test]
fn tab_cycle() {
    assert_eq!(Tab::all(), [Tab::Project, Tab::Images, Tab::Volume, Tab::Env]);
    assert_eq!(Tab::Env.next(), Tab::Project);
    assert_eq!(Tab::Project.previous(), Tab::Env);
    assert_eq!(Tab::Volume.title(), "Volume");
}

#[test]
fn tab_commands() {
    assert_eq!(Tab::Images.command_for_key('n'), Some(TabCommand::NewImage));
    assert_eq!(Tab::Volume.command_for_key('d'), Some(TabCommand::DeleteVolume));
    assert_eq!(Tab::Project.command_for_key('n'), None);
    assert_eq!(Tab::Env.keybind_action('e'), Some("edit env requested"));
    assert_eq!(Tab::Images.keybind_action('x'), None);
}

#[test]
fn sidebar_texts() {
    let stats = TabStats { project_name: "demo", images_count: 12, exposed_ports_count: 3, volumes_count: 0 };
    assert_eq!(
        Tab::Images.active_sidebar_text(&stats, "N"),
        "Loaded images: 12\nExposed ports: 3\n\nAction: N"
    );
    assert_eq!(Tab::Volume.inactive_summary(&stats), "0 volumes");
    assert_eq!(Tab::Project.inactive_summary(&stats), "Compose preview");
    assert_eq!(Tab::Volume.action_labels(), vec!["A: add volume", "D: delete volume"]);
}

#[test]
fn actions_joined() {
    assert_eq!(actions_text(&["A", "B"]), "A\n        B");
    assert_eq!(actions_text(&["A"]), "A");
    assert_eq!(actions_text(&[]), "");
}

#[test]
fn window_follows_selection() {
    assert_eq!(visible_window(0, 0, 5), (0, 0));
    assert_eq!(visible_window(3, 2, 5), (0, 3));
    assert_eq!(visible_window(20, 10, 5), (8, 13));
    assert_eq!(visible_window(20, 19, 5), (15, 20));
    assert_eq!(visible_window(20, 1, 5), (0, 5));
}

#[test]
fn only_listed_keys_start_commands() {
    for key in ['m', 'u', 'v', 'x', 'a', 'r'] {
        assert_eq!(Tab::Images.command_for_key(key), None);
    }
    assert_eq!(Tab::Images.keybind_hint(), "n new image, e edit image, d delete image");
    assert_eq!(Tab::Images.action_labels(), vec!["N: new image", "E: edit image", "D: delete image"]);
}
