//! The sidebar tabs: titles, key hints and the commands their keys start.
use vstd::prelude::*;
use crate::text::{decimal, push_decimal, push_str};

verus! {

/// Figures shown in the sidebar.
pub struct TabStats<'a> {
    pub project_name: &'a str,
    pub images_count: usize,
    pub exposed_ports_count: usize,
    pub volumes_count: usize,
}

#[derive(Debug, Clone, Copy, PartialEq, Eq, Structural)]
pub enum TabCommand {
    RenameProject,
    NewImage,
    EditImage,
    DeleteImage,
    MountImageVolume,
    RemoveImageVolume,
    AddImageEnv,
    RemoveImageEnv,
    AddVolume,
    DeleteVolume,
    EditEnv,
}

#[derive(Debug, Clone, Copy, PartialEq, Eq, Structural)]
pub enum Tab {
    Project,
    Images,
    Volume,
    Env,
}

pub open spec fn title_of(t: Tab) -> Seq<char> {
    match t {
        Tab::Project => "Project"@,
        Tab::Images => "Images"@,
        Tab::Volume => "Volume"@,
        Tab::Env => "Env"@,
    }
}

pub open spec fn next_tab(t: Tab) -> Tab {
    match t {
        Tab::Project => Tab::Images,
        Tab::Images => Tab::Volume,
        Tab::Volume => Tab::Env,
        Tab::Env => Tab::Project,
    }
}

pub open spec fn previous_tab(t: Tab) -> Tab {
    match t {
        Tab::Project => Tab::Env,
        Tab::Images => Tab::Project,
        Tab::Volume => Tab::Images,
        Tab::Env => Tab::Volume,
    }
}

pub open spec fn command_of(t: Tab, key: char) -> Option<TabCommand> {
    match (t, key) {
        (Tab::Project, 'r') => Some(TabCommand::RenameProject),
        (Tab::Images, 'n') => Some(TabCommand::NewImage),
        (Tab::Images, 'e') => Some(TabCommand::EditImage),
        (Tab::Images, 'd') => Some(TabCommand::DeleteImage),
        (Tab::Volume, 'a') => Some(TabCommand::AddVolume),
        (Tab::Volume, 'd') => Some(TabCommand::DeleteVolume),
        (Tab::Env, 'e') => Some(TabCommand::EditEnv),
        _ => None,
    }
}

pub open spec fn action_of(t: Tab, key: char) -> Option<Seq<char>> {
    match (t, key) {
        (Tab::Project, 'r') => Some("rename project requested"@),
        (Tab::Images, 'n') => Some("new image requested"@),
        (Tab::Volume, 'a') => Some("add volume requested"@),
        (Tab::Env, 'e') => Some("edit env requested"@),
        _ => None,
    }
}

impl Tab {
    pub fn all() -> (r: [Self; 4])
        ensures
            r@ == seq![Tab::Project, Tab::Images, Tab::Volume, Tab::Env],
    {
        let r = [Self::Project, Self::Images, Self::Volume, Self::Env];
        assert(r@ =~= seq![Tab::Project, Tab::Images, Tab::Volume, Tab::Env]);
        r
    }

    pub fn title(self) -> (r: &'static str)
        ensures
            r@ == title_of(self),
    {
        match self {
            Tab::Project => "Project",
            Tab::Images => "Images",
            Tab::Volume => "Volume",
            Tab::Env => "Env",
        }
    }

    pub fn next(self) -> (r: Self)
        ensures
            r == next_tab(self),
    {
        match self {
            Tab::Project => Tab::Images,
            Tab::Images => Tab::Volume,
            Tab::Volume => Tab::Env,
            Tab::Env => Tab::Project,
        }
    }

    pub fn previous(self) -> (r: Self)
        ensures
            r == previous_tab(self),
    {
        match self {
            Tab::Project => Tab::Env,
            Tab::Images => Tab::Project,
            Tab::Volume => Tab::Images,
            Tab::Env => Tab::Volume,
        }
    }

    pub fn keybind_hint(self) -> (r: &'static str)
        ensures
            r@ == (match self {
                Tab::Project => "r rename project"@,
                Tab::Images => "n new image, e edit image, d delete image"@,
                Tab::Volume => "a add volume, d delete volume"@,
                Tab::Env => "e edit env"@,
            }),
    {
        match self {
            Tab::Project => "r rename project",
            Tab::Images => "n new image, e edit image, d delete image",
            Tab::Volume => "a add volume, d delete volume",
            Tab::Env => "e edit env",
        }
    }

    pub fn action_labels(self) -> (r: Vec<&'static str>)
        ensures
            r@.map_values(|s: &'static str| s@) == (match self {
                Tab::Project => seq!["R: rename project"@],
                Tab::Images => seq![
                    "N: new image"@,
                    "E: edit image"@,
                    "D: delete image"@,
                ],
                Tab::Volume => seq!["A: add volume"@, "D: delete volume"@],
                Tab::Env => seq!["E: edit env"@],
            }),
    {
        let r = match self {
            Tab::Project => vec!["R: rename project"],
            Tab::Images => vec![
                "N: new image",
                "E: edit image",
                "D: delete image",
            ],
            Tab::Volume => vec!["A: add volume", "D: delete volume"],
            Tab::Env => vec!["E: edit env"],
        };
        assert(r@.map_values(|s: &'static str| s@) =~= (match self {
            Tab::Project => seq!["R: rename project"@],
            Tab::Images => seq![
                "N: new image"@,
                "E: edit image"@,
                "D: delete image"@,
            ],
            Tab::Volume => seq!["A: add volume"@, "D: delete volume"@],
            Tab::Env => seq!["E: edit env"@],
        }));
        r
    }

    /// The text of the sidebar pane of the active tab.
    pub fn active_sidebar_text(self, stats: &TabStats<'_>, actions_text: &str) -> (r: String)
        ensures
            r@ == (match self {
                Tab::Project => "Directory: "@ + stats.project_name@
                    + "\nTemp: 74°C\nCPU: 12%\nMem: 418MB\n\nAction: "@ + actions_text@,
                Tab::Images => "Loaded images: "@ + decimal(stats.images_count as nat)
                    + "\nExposed ports: "@ + decimal(stats.exposed_ports_count as nat)
                    + "\n\nAction: "@ + actions_text@,
                Tab::Volume => "Volumes: "@ + decimal(stats.volumes_count as nat) + "\n\nAction: "@
                    + actions_text@,
                Tab::Env => "Environment settings\nplaceholder\n\nAction: "@ + actions_text@,
            }),
    {
        let mut r = String::new();
        match self {
            Tab::Project => {
                push_str(&mut r, "Directory: ");
                push_str(&mut r, stats.project_name);
                push_str(&mut r, "\nTemp: 74°C\nCPU: 12%\nMem: 418MB\n\nAction: ");
            },
            Tab::Images => {
                push_str(&mut r, "Loaded images: ");
                push_decimal(&mut r, stats.images_count as u128);
                push_str(&mut r, "\nExposed ports: ");
                push_decimal(&mut r, stats.exposed_ports_count as u128);
                push_str(&mut r, "\n\nAction: ");
            },
            Tab::Volume => {
                push_str(&mut r, "Volumes: ");
                push_decimal(&mut r, stats.volumes_count as u128);
                push_str(&mut r, "\n\nAction: ");
            },
            Tab::Env => {
                push_str(&mut r, "Environment settings\nplaceholder\n\nAction: ");
            },
        }
        push_str(&mut r, actions_text);
        r
    }

    /// The one-line summary of an inactive tab.
    pub fn inactive_summary(self, stats: &TabStats<'_>) -> (r: String)
        ensures
            r@ == (match self {
                Tab::Project => "Compose preview"@,
                Tab::Images => decimal(stats.images_count as nat) + " images"@,
                Tab::Volume => decimal(stats.volumes_count as nat) + " volumes"@,
                Tab::Env => "Env vars"@,
            }),
    {
        let mut r = String::new();
        match self {
            Tab::Project => push_str(&mut r, "Compose preview"),
            Tab::Images => {
                push_decimal(&mut r, stats.images_count as u128);
                push_str(&mut r, " images");
            },
            Tab::Volume => {
                push_decimal(&mut r, stats.volumes_count as u128);
                push_str(&mut r, " volumes");
            },
            Tab::Env => push_str(&mut r, "Env vars"),
        }
        r
    }

    pub fn command_for_key(self, key: char) -> (r: Option<TabCommand>)
        ensures
            r == command_of(self, key),
    {
        match (self, key) {
            (Tab::Project, 'r') => Some(TabCommand::RenameProject),
            (Tab::Images, 'n') => Some(TabCommand::NewImage),
            (Tab::Images, 'e') => Some(TabCommand::EditImage),
            (Tab::Images, 'd') => Some(TabCommand::DeleteImage),
            (Tab::Volume, 'a') => Some(TabCommand::AddVolume),
            (Tab::Volume, 'd') => Some(TabCommand::DeleteVolume),
            (Tab::Env, 'e') => Some(TabCommand::EditEnv),
            _ => None,
        }
    }

    pub fn keybind_action(self, key: char) -> (r: Option<&'static str>)
        ensures
            r matches Some(s) ==> action_of(self, key) == Some(s@),
            r is None ==> action_of(self, key) is None,
    {
        match (self, key) {
            (Tab::Project, 'r') => Some("rename project requested"),
            (Tab::Images, 'n') => Some("new image requested"),
            (Tab::Volume, 'a') => Some("add volume requested"),
            (Tab::Env, 'e') => Some("edit env requested"),
            _ => None,
        }
    }
}

} // verus!
