//! The wizard: one optional step in progress, the keys that drive it, and the global
//! navigation keys outside any step.
use vstd::prelude::*;
use vstd::string::*;
use crate::project::{App, EnvVar, FocusArea, ImageEntry, VolumeEntry, VolumeMount, same_but_log, log_after, log_after_all, log_of, default_host_port};
use crate::ranking::{filter_tags, ranked_tags, views};
use crate::tab::{Tab, TabCommand, action_of, command_of, next_tab, previous_tab, title_of};
use crate::text::{
    str_eq, starts_with, starts_with_exec, upper, upper_of_char, to_upper, is_digit, is_digit_char, chars_of, decimal, first_index, find_char, is_ascii_alnum, push_decimal, push_str, string_of,
    trim, trimmed, trim_str,
};

verus! {

#[derive(Debug, Clone, Copy, PartialEq, Eq, Structural)]
pub enum ConfigureField {
    HostPort,
    ContainerPort,
    Name,
}

impl ConfigureField {
    pub fn next(self) -> (r: Self)
        ensures
            r == (match self {
                ConfigureField::HostPort => ConfigureField::ContainerPort,
                ConfigureField::ContainerPort => ConfigureField::Name,
                ConfigureField::Name => ConfigureField::HostPort,
            }),
    {
        match self {
            ConfigureField::HostPort => ConfigureField::ContainerPort,
            ConfigureField::ContainerPort => ConfigureField::Name,
            ConfigureField::Name => ConfigureField::HostPort,
        }
    }
}

#[derive(Debug, Clone, Copy, PartialEq, Eq, Structural)]
pub enum EnvInputField {
    Key,
    Value,
}

impl EnvInputField {
    pub fn next(self) -> (r: Self)
        ensures
            r == (match self {
                EnvInputField::Key => EnvInputField::Value,
                EnvInputField::Value => EnvInputField::Key,
            }),
    {
        match self {
            EnvInputField::Key => EnvInputField::Value,
            EnvInputField::Value => EnvInputField::Key,
        }
    }
}

#[derive(Debug, Clone, Copy, PartialEq, Eq, Structural)]
pub enum MountExistingField {
    Volume,
    Target,
}

impl MountExistingField {
    pub fn next(self) -> (r: Self)
        ensures
            r == (match self {
                MountExistingField::Volume => MountExistingField::Target,
                MountExistingField::Target => MountExistingField::Volume,
            }),
    {
        match self {
            MountExistingField::Volume => MountExistingField::Target,
            MountExistingField::Target => MountExistingField::Volume,
        }
    }
}

#[derive(Debug, Clone, Copy, PartialEq, Eq, Structural)]
pub enum MountInputField {
    Source,
    Target,
}

impl MountInputField {
    pub fn next(self) -> (r: Self)
        ensures
            r == (match self {
                MountInputField::Source => MountInputField::Target,
                MountInputField::Target => MountInputField::Source,
            }),
    {
        match self {
            MountInputField::Source => MountInputField::Target,
            MountInputField::Target => MountInputField::Source,
        }
    }
}

/// The step in progress, with its draft input.
#[derive(Debug)]
pub enum ModalState {
    AddImageType { input: String },
    SelectImageTag {
        image_term: String,
        namespace: String,
        repo: String,
        all_tags: Vec<String>,
        query: String,
        filtered_tags: Vec<String>,
        selected: usize,
    },
    ConfigureImagePorts {
        existing_index: Option<usize>,
        namespace: String,
        repo: String,
        tag: String,
        host_port_input: String,
        container_port_input: String,
        service_name_input: String,
        active_field: ConfigureField,
        host_port_typed: bool,
        container_port_typed: bool,
        service_name_typed: bool,
    },
    ConfirmDeleteImage { index: usize },
    ConfirmWriteCompose,
    AddVolume { input: String },
    SelectImageVolumeSource { image_index: usize, selected_option: usize },
    MountExistingVolume {
        image_index: usize,
        selected_volume: usize,
        target_input: String,
        active_field: MountExistingField,
        target_typed: bool,
    },
    MountNewVolume {
        image_index: usize,
        new_volume_input: String,
        target_input: String,
        active_field: MountInputField,
        new_volume_typed: bool,
        target_typed: bool,
    },
    MountLocalPath {
        image_index: usize,
        local_path_input: String,
        target_input: String,
        active_field: MountInputField,
        local_path_typed: bool,
        target_typed: bool,
    },
    RemoveImageMount { image_index: usize, selected_mount: usize },
    AddImageEnv {
        image_index: usize,
        key_input: String,
        value_input: String,
        active_field: EnvInputField,
    },
    RemoveImageEnv { image_index: usize, selected_env: usize },
}

/// A key as the wizard sees it.
#[derive(Debug, Clone, Copy, PartialEq, Eq, Structural)]
pub enum Key {
    Char(char),
    Enter,
    Backspace,
    Tab,
    Esc,
    Up,
    Down,
    Left,
    Right,
    Other,
}

#[derive(Debug, Clone, Copy, PartialEq, Eq, Structural)]
pub enum LoopControl {
    Continue,
    Exit,
}

/// What the caller must do after a key: nothing, stop, or the outside work that the step
/// waits for, whose result goes back through the matching `complete_*` method.
#[derive(Debug)]
pub enum Effect {
    Continue,
    Exit,
    /// Resolve the term and list the repository's tags; the result goes to `complete_image_lookup`.
    ResolveImage { term: String },
    /// Look up the ports the image exposes; the result goes to `complete_tag_selection`.
    FetchPorts { namespace: String, repo: String, tag: String },
    /// Write the manifest; the result goes to `complete_compose_write`.
    WriteCompose { contents: String },
}

/// How resolving a term and listing its tags went.
#[derive(Debug)]
pub enum LookupOutcome {
    Found { namespace: String, repo: String, tags: Vec<String> },
    NoMatch,
    SearchFailed(String),
    TagsFailed(String),
    RuntimeFailed(String),
}

pub open spec fn is_name_char(c: char) -> bool {
    is_ascii_alnum(c) || c == '_' || c == '-'
}

pub open spec fn is_path_char(c: char) -> bool {
    is_ascii_alnum(c) || c == '/' || c == '_' || c == '-' || c == '.'
}

/// The repository name with characters outside `[A-Za-z0-9_-]` replaced by `_`.
pub open spec fn sanitized(repo: Seq<char>) -> Seq<char> {
    repo.map_values(|c: char| if is_name_char(c) { c } else { '_' })
}

/// Default service name: the sanitized repository name, or `service_<n+1>` if that is empty.
pub open spec fn service_name_default(repo: Seq<char>, n: nat) -> Seq<char> {
    if repo.len() == 0 {
        "service_"@ + decimal(n + 1)
    } else {
        sanitized(repo)
    }
}

pub open spec fn preference_list() -> Seq<u16> {
    seq![80u16, 443, 8080, 3000, 5000, 5432, 3306, 6379]
}

pub open spec fn preferred_from(ports: Seq<u16>, prefs: Seq<u16>) -> Option<u16>
    decreases prefs.len(),
{
    if prefs.len() == 0 {
        if ports.len() == 0 {
            None
        } else {
            Some(ports[0])
        }
    } else if ports.contains(prefs[0]) {
        Some(prefs[0])
    } else {
        preferred_from(ports, prefs.drop_first())
    }
}

/// The container port to suggest: the first preferred one among `ports`, else the first port.
pub open spec fn preferred_port(ports: Seq<u16>) -> Option<u16> {
    preferred_from(ports, preference_list())
}

/// `host:container` split at the first colon, both parts trimmed; no colon gives port 80.
pub open spec fn split_mapping(m: Seq<char>) -> (Seq<char>, Seq<char>) {
    let t = trim(m);
    match first_index(t, ':') {
        Some(k) => (trim(t.take(k)), trim(t.skip(k + 1))),
        None => (t, "80"@),
    }
}

pub open spec fn volume_name_default(n: nat) -> Seq<char> {
    "volume_"@ + decimal(n + 1)
}

pub open spec fn mount_target_default() -> Seq<char> {
    "/data"@
}

fn is_name_char_exec(c: char) -> (r: bool)
    ensures
        r == is_name_char(c),
{
    ('0' <= c && c <= '9') || ('a' <= c && c <= 'z') || ('A' <= c && c <= 'Z') || c == '_' || c == '-'
}

fn is_path_char_exec(c: char) -> (r: bool)
    ensures
        r == is_path_char(c),
{
    ('0' <= c && c <= '9') || ('a' <= c && c <= 'z') || ('A' <= c && c <= 'Z') || c == '/' || c == '_'
        || c == '-' || c == '.'
}

/// The default service name for `repo` when `current_len` services exist.
pub fn default_service_name(repo: &str, current_len: usize) -> (r: String)
    ensures
        r@ == service_name_default(repo@, current_len as nat),
{
    let chars = chars_of(repo);
    let mut base = String::new();
    let mut i: usize = 0;
    while i < chars.len()
        invariant
            i <= chars.len(),
            chars@ == repo@,
            base@ == sanitized(chars@.take(i as int)),
        decreases chars.len() - i,
    {
        let c = chars[i];
        if is_name_char_exec(c) {
            base.push(c);
        } else {
            base.push('_');
        }
        assert(sanitized(chars@.take(i + 1)) == sanitized(chars@.take(i as int)).push(
            if is_name_char(c) { c } else { '_' },
        ));
        i = i + 1;
    }
    assert(chars@.take(chars.len() as int) == chars@);
    if chars.len() == 0 {
        let mut r = String::from_str("service_");
        push_decimal(&mut r, current_len as u128 + 1);
        return r;
    }
    base
}

/// The container port to suggest for these exposed ports (see `preferred_port`).
pub fn preferred_container_port(ports: &[u16]) -> (r: Option<u16>)
    ensures
        r == preferred_port(ports@),
{
    let preferred: [u16; 8] = [80, 443, 8080, 3000, 5000, 5432, 3306, 6379];
    assert(preferred@ == preference_list());
    assert(preferred@.skip(0) == preferred@);
    let mut i: usize = 0;
    while i < 8
        invariant
            i <= 8,
            preferred@ == preference_list(),
            preferred_port(ports@) == preferred_from(ports@, preferred@.skip(i as int)),
        decreases 8 - i,
    {
        let candidate = preferred[i];
        assert(preferred@.skip(i as int)[0] == candidate);
        assert(preferred@.skip(i as int).drop_first() == preferred@.skip(i + 1));
        let mut k: usize = 0;
        while k < ports.len()
            invariant
                k <= ports.len(),
                i < 8,
                preferred_port(ports@) == preferred_from(ports@, preferred@.skip(i as int)),
                preferred@.skip(i as int)[0] == candidate,
                preferred@.skip(i as int).drop_first() == preferred@.skip(i + 1),
                forall|j: int| 0 <= j < k ==> ports@[j] != candidate,
            decreases ports.len() - k,
        {
            if ports[k] == candidate {
                assert(ports@.contains(candidate));
                return Some(candidate);
            }
            k = k + 1;
        }
        i = i + 1;
    }
    assert(preferred@.skip(8) == Seq::<u16>::empty());
    if ports.len() == 0 {
        None
    } else {
        Some(ports[0])
    }
}

/// The suggested `host:container` mapping: the next default host port with the suggested
/// container port, or with 80 when there is none.
pub fn suggested_port_mapping(app: &App, suggested_container_port: Option<u16>) -> (r: String)
    ensures
        r@ == default_host_port(app.images@.len()) + ":"@ + match suggested_container_port {
            Some(c) => decimal(c as nat),
            None => "80"@,
        },
{
    match suggested_container_port {
        Some(container) => {
            let mut r = String::new();
            push_decimal(&mut r, 8000 + app.images.len() as u128);
            push_str(&mut r, ":");
            push_decimal(&mut r, container as u128);
            r
        },
        None => {
            let r = app.next_port_mapping();
            proof {
                reveal_strlit(":80");
                reveal_strlit(":");
                reveal_strlit("80");
                assert(":80"@ == ":"@ + "80"@);
            }
            r
        },
    }
}

/// The host and container parts of a mapping (see `split_mapping`).
pub fn split_port_mapping(mapping: &str) -> (r: (String, String))
    ensures
        (r.0@, r.1@) == split_mapping(mapping@),
{
    let t = trimmed(&chars_of(mapping));
    match find_char(&t, ':') {
        Some(k) => {
            let mut host: Vec<char> = Vec::new();
            let mut container: Vec<char> = Vec::new();
            let mut i: usize = 0;
            while i < t.len()
                invariant
                    k < t.len(),
                    i <= t.len(),
                    host@ == t@.take(if i < k { i as int } else { k as int }),
                    container@ == if i <= k { Seq::<char>::empty() } else { t@.subrange(k + 1, i as int) },
                decreases t.len() - i,
            {
                if i < k {
                    host.push(t[i]);
                    assert(t@.take(i + 1) == t@.take(i as int).push(t@[i as int]));
                } else if i > k {
                    container.push(t[i]);
                    assert(t@.subrange(k + 1, i + 1) == t@.subrange(k + 1, i as int).push(t@[i as int]));
                } else {
                    assert(t@.subrange(k + 1, k + 1) == Seq::<char>::empty());
                }
                i = i + 1;
            }
            assert(container@ == t@.skip(k + 1));
            (string_of(&trimmed(&host)), string_of(&trimmed(&container)))
        },
        None => (string_of(&t), String::from_str("80")),
    }
}

pub fn default_mount_target() -> (r: String)
    ensures
        r@ == mount_target_default(),
{
    String::from_str("/data")
}

pub fn default_volume_name(app: &App) -> (r: String)
    ensures
        r@ == volume_name_default(app.volumes@.len()),
{
    let mut r = String::from_str("volume_");
    push_decimal(&mut r, app.volumes.len() as u128 + 1);
    r
}

/// `trim(input)` when that is not empty, else `fallback`.
fn trimmed_or(input: &String, fallback: String) -> (r: String)
    ensures
        r@ == if trim(input@).len() > 0 { trim(input@) } else { fallback@ },
{
    let t = trim_str(input.as_str());
    if t.as_str().is_empty() {
        fallback
    } else {
        t
    }
}

/// `b` keeps the project model and navigation state of `a`.
pub open spec fn same_model(a: App, b: App) -> bool {
    &&& a.focus == b.focus
    &&& a.active_tab == b.active_tab
    &&& a.project_name == b.project_name
    &&& a.images == b.images
    &&& a.images_selected == b.images_selected
    &&& a.volumes == b.volumes
    &&& a.volumes_selected == b.volumes_selected
}

/// Only the step changed: model and log as they were.
pub open spec fn only_step(a: App, b: App) -> bool {
    same_model(a, b) && log_of(b) == log_of(a)
}

pub open spec fn backspaced(t: Seq<char>) -> Seq<char> {
    if t.len() == 0 {
        t
    } else {
        t.drop_last()
    }
}

/// A field after typing `c`: the pre-filled text gives way to the first key typed.
pub open spec fn typed_into(t: Seq<char>, typed: bool, c: char) -> Seq<char> {
    if typed {
        t.push(c)
    } else {
        seq![c]
    }
}

pub open spec fn is_nav_down(key: Key) -> bool {
    key == Key::Down || key == Key::Char('j')
}

pub open spec fn is_nav_up(key: Key) -> bool {
    key == Key::Up || key == Key::Char('k')
}

pub open spec fn is_confirm(key: Key) -> bool {
    key == Key::Char('y') || key == Key::Enter
}

/// The size of the candidate list in the tag step.
pub const TAG_LIST_LIMIT: usize = 30;

// ---------------------------------------------------------------------------
// Enter image term

pub open spec fn add_image_type_step(a: App, b: App, key: Key, r: Effect, input: String) -> bool {
    match key {
        Key::Char(c) => only_step(a, b) && r is Continue && (b.modal matches Some(
            ModalState::AddImageType { input: i2 },
        ) && i2@ == input@.push(c)),
        Key::Backspace => only_step(a, b) && r is Continue && (b.modal matches Some(
            ModalState::AddImageType { input: i2 },
        ) && i2@ == backspaced(input@)),
        Key::Enter => same_model(a, b) && b.modal == Some(ModalState::AddImageType { input })
            && if trim(input@).len() == 0 {
            r is Continue && log_of(b) == log_after(log_of(a), "type an image name to continue"@)
        } else {
            log_of(b) == log_of(a) && (r matches Effect::ResolveImage { term } && term@ == trim(input@))
        },
        _ => only_step(a, b) && r is Continue && b.modal == Some(ModalState::AddImageType { input }),
    }
}

// ---------------------------------------------------------------------------
// Select tag

pub open spec fn select_tag_step(
    a: App,
    b: App,
    key: Key,
    r: Effect,
    image_term: String,
    namespace: String,
    repo: String,
    all_tags: Vec<String>,
    query: String,
    filtered_tags: Vec<String>,
    selected: usize,
) -> bool {
    let n = filtered_tags@.len();
    let same_but = |q: Seq<char>, f: Option<Seq<Seq<char>>>, sel: usize|
        b.modal matches Some(
            ModalState::SelectImageTag {
                image_term: t2,
                namespace: n2,
                repo: r2,
                all_tags: a2,
                query: q2,
                filtered_tags: f2,
                selected: s2,
            },
        ) && t2 == image_term && n2 == namespace && r2 == repo && a2 == all_tags && q2@ == q && (
        match f {
            Some(fv) => views(f2@) == fv,
            None => f2 == filtered_tags,
        }) && s2 == sel;
    only_step(a, b) && if is_nav_down(key) {
        r is Continue && same_but(query@, None, if n > 0 && selected + 1 < n { (selected + 1) as usize } else if n > 0 { (n - 1) as usize } else { selected })
    } else if is_nav_up(key) {
        r is Continue && same_but(query@, None, if n > 0 && selected > 0 { (selected - 1) as usize } else { selected })
    } else if key == Key::Enter {
        same_but(query@, None, selected) && if selected < n {
            r matches Effect::FetchPorts { namespace: n3, repo: r3, tag } && n3@ == namespace@ && r3@
                == repo@ && tag@ == filtered_tags@[selected as int]@
        } else {
            r is Continue
        }
    } else if key == Key::Backspace {
        r is Continue && same_but(
            backspaced(query@),
            Some(ranked_tags(views(all_tags@), backspaced(query@), TAG_LIST_LIMIT as nat)),
            0,
        )
    } else if key is Char {
        r is Continue && same_but(
            query@.push(key->0),
            Some(ranked_tags(views(all_tags@), query@.push(key->0), TAG_LIST_LIMIT as nat)),
            0,
        )
    } else {
        r is Continue && same_but(query@, None, selected)
    }
}

// ---------------------------------------------------------------------------
// Confirm delete

/// The selection after removing one of `old_len` entries.
pub open spec fn clamped_selection(selected: usize, new_len: nat) -> usize {
    if new_len == 0 {
        0
    } else if selected >= new_len {
        (new_len - 1) as usize
    } else {
        selected
    }
}

pub open spec fn image_label(e: ImageEntry) -> Seq<char> {
    e.namespace@ + "/"@ + e.repo@ + ":"@ + e.tag@
}

pub open spec fn confirm_delete_step(a: App, b: App, key: Key, r: Effect, index: usize) -> bool {
    if is_confirm(key) {
        &&& b.modal is None
        &&& r is Continue
        &&& b.focus == a.focus && b.active_tab == a.active_tab && b.project_name == a.project_name
        &&& b.volumes == a.volumes && b.volumes_selected == a.volumes_selected
        &&& if index < a.images@.len() {
            &&& b.images@ == a.images@.remove(index as int)
            &&& b.images_selected == clamped_selection(a.images_selected, b.images@.len())
            &&& log_of(b) == log_after(log_of(a), "deleted image "@ + image_label(a.images@[index as int]))
        } else {
            b.images == a.images && b.images_selected == a.images_selected && log_of(b) == log_of(a)
        }
    } else if key == Key::Char('n') {
        same_model(a, b) && b.modal is None && r is Continue && log_of(b) == log_after(
            log_of(a),
            "delete canceled"@,
        )
    } else {
        only_step(a, b) && r is Continue && b.modal == Some(ModalState::ConfirmDeleteImage { index })
    }
}

// ---------------------------------------------------------------------------
// Confirm write

pub open spec fn confirm_write_step(a: App, b: App, key: Key, r: Effect) -> bool {
    if is_confirm(key) {
        only_step(a, b) && b.modal is None && (r matches Effect::WriteCompose { contents }
            && contents@ == crate::project::compose_text(a.images@, a.volumes@))
    } else if key == Key::Char('n') {
        same_model(a, b) && b.modal is None && r is Continue && log_of(b) == log_after(
            log_of(a),
            "compose write canceled"@,
        )
    } else {
        only_step(a, b) && r is Continue && b.modal == Some(ModalState::ConfirmWriteCompose)
    }
}

// ---------------------------------------------------------------------------
// Add volume

pub open spec fn add_volume_step(a: App, b: App, key: Key, r: Effect, input: String) -> bool {
    r is Continue && match key {
        Key::Char(c) => only_step(a, b) && (b.modal matches Some(ModalState::AddVolume { input: i2 })
            && i2@ == input@.push(c)),
        Key::Backspace => only_step(a, b) && (b.modal matches Some(ModalState::AddVolume { input: i2 })
            && i2@ == backspaced(input@)),
        Key::Enter => {
            let name = if trim(input@).len() > 0 {
                trim(input@)
            } else {
                volume_name_default(a.volumes@.len())
            };
            &&& b.modal is None
            &&& b.focus == a.focus && b.active_tab == a.active_tab && b.project_name == a.project_name
            &&& b.images == a.images && b.images_selected == a.images_selected
            &&& b.volumes@.len() == a.volumes@.len() + 1
            &&& b.volumes@.drop_last() == a.volumes@
            &&& b.volumes@.last().name@ == name
            &&& b.volumes_selected == a.volumes@.len()
            &&& log_of(b) == log_after(log_of(a), "added volume "@ + name)
        },
        _ => only_step(a, b) && b.modal == Some(ModalState::AddVolume { input }),
    }
}

impl App {
    fn add_image_type_key(&mut self, input: String, key: Key) -> (r: Effect)
        requires
            old(self).modal is None,
        ensures
            add_image_type_step(*old(self), *final(self), key, r, input),
    {
        let mut input = input;
        match key {
            Key::Char(c) => {
                input.push(c);
                self.modal = Some(ModalState::AddImageType { input });
                Effect::Continue
            },
            Key::Backspace => {
                input.pop();
                self.modal = Some(ModalState::AddImageType { input });
                Effect::Continue
            },
            Key::Enter => {
                let term = trim_str(input.as_str());
                self.modal = Some(ModalState::AddImageType { input });
                if term.as_str().is_empty() {
                    self.push_log(String::from_str("type an image name to continue"));
                    Effect::Continue
                } else {
                    Effect::ResolveImage { term }
                }
            },
            _ => {
                self.modal = Some(ModalState::AddImageType { input });
                Effect::Continue
            },
        }
    }

    fn select_tag_key(
        &mut self,
        image_term: String,
        namespace: String,
        repo: String,
        all_tags: Vec<String>,
        query: String,
        filtered_tags: Vec<String>,
        selected: usize,
        key: Key,
    ) -> (r: Effect)
        requires
            old(self).modal is None,
        ensures
            select_tag_step(
                *old(self),
                *final(self),
                key,
                r,
                image_term,
                namespace,
                repo,
                all_tags,
                query,
                filtered_tags,
                selected,
            ),
    {
        let mut query = query;
        let mut filtered_tags = filtered_tags;
        let mut selected = selected;
        let mut effect = Effect::Continue;
        if key == Key::Down || key == Key::Char('j') {
            if filtered_tags.len() > 0 {
                selected = if selected < filtered_tags.len() - 1 {
                    selected + 1
                } else {
                    filtered_tags.len() - 1
                };
            }
        } else if key == Key::Up || key == Key::Char('k') {
            if filtered_tags.len() > 0 && selected > 0 {
                selected = selected - 1;
            }
        } else if key == Key::Enter {
            if selected < filtered_tags.len() {
                effect = Effect::FetchPorts {
                    namespace: namespace.clone(),
                    repo: repo.clone(),
                    tag: filtered_tags[selected].clone(),
                };
            }
        } else if key == Key::Backspace {
            query.pop();
            filtered_tags = filter_tags(all_tags.as_slice(), query.as_str(), TAG_LIST_LIMIT);
            selected = 0;
        } else {
            match key {
                Key::Char(c) => {
                    query.push(c);
                    filtered_tags = filter_tags(all_tags.as_slice(), query.as_str(), TAG_LIST_LIMIT);
                    selected = 0;
                },
                _ => {},
            }
        }
        self.modal = Some(
            ModalState::SelectImageTag {
                image_term,
                namespace,
                repo,
                all_tags,
                query,
                filtered_tags,
                selected,
            },
        );
        effect
    }

    fn confirm_delete_key(&mut self, index: usize, key: Key) -> (r: Effect)
        requires
            old(self).modal is None,
        ensures
            confirm_delete_step(*old(self), *final(self), key, r, index),
    {
        if key == Key::Char('y') || key == Key::Enter {
            if index < self.images.len() {
                let removed = self.images.remove(index);
                if self.images.len() == 0 {
                    self.images_selected = 0;
                } else if self.images_selected >= self.images.len() {
                    self.images_selected = self.images.len() - 1;
                }
                let mut line = String::from_str("deleted image ");
                push_str(&mut line, removed.namespace.as_str());
                push_str(&mut line, "/");
                push_str(&mut line, removed.repo.as_str());
                push_str(&mut line, ":");
                push_str(&mut line, removed.tag.as_str());
                assert(line@ =~= "deleted image "@ + image_label(removed));
                self.push_log(line);
            }
            Effect::Continue
        } else if key == Key::Char('n') {
            self.push_log(String::from_str("delete canceled"));
            Effect::Continue
        } else {
            self.modal = Some(ModalState::ConfirmDeleteImage { index });
            Effect::Continue
        }
    }

    fn confirm_write_key(&mut self, key: Key) -> (r: Effect)
        requires
            old(self).modal is None,
        ensures
            confirm_write_step(*old(self), *final(self), key, r),
    {
        if key == Key::Char('y') || key == Key::Enter {
            Effect::WriteCompose { contents: self.compose_yaml() }
        } else if key == Key::Char('n') {
            self.push_log(String::from_str("compose write canceled"));
            Effect::Continue
        } else {
            self.modal = Some(ModalState::ConfirmWriteCompose);
            Effect::Continue
        }
    }

    fn add_volume_key(&mut self, input: String, key: Key) -> (r: Effect)
        requires
            old(self).modal is None,
        ensures
            add_volume_step(*old(self), *final(self), key, r, input),
    {
        let mut input = input;
        match key {
            Key::Char(c) => {
                input.push(c);
                self.modal = Some(ModalState::AddVolume { input });
            },
            Key::Backspace => {
                input.pop();
                self.modal = Some(ModalState::AddVolume { input });
            },
            Key::Enter => {
                let name = trimmed_or(&input, default_volume_name(self));
                let mut line = String::from_str("added volume ");
                push_str(&mut line, name.as_str());
                let ghost before = self.volumes@;
                self.volumes.push(crate::project::VolumeEntry { name });
                assert(self.volumes@.drop_last() == before);
                self.volumes_selected = self.volumes.len() - 1;
                self.push_log(line);
            },
            _ => {
                self.modal = Some(ModalState::AddVolume { input });
            },
        }
        Effect::Continue
    }
}

// ---------------------------------------------------------------------------
// Configure ports and name

/// The mapping that empty port fields fall back to: the entry's own when editing, else the
/// next default.
pub open spec fn fallback_mapping(a: App, existing: Option<usize>) -> Seq<char> {
    match existing {
        Some(i) => if i < a.images@.len() {
            a.images@[i as int].port_mapping@
        } else {
            default_host_port(a.images@.len()) + ":80"@
        },
        None => default_host_port(a.images@.len()) + ":80"@,
    }
}

pub open spec fn committed_mapping(a: App, existing: Option<usize>, host: Seq<char>, container: Seq<char>) -> Seq<char> {
    let f = split_mapping(fallback_mapping(a, existing));
    (if trim(host).len() > 0 {
        trim(host)
    } else {
        f.0
    }) + ":"@ + (if trim(container).len() > 0 {
        trim(container)
    } else {
        f.1
    })
}

pub open spec fn committed_name(a: App, repo: Seq<char>, name: Seq<char>) -> Seq<char> {
    if trim(name).len() > 0 {
        trim(name)
    } else {
        service_name_default(repo, a.images@.len())
    }
}

/// `e` is the service that the configure step commits.
pub open spec fn is_committed_entry(
    e: ImageEntry,
    a: App,
    existing: Option<usize>,
    namespace: String,
    repo: String,
    tag: String,
    host: Seq<char>,
    container: Seq<char>,
    name: Seq<char>,
) -> bool {
    &&& e.service_name@ == committed_name(a, repo@, name)
    &&& e.namespace == namespace && e.repo == repo && e.tag == tag
    &&& e.port_mapping@ == committed_mapping(a, existing, host, container)
    &&& match existing {
        Some(i) => if i < a.images@.len() {
            e.mounts == a.images@[i as int].mounts && e.env_vars == a.images@[i as int].env_vars
        } else {
            e.mounts@.len() == 0 && e.env_vars@.len() == 0
        },
        None => e.mounts@.len() == 0 && e.env_vars@.len() == 0,
    }
}

pub open spec fn configure_modal(
    m: Option<ModalState>,
    existing: Option<usize>,
    namespace: String,
    repo: String,
    tag: String,
    host: Seq<char>,
    container: Seq<char>,
    name: Seq<char>,
    active: ConfigureField,
    host_typed: bool,
    container_typed: bool,
    name_typed: bool,
) -> bool {
    m matches Some(
        ModalState::ConfigureImagePorts {
            existing_index: e2,
            namespace: n2,
            repo: r2,
            tag: t2,
            host_port_input: h2,
            container_port_input: c2,
            service_name_input: s2,
            active_field: f2,
            host_port_typed: ht2,
            container_port_typed: ct2,
            service_name_typed: st2,
        },
    ) && e2 == existing && n2 == namespace && r2 == repo && t2 == tag && h2@ == host && c2@
        == container && s2@ == name && f2 == active && ht2 == host_typed && ct2 == container_typed
        && st2 == name_typed
}

pub open spec fn configure_step(
    a: App,
    b: App,
    key: Key,
    r: Effect,
    existing: Option<usize>,
    namespace: String,
    repo: String,
    tag: String,
    host: String,
    container: String,
    name: String,
    active: ConfigureField,
    ht: bool,
    ct: bool,
    st: bool,
) -> bool {
    let label = namespace@ + "/"@ + repo@ + ":"@ + tag@;
    let stay = |h: Seq<char>, c: Seq<char>, n: Seq<char>, f: ConfigureField, ht2: bool, ct2: bool, st2: bool|
        only_step(a, b) && configure_modal(b.modal, existing, namespace, repo, tag, h, c, n, f, ht2, ct2, st2);
    r is Continue && match key {
        Key::Enter => {
            &&& b.modal is None
            &&& b.focus == a.focus && b.active_tab == a.active_tab && b.project_name == a.project_name
            &&& b.volumes == a.volumes && b.volumes_selected == a.volumes_selected
            &&& match existing {
                Some(i) => if i < a.images@.len() {
                    &&& b.images@ == a.images@.update(i as int, b.images@[i as int])
                    &&& is_committed_entry(b.images@[i as int], a, existing, namespace, repo, tag, host@, container@, name@)
                    &&& b.images_selected == i
                    &&& log_of(b) == log_after(log_of(a), "updated image "@ + label)
                } else {
                    b.images == a.images && b.images_selected == a.images_selected && log_of(b) == log_of(a)
                },
                None => {
                    &&& b.images@.len() == a.images@.len() + 1
                    &&& b.images@.drop_last() == a.images@
                    &&& is_committed_entry(b.images@.last(), a, existing, namespace, repo, tag, host@, container@, name@)
                    &&& b.images_selected == a.images@.len()
                    &&& log_of(b) == log_after(log_of(a), "added image "@ + label)
                },
            }
        },
        Key::Backspace => match active {
            ConfigureField::HostPort => stay(backspaced(host@), container@, name@, active, true, ct, st),
            ConfigureField::ContainerPort => stay(host@, backspaced(container@), name@, active, ht, true, st),
            ConfigureField::Name => stay(host@, container@, backspaced(name@), active, ht, ct, true),
        },
        Key::Char(c) => match active {
            ConfigureField::HostPort => if is_digit(c) {
                stay(typed_into(host@, ht, c), container@, name@, active, true, ct, st)
            } else {
                stay(host@, container@, name@, active, ht, ct, st)
            },
            ConfigureField::ContainerPort => if is_digit(c) {
                stay(host@, typed_into(container@, ct, c), name@, active, ht, true, st)
            } else {
                stay(host@, container@, name@, active, ht, ct, st)
            },
            ConfigureField::Name => if is_name_char(c) {
                stay(host@, container@, typed_into(name@, st, c), active, ht, ct, true)
            } else {
                stay(host@, container@, name@, active, ht, ct, st)
            },
        },
        Key::Tab => stay(host@, container@, name@, match active {
            ConfigureField::HostPort => ConfigureField::ContainerPort,
            ConfigureField::ContainerPort => ConfigureField::Name,
            ConfigureField::Name => ConfigureField::HostPort,
        }, ht, ct, st),
        _ => stay(host@, container@, name@, active, ht, ct, st),
    }
}

/// `field` after typing `c` into it (see `typed_into`).
fn type_into(field: &mut String, typed: &mut bool, c: char)
    ensures
        final(field)@ == typed_into(old(field)@, *old(typed), c),
        *final(typed),
{
    if !*typed {
        *field = String::new();
        *typed = true;
    }
    field.push(c);
}

impl App {
    fn configure_key(
        &mut self,
        existing_index: Option<usize>,
        namespace: String,
        repo: String,
        tag: String,
        host_port_input: String,
        container_port_input: String,
        service_name_input: String,
        active_field: ConfigureField,
        host_port_typed: bool,
        container_port_typed: bool,
        service_name_typed: bool,
        key: Key,
    ) -> (r: Effect)
        requires
            old(self).modal is None,
        ensures
            configure_step(
                *old(self),
                *final(self),
                key,
                r,
                existing_index,
                namespace,
                repo,
                tag,
                host_port_input,
                container_port_input,
                service_name_input,
                active_field,
                host_port_typed,
                container_port_typed,
                service_name_typed,
            ),
    {
        let mut host_port_input = host_port_input;
        let mut container_port_input = container_port_input;
        let mut service_name_input = service_name_input;
        let mut active_field = active_field;
        let mut host_port_typed = host_port_typed;
        let mut container_port_typed = container_port_typed;
        let mut service_name_typed = service_name_typed;
        match key {
            Key::Enter => {
                self.commit_configured(
                    existing_index,
                    namespace,
                    repo,
                    tag,
                    &host_port_input,
                    &container_port_input,
                    &service_name_input,
                );
                return Effect::Continue;
            },
            Key::Backspace => match active_field {
                ConfigureField::HostPort => {
                    host_port_input.pop();
                    host_port_typed = true;
                },
                ConfigureField::ContainerPort => {
                    container_port_input.pop();
                    container_port_typed = true;
                },
                ConfigureField::Name => {
                    service_name_input.pop();
                    service_name_typed = true;
                },
            },
            Key::Char(ch) => match active_field {
                ConfigureField::HostPort => {
                    if is_digit_char(ch) {
                        type_into(&mut host_port_input, &mut host_port_typed, ch);
                    }
                },
                ConfigureField::ContainerPort => {
                    if is_digit_char(ch) {
                        type_into(&mut container_port_input, &mut container_port_typed, ch);
                    }
                },
                ConfigureField::Name => {
                    if is_name_char_exec(ch) {
                        type_into(&mut service_name_input, &mut service_name_typed, ch);
                    }
                },
            },
            Key::Tab => {
                active_field = active_field.next();
            },
            _ => {},
        }
        self.modal = Some(
            ModalState::ConfigureImagePorts {
                existing_index,
                namespace,
                repo,
                tag,
                host_port_input,
                container_port_input,
                service_name_input,
                active_field,
                host_port_typed,
                container_port_typed,
                service_name_typed,
            },
        );
        Effect::Continue
    }

    /// Builds the configured service and adds it, or puts it in place of the edited one.
    fn commit_configured(
        &mut self,
        existing_index: Option<usize>,
        namespace: String,
        repo: String,
        tag: String,
        host_port_input: &String,
        container_port_input: &String,
        service_name_input: &String,
    )
        requires
            old(self).modal is None,
        ensures
            configure_step(
                *old(self),
                *final(self),
                Key::Enter,
                Effect::Continue,
                existing_index,
                namespace,
                repo,
                tag,
                *host_port_input,
                *container_port_input,
                *service_name_input,
                ConfigureField::HostPort,
                false,
                false,
                false,
            ),
    {
        let ghost a = *self;
        let valid_existing = match existing_index {
            Some(i) => i < self.images.len(),
            None => false,
        };
        let fallback = if valid_existing {
            let i = existing_index.unwrap();
            self.images[i].port_mapping.clone()
        } else {
            self.next_port_mapping()
        };
        assert(fallback@ == fallback_mapping(a, existing_index));
        let (fallback_host, fallback_container) = split_port_mapping(fallback.as_str());
        let host = trimmed_or(host_port_input, fallback_host);
        let container = trimmed_or(container_port_input, fallback_container);
        let mut mapping = String::new();
        push_str(&mut mapping, host.as_str());
        push_str(&mut mapping, ":");
        push_str(&mut mapping, container.as_str());
        assert(mapping@ =~= committed_mapping(a, existing_index, host_port_input@, container_port_input@));
        let service_name = trimmed_or(service_name_input, default_service_name(repo.as_str(), self.images.len()));
        let mut label = String::new();
        push_str(&mut label, namespace.as_str());
        push_str(&mut label, "/");
        push_str(&mut label, repo.as_str());
        push_str(&mut label, ":");
        push_str(&mut label, tag.as_str());
        assert(label@ =~= namespace@ + "/"@ + repo@ + ":"@ + tag@);
        if valid_existing {
            let i = existing_index.unwrap();
            let old_entry = self.images.remove(i);
            let entry = ImageEntry {
                service_name,
                namespace,
                repo,
                tag,
                port_mapping: mapping,
                mounts: old_entry.mounts,
                env_vars: old_entry.env_vars,
            };
            self.images.insert(i, entry);
            assert(self.images@ =~= a.images@.update(i as int, self.images@[i as int]));
            self.images_selected = i;
            let mut line = String::from_str("updated image ");
            push_str(&mut line, label.as_str());
            self.push_log(line);
        } else if existing_index.is_none() {
            let entry = ImageEntry {
                service_name,
                namespace,
                repo,
                tag,
                port_mapping: mapping,
                mounts: Vec::new(),
                env_vars: Vec::new(),
            };
            self.images.push(entry);
            assert(self.images@.drop_last() == a.images@);
            self.images_selected = self.images.len() - 1;
            let mut line = String::from_str("added image ");
            push_str(&mut line, label.as_str());
            self.push_log(line);
        }
    }
}

// ---------------------------------------------------------------------------
// Mounts and environment variables of one service

/// `e2` is `e1` with other mounts.
pub open spec fn same_but_mounts(e1: ImageEntry, e2: ImageEntry) -> bool {
    e1.service_name == e2.service_name && e1.namespace == e2.namespace && e1.repo == e2.repo && e1.tag
        == e2.tag && e1.port_mapping == e2.port_mapping && e1.env_vars == e2.env_vars
}

/// `e2` is `e1` with other environment variables.
pub open spec fn same_but_env(e1: ImageEntry, e2: ImageEntry) -> bool {
    e1.service_name == e2.service_name && e1.namespace == e2.namespace && e1.repo == e2.repo && e1.tag
        == e2.tag && e1.port_mapping == e2.port_mapping && e1.mounts == e2.mounts
}

/// Service `i` of `b` is service `i` of `a` with `mounts`; the other services are as they were.
pub open spec fn mounts_set(a: App, b: App, i: int, mounts: Seq<VolumeMount>) -> bool {
    &&& 0 <= i < a.images@.len()
    &&& b.images@ == a.images@.update(i, b.images@[i])
    &&& same_but_mounts(a.images@[i], b.images@[i])
    &&& b.images@[i].mounts@ == mounts
}

pub open spec fn env_set(a: App, b: App, i: int, envs: Seq<EnvVar>) -> bool {
    &&& 0 <= i < a.images@.len()
    &&& b.images@ == a.images@.update(i, b.images@[i])
    &&& same_but_env(a.images@[i], b.images@[i])
    &&& b.images@[i].env_vars@ == envs
}

/// Navigation, project name and volumes are as they were.
pub open spec fn same_but_images(a: App, b: App) -> bool {
    a.focus == b.focus && a.active_tab == b.active_tab && a.project_name == b.project_name && a.volumes
        == b.volumes && a.volumes_selected == b.volumes_selected && a.images_selected == b.images_selected
}

pub open spec fn mount_of(m: VolumeMount, source: Seq<char>, target: Seq<char>) -> bool {
    m.source@ == source && m.target@ == target
}

pub open spec fn target_or_default(target: Seq<char>) -> Seq<char> {
    if trim(target).len() > 0 {
        trim(target)
    } else {
        mount_target_default()
    }
}

pub open spec fn mounted_line(kind: Seq<char>, source: Seq<char>, target: Seq<char>, service: Seq<char>) -> Seq<char> {
    kind + source + ":"@ + target + " on "@ + service
}

/// Appends a mount to service `i`.
fn add_mount(app: &mut App, i: usize, m: VolumeMount)
    requires
        i < old(app).images@.len(),
    ensures
        mounts_set(*old(app), *final(app), i as int, old(app).images@[i as int].mounts@.push(m)),
        same_but_images(*old(app), *final(app)),
        final(app).modal == old(app).modal,
        final(app).command_log == old(app).command_log,
{
    let ghost a = *app;
    let mut e = app.images.remove(i);
    e.mounts.push(m);
    app.images.insert(i, e);
    assert(app.images@ =~= a.images@.update(i as int, app.images@[i as int]));
}

/// Puts `envs` in place of the environment of service `i`.
fn set_env(app: &mut App, i: usize, envs: Vec<EnvVar>)
    requires
        i < old(app).images@.len(),
    ensures
        env_set(*old(app), *final(app), i as int, envs@),
        same_but_images(*old(app), *final(app)),
        final(app).modal == old(app).modal,
        final(app).command_log == old(app).command_log,
{
    let ghost a = *app;
    let mut e = app.images.remove(i);
    e.env_vars = envs;
    app.images.insert(i, e);
    assert(app.images@ =~= a.images@.update(i as int, app.images@[i as int]));
}

/// Puts `mounts` in place of the mounts of service `i`.
fn set_mounts(app: &mut App, i: usize, mounts: Vec<VolumeMount>)
    requires
        i < old(app).images@.len(),
    ensures
        mounts_set(*old(app), *final(app), i as int, mounts@),
        same_but_images(*old(app), *final(app)),
        final(app).modal == old(app).modal,
        final(app).command_log == old(app).command_log,
{
    let ghost a = *app;
    let mut e = app.images.remove(i);
    e.mounts = mounts;
    app.images.insert(i, e);
    assert(app.images@ =~= a.images@.update(i as int, app.images@[i as int]));
}

pub open spec fn volume_source_step(a: App, b: App, key: Key, r: Effect, image_index: usize, selected_option: usize) -> bool {
    let stay = |o: usize| b.modal == Some(ModalState::SelectImageVolumeSource { image_index, selected_option: o }) && log_of(b) == log_of(a);
    let new_volume = b.modal matches Some(
        ModalState::MountNewVolume {
            image_index: i2,
            new_volume_input: n2,
            target_input: t2,
            active_field: f2,
            new_volume_typed: nt2,
            target_typed: tt2,
        },
    ) && i2 == image_index && n2@ == volume_name_default(a.volumes@.len()) && t2@ == mount_target_default()
        && f2 == MountInputField::Source && !nt2 && !tt2;
    r is Continue && same_model(a, b) && if is_nav_up(key) {
        stay(if selected_option > 0 { (selected_option - 1) as usize } else { selected_option })
    } else if is_nav_down(key) {
        stay(if selected_option < 2 { (selected_option + 1) as usize } else { 2 })
    } else if key == Key::Enter {
        if selected_option == 0 && a.volumes@.len() == 0 {
            new_volume && log_of(b) == log_after(log_of(a), "no existing volume; creating new volume mount"@)
        } else if selected_option == 0 {
            log_of(b) == log_of(a) && (b.modal matches Some(
                ModalState::MountExistingVolume {
                    image_index: i2,
                    selected_volume: s2,
                    target_input: t2,
                    active_field: f2,
                    target_typed: tt2,
                },
            ) && i2 == image_index && s2 == 0 && t2@ == mount_target_default() && f2
                == MountExistingField::Volume && !tt2)
        } else if selected_option == 1 {
            new_volume && log_of(b) == log_of(a)
        } else if selected_option == 2 {
            log_of(b) == log_of(a) && (b.modal matches Some(
                ModalState::MountLocalPath {
                    image_index: i2,
                    local_path_input: l2,
                    target_input: t2,
                    active_field: f2,
                    local_path_typed: lt2,
                    target_typed: tt2,
                },
            ) && i2 == image_index && l2@ == "./"@ && t2@ == mount_target_default() && f2
                == MountInputField::Source && !lt2 && !tt2)
        } else {
            stay(selected_option)
        }
    } else {
        stay(selected_option)
    }
}

pub open spec fn mount_existing_step(
    a: App,
    b: App,
    key: Key,
    r: Effect,
    image_index: usize,
    selected_volume: usize,
    target: String,
    active: MountExistingField,
    target_typed: bool,
) -> bool {
    let stay = |s: usize, t: Seq<char>, f: MountExistingField, tt: bool|
        only_step(a, b) && (b.modal matches Some(
            ModalState::MountExistingVolume {
                image_index: i2,
                selected_volume: s2,
                target_input: t2,
                active_field: f2,
                target_typed: tt2,
            },
        ) && i2 == image_index && s2 == s && t2@ == t && f2 == f && tt2 == tt);
    let n = a.volumes@.len();
    let unchanged = stay(selected_volume, target@, active, target_typed);
    r is Continue && if is_nav_up(key) {
        stay(if active == MountExistingField::Volume && selected_volume > 0 { (selected_volume - 1) as usize } else { selected_volume }, target@, active, target_typed)
    } else if is_nav_down(key) {
        stay(if active == MountExistingField::Volume && n > 0 {
            if selected_volume + 1 < n { (selected_volume + 1) as usize } else { (n - 1) as usize }
        } else {
            selected_volume
        }, target@, active, target_typed)
    } else if key == Key::Backspace {
        if active == MountExistingField::Target {
            stay(selected_volume, backspaced(target@), active, true)
        } else {
            unchanged
        }
    } else if key == Key::Tab {
        stay(selected_volume, target@, match active {
            MountExistingField::Volume => MountExistingField::Target,
            MountExistingField::Target => MountExistingField::Volume,
        }, target_typed)
    } else if key == Key::Enter {
        if n == 0 {
            same_model(a, b) && b.modal == Some(ModalState::MountExistingVolume { image_index, selected_volume, target_input: target, active_field: active, target_typed })
                && log_of(b) == log_after(log_of(a), "no named volumes available; create one first"@)
        } else if image_index < a.images@.len() {
            let chosen = if selected_volume < n { a.volumes@[selected_volume as int].name@ } else { a.volumes@[0].name@ };
            let t = target_or_default(target@);
            &&& b.modal is None
            &&& same_but_images(a, b)
            &&& b.images@[image_index as int].mounts@.len() == a.images@[image_index as int].mounts@.len() + 1
            &&& mounts_set(a, b, image_index as int, a.images@[image_index as int].mounts@.push(b.images@[image_index as int].mounts@.last()))
            &&& mount_of(b.images@[image_index as int].mounts@.last(), chosen, t)
            &&& log_of(b) == log_after(log_of(a), mounted_line("mounted volume "@, chosen, t, a.images@[image_index as int].service_name@))
        } else {
            same_model(a, b) && log_of(b) == log_of(a) && b.modal == Some(ModalState::MountExistingVolume { image_index, selected_volume, target_input: target, active_field: active, target_typed })
        }
    } else if key is Char {
        if active == MountExistingField::Target && is_path_char(key->0) {
            stay(selected_volume, typed_into(target@, target_typed, key->0), active, true)
        } else {
            unchanged
        }
    } else {
        unchanged
    }
}

impl App {
    fn volume_source_key(&mut self, image_index: usize, selected_option: usize, key: Key) -> (r: Effect)
        requires
            old(self).modal is None,
        ensures
            volume_source_step(*old(self), *final(self), key, r, image_index, selected_option),
    {
        let mut selected_option = selected_option;
        if key == Key::Up || key == Key::Char('k') {
            if selected_option > 0 {
                selected_option = selected_option - 1;
            }
        } else if key == Key::Down || key == Key::Char('j') {
            selected_option = if selected_option < 2 {
                selected_option + 1
            } else {
                2
            };
        } else if key == Key::Enter {
            if selected_option == 0 && self.volumes.len() == 0 {
                self.modal = Some(
                    ModalState::MountNewVolume {
                        image_index,
                        new_volume_input: default_volume_name(self),
                        target_input: default_mount_target(),
                        active_field: MountInputField::Source,
                        new_volume_typed: false,
                        target_typed: false,
                    },
                );
                self.push_log(String::from_str("no existing volume; creating new volume mount"));
                return Effect::Continue;
            } else if selected_option == 0 {
                self.modal = Some(
                    ModalState::MountExistingVolume {
                        image_index,
                        selected_volume: 0,
                        target_input: default_mount_target(),
                        active_field: MountExistingField::Volume,
                        target_typed: false,
                    },
                );
                return Effect::Continue;
            } else if selected_option == 1 {
                self.modal = Some(
                    ModalState::MountNewVolume {
                        image_index,
                        new_volume_input: default_volume_name(self),
                        target_input: default_mount_target(),
                        active_field: MountInputField::Source,
                        new_volume_typed: false,
                        target_typed: false,
                    },
                );
                return Effect::Continue;
            } else if selected_option == 2 {
                self.modal = Some(
                    ModalState::MountLocalPath {
                        image_index,
                        local_path_input: String::from_str("./"),
                        target_input: default_mount_target(),
                        active_field: MountInputField::Source,
                        local_path_typed: false,
                        target_typed: false,
                    },
                );
                return Effect::Continue;
            }
        }
        self.modal = Some(ModalState::SelectImageVolumeSource { image_index, selected_option });
        Effect::Continue
    }

    fn mount_existing_key(
        &mut self,
        image_index: usize,
        selected_volume: usize,
        target_input: String,
        active_field: MountExistingField,
        target_typed: bool,
        key: Key,
    ) -> (r: Effect)
        requires
            old(self).modal is None,
        ensures
            mount_existing_step(*old(self), *final(self), key, r, image_index, selected_volume, target_input, active_field, target_typed),
    {
        let mut selected_volume = selected_volume;
        let mut target_input = target_input;
        let mut active_field = active_field;
        let mut target_typed = target_typed;
        if key == Key::Up || key == Key::Char('k') {
            if active_field == MountExistingField::Volume && selected_volume > 0 {
                selected_volume = selected_volume - 1;
            }
        } else if key == Key::Down || key == Key::Char('j') {
            if active_field == MountExistingField::Volume && self.volumes.len() > 0 {
                selected_volume = if selected_volume < self.volumes.len() - 1 {
                    selected_volume + 1
                } else {
                    self.volumes.len() - 1
                };
            }
        } else if key == Key::Backspace {
            if active_field == MountExistingField::Target {
                target_input.pop();
                target_typed = true;
            }
        } else if key == Key::Tab {
            active_field = active_field.next();
        } else if key == Key::Enter {
            if self.volumes.len() == 0 {
                self.modal = Some(ModalState::MountExistingVolume { image_index, selected_volume, target_input, active_field, target_typed });
                self.push_log(String::from_str("no named volumes available; create one first"));
                return Effect::Continue;
            }
            if image_index < self.images.len() {
                let chosen = if selected_volume < self.volumes.len() {
                    self.volumes[selected_volume].name.clone()
                } else {
                    self.volumes[0].name.clone()
                };
                let target = trimmed_or(&target_input, default_mount_target());
                let mut line = String::from_str("mounted volume ");
                push_str(&mut line, chosen.as_str());
                push_str(&mut line, ":");
                push_str(&mut line, target.as_str());
                push_str(&mut line, " on ");
                push_str(&mut line, self.images[image_index].service_name.as_str());
                assert(line@ =~= mounted_line("mounted volume "@, chosen@, target@, self.images@[image_index as int].service_name@));
                add_mount(self, image_index, VolumeMount { source: chosen, target });
                self.push_log(line);
                return Effect::Continue;
            }
        } else {
            match key {
                Key::Char(c) => {
                    if active_field == MountExistingField::Target && is_path_char_exec(c) {
                        type_into(&mut target_input, &mut target_typed, c);
                    }
                },
                _ => {},
            }
        }
        self.modal = Some(ModalState::MountExistingVolume { image_index, selected_volume, target_input, active_field, target_typed });
        Effect::Continue
    }
}

pub open spec fn declares(vs: Seq<VolumeEntry>, name: Seq<char>) -> bool {
    exists|j: int| 0 <= j < vs.len() && (#[trigger] vs[j]).name@ == name
}

/// The volumes after making sure that `name` is declared: appended and selected if new.
pub open spec fn declared_after(a: App, b: App, name: Seq<char>) -> bool {
    if declares(a.volumes@, name) {
        b.volumes == a.volumes && b.volumes_selected == a.volumes_selected
    } else {
        &&& b.volumes@.len() == a.volumes@.len() + 1
        &&& b.volumes@.drop_last() == a.volumes@
        &&& b.volumes@.last().name@ == name
        &&& b.volumes_selected == a.volumes@.len()
    }
}

pub open spec fn mount_input_edit(
    key: Key,
    active: MountInputField,
    source: Seq<char>,
    target: Seq<char>,
    st: bool,
    tt: bool,
    source_ok: spec_fn(char) -> bool,
) -> (Seq<char>, Seq<char>, MountInputField, bool, bool) {
    match key {
        Key::Backspace => match active {
            MountInputField::Source => (backspaced(source), target, active, true, tt),
            MountInputField::Target => (source, backspaced(target), active, st, true),
        },
        Key::Char(c) => match active {
            MountInputField::Source => if source_ok(c) {
                (typed_into(source, st, c), target, active, true, tt)
            } else {
                (source, target, active, st, tt)
            },
            MountInputField::Target => if is_path_char(c) {
                (source, typed_into(target, tt, c), active, st, true)
            } else {
                (source, target, active, st, tt)
            },
        },
        Key::Tab => (source, target, match active {
            MountInputField::Source => MountInputField::Target,
            MountInputField::Target => MountInputField::Source,
        }, st, tt),
        _ => (source, target, active, st, tt),
    }
}

pub open spec fn mount_new_modal(m: Option<ModalState>, image_index: usize, e: (Seq<char>, Seq<char>, MountInputField, bool, bool)) -> bool {
    m matches Some(
        ModalState::MountNewVolume {
            image_index: i2,
            new_volume_input: n2,
            target_input: t2,
            active_field: f2,
            new_volume_typed: nt2,
            target_typed: tt2,
        },
    ) && i2 == image_index && n2@ == e.0 && t2@ == e.1 && f2 == e.2 && nt2 == e.3 && tt2 == e.4
}

pub open spec fn mount_local_modal(m: Option<ModalState>, image_index: usize, e: (Seq<char>, Seq<char>, MountInputField, bool, bool)) -> bool {
    m matches Some(
        ModalState::MountLocalPath {
            image_index: i2,
            local_path_input: l2,
            target_input: t2,
            active_field: f2,
            local_path_typed: lt2,
            target_typed: tt2,
        },
    ) && i2 == image_index && l2@ == e.0 && t2@ == e.1 && f2 == e.2 && lt2 == e.3 && tt2 == e.4
}

pub open spec fn name_char_pred() -> spec_fn(char) -> bool {
    |c: char| is_name_char(c)
}

pub open spec fn path_char_pred() -> spec_fn(char) -> bool {
    |c: char| is_path_char(c)
}

pub open spec fn mount_new_step(
    a: App,
    b: App,
    key: Key,
    r: Effect,
    image_index: usize,
    source: String,
    target: String,
    active: MountInputField,
    st: bool,
    tt: bool,
) -> bool {
    r is Continue && if key == Key::Enter {
        let name = if trim(source@).len() > 0 { trim(source@) } else { volume_name_default(a.volumes@.len()) };
        let t = target_or_default(target@);
        &&& declared_after(a, b, name)
        &&& b.focus == a.focus && b.active_tab == a.active_tab && b.project_name == a.project_name
        &&& if image_index < a.images@.len() {
            &&& b.modal is None
            &&& b.images_selected == a.images_selected
            &&& mounts_set(a, b, image_index as int, a.images@[image_index as int].mounts@.push(b.images@[image_index as int].mounts@.last()))
            &&& b.images@[image_index as int].mounts@.len() == a.images@[image_index as int].mounts@.len() + 1
            &&& mount_of(b.images@[image_index as int].mounts@.last(), name, t)
            &&& log_of(b) == log_after(log_of(a), mounted_line("mounted new volume "@, name, t, a.images@[image_index as int].service_name@))
        } else {
            &&& b.images == a.images && b.images_selected == a.images_selected && log_of(b) == log_of(a)
            &&& b.modal == Some(ModalState::MountNewVolume { image_index, new_volume_input: source, target_input: target, active_field: active, new_volume_typed: st, target_typed: tt })
        }
    } else {
        only_step(a, b) && mount_new_modal(b.modal, image_index, mount_input_edit(key, active, source@, target@, st, tt, name_char_pred()))
    }
}

pub open spec fn mount_local_step(
    a: App,
    b: App,
    key: Key,
    r: Effect,
    image_index: usize,
    source: String,
    target: String,
    active: MountInputField,
    st: bool,
    tt: bool,
) -> bool {
    let unchanged = b.modal == Some(ModalState::MountLocalPath { image_index, local_path_input: source, target_input: target, active_field: active, local_path_typed: st, target_typed: tt });
    r is Continue && if key == Key::Enter {
        let path = trim(source@);
        let t = target_or_default(target@);
        if !(starts_with(path, "./"@) || starts_with(path, "/"@)) {
            same_model(a, b) && unchanged && log_of(b) == log_after(log_of(a), "local path must start with ./ or /"@)
        } else if image_index < a.images@.len() {
            &&& b.modal is None
            &&& same_but_images(a, b)
            &&& mounts_set(a, b, image_index as int, a.images@[image_index as int].mounts@.push(b.images@[image_index as int].mounts@.last()))
            &&& b.images@[image_index as int].mounts@.len() == a.images@[image_index as int].mounts@.len() + 1
            &&& mount_of(b.images@[image_index as int].mounts@.last(), path, t)
            &&& log_of(b) == log_after(log_of(a), mounted_line("mounted local path "@, path, t, a.images@[image_index as int].service_name@))
        } else {
            only_step(a, b) && unchanged
        }
    } else {
        only_step(a, b) && mount_local_modal(b.modal, image_index, mount_input_edit(key, active, source@, target@, st, tt, path_char_pred()))
    }
}

impl App {
    /// Declares the volume `name` unless a volume of that name exists.
    fn declare_volume(&mut self, name: &String)
        ensures
            declared_after(*old(self), *final(self), name@),
            final(self).focus == old(self).focus,
            final(self).active_tab == old(self).active_tab,
            final(self).project_name == old(self).project_name,
            final(self).images == old(self).images,
            final(self).images_selected == old(self).images_selected,
            final(self).modal == old(self).modal,
            final(self).command_log == old(self).command_log,
    {
        let mut j: usize = 0;
        while j < self.volumes.len()
            invariant
                j <= self.volumes.len(),
                forall|k: int| 0 <= k < j ==> (#[trigger] self.volumes@[k]).name@ != name@,
            decreases self.volumes.len() - j,
        {
            if str_eq(self.volumes[j].name.as_str(), name.as_str()) {
                assert(declares(self.volumes@, name@));
                return;
            }
            j = j + 1;
        }
        let ghost before = self.volumes@;
        self.volumes.push(VolumeEntry { name: name.clone() });
        assert(self.volumes@.drop_last() == before);
        self.volumes_selected = self.volumes.len() - 1;
    }

    fn mount_new_key(
        &mut self,
        image_index: usize,
        new_volume_input: String,
        target_input: String,
        active_field: MountInputField,
        new_volume_typed: bool,
        target_typed: bool,
        key: Key,
    ) -> (r: Effect)
        requires
            old(self).modal is None,
        ensures
            mount_new_step(*old(self), *final(self), key, r, image_index, new_volume_input, target_input, active_field, new_volume_typed, target_typed),
    {
        let mut new_volume_input = new_volume_input;
        let mut target_input = target_input;
        let mut active_field = active_field;
        let mut new_volume_typed = new_volume_typed;
        let mut target_typed = target_typed;
        match key {
            Key::Enter => {
                let ghost a = *self;
                let source = trimmed_or(&new_volume_input, default_volume_name(self));
                let target = trimmed_or(&target_input, default_mount_target());
                self.declare_volume(&source);
                if image_index < self.images.len() {
                    let mut line = String::from_str("mounted new volume ");
                    push_str(&mut line, source.as_str());
                    push_str(&mut line, ":");
                    push_str(&mut line, target.as_str());
                    push_str(&mut line, " on ");
                    push_str(&mut line, self.images[image_index].service_name.as_str());
                    assert(line@ =~= mounted_line("mounted new volume "@, source@, target@, a.images@[image_index as int].service_name@));
                    add_mount(self, image_index, VolumeMount { source, target });
                    self.push_log(line);
                    return Effect::Continue;
                }
            },
            Key::Backspace => match active_field {
                MountInputField::Source => {
                    new_volume_input.pop();
                    new_volume_typed = true;
                },
                MountInputField::Target => {
                    target_input.pop();
                    target_typed = true;
                },
            },
            Key::Char(c) => match active_field {
                MountInputField::Source => {
                    if is_name_char_exec(c) {
                        type_into(&mut new_volume_input, &mut new_volume_typed, c);
                    }
                },
                MountInputField::Target => {
                    if is_path_char_exec(c) {
                        type_into(&mut target_input, &mut target_typed, c);
                    }
                },
            },
            Key::Tab => {
                active_field = active_field.next();
            },
            _ => {},
        }
        self.modal = Some(
            ModalState::MountNewVolume {
                image_index,
                new_volume_input,
                target_input,
                active_field,
                new_volume_typed,
                target_typed,
            },
        );
        Effect::Continue
    }

    fn mount_local_key(
        &mut self,
        image_index: usize,
        local_path_input: String,
        target_input: String,
        active_field: MountInputField,
        local_path_typed: bool,
        target_typed: bool,
        key: Key,
    ) -> (r: Effect)
        requires
            old(self).modal is None,
        ensures
            mount_local_step(*old(self), *final(self), key, r, image_index, local_path_input, target_input, active_field, local_path_typed, target_typed),
    {
        let mut local_path_input = local_path_input;
        let mut target_input = target_input;
        let mut active_field = active_field;
        let mut local_path_typed = local_path_typed;
        let mut target_typed = target_typed;
        match key {
            Key::Enter => {
                let path = chars_of(trim_str(local_path_input.as_str()).as_str());
                let source = string_of(&path);
                if !(starts_with_exec(&path, &chars_of("./")) || starts_with_exec(&path, &chars_of("/"))) {
                    self.modal = Some(
                        ModalState::MountLocalPath {
                            image_index,
                            local_path_input,
                            target_input,
                            active_field,
                            local_path_typed,
                            target_typed,
                        },
                    );
                    self.push_log(String::from_str("local path must start with ./ or /"));
                    return Effect::Continue;
                }
                if image_index < self.images.len() {
                    let target = trimmed_or(&target_input, default_mount_target());
                    let mut line = String::from_str("mounted local path ");
                    push_str(&mut line, source.as_str());
                    push_str(&mut line, ":");
                    push_str(&mut line, target.as_str());
                    push_str(&mut line, " on ");
                    push_str(&mut line, self.images[image_index].service_name.as_str());
                    assert(line@ =~= mounted_line("mounted local path "@, source@, target@, self.images@[image_index as int].service_name@));
                    add_mount(self, image_index, VolumeMount { source, target });
                    self.push_log(line);
                    return Effect::Continue;
                }
            },
            Key::Backspace => match active_field {
                MountInputField::Source => {
                    local_path_input.pop();
                    local_path_typed = true;
                },
                MountInputField::Target => {
                    target_input.pop();
                    target_typed = true;
                },
            },
            Key::Char(c) => match active_field {
                MountInputField::Source => {
                    if is_path_char_exec(c) {
                        type_into(&mut local_path_input, &mut local_path_typed, c);
                    }
                },
                MountInputField::Target => {
                    if is_path_char_exec(c) {
                        type_into(&mut target_input, &mut target_typed, c);
                    }
                },
            },
            Key::Tab => {
                active_field = active_field.next();
            },
            _ => {},
        }
        self.modal = Some(
            ModalState::MountLocalPath {
                image_index,
                local_path_input,
                target_input,
                active_field,
                local_path_typed,
                target_typed,
            },
        );
        Effect::Continue
    }
}

/// The index removed from a list of `n` when `selected` is chosen.
pub open spec fn clamp_index(selected: usize, n: nat) -> int {
    if (selected as int) < n as int {
        selected as int
    } else {
        n - 1
    }
}

pub open spec fn remove_mount_step(a: App, b: App, key: Key, r: Effect, image_index: usize, selected: usize) -> bool {
    let valid = image_index < a.images@.len();
    let stay = |s2: usize| only_step(a, b) && b.modal == Some(ModalState::RemoveImageMount { image_index, selected_mount: s2 });
    r is Continue && if is_nav_up(key) {
        stay(if selected > 0 { (selected - 1) as usize } else { selected })
    } else if is_nav_down(key) {
        let n = if valid { a.images@[image_index as int].mounts@.len() } else { 0 };
        stay(if n > 0 { if selected + 1 < n { (selected + 1) as usize } else { (n - 1) as usize } } else { selected })
    } else if is_confirm(key) {
        &&& b.modal is None
        &&& same_but_images(a, b)
        &&& if valid && a.images@[image_index as int].mounts@.len() > 0 {
            let e = a.images@[image_index as int];
            let k = clamp_index(selected, e.mounts@.len());
            &&& mounts_set(a, b, image_index as int, e.mounts@.remove(k))
            &&& log_of(b) == log_after(log_of(a), "removed mount "@ + e.mounts@[k].source@ + ":"@ + e.mounts@[k].target@ + " from "@ + e.service_name@)
        } else if valid {
            b.images == a.images && log_of(b) == log_after(log_of(a), "selected image has no mounts"@)
        } else {
            b.images == a.images && log_of(b) == log_of(a)
        }
    } else if key == Key::Char('n') {
        same_model(a, b) && b.modal is None && log_of(b) == log_after(log_of(a), "unmount canceled"@)
    } else {
        stay(selected)
    }
}

pub open spec fn remove_env_step(a: App, b: App, key: Key, r: Effect, image_index: usize, selected: usize) -> bool {
    let valid = image_index < a.images@.len();
    let stay = |s2: usize| only_step(a, b) && b.modal == Some(ModalState::RemoveImageEnv { image_index, selected_env: s2 });
    r is Continue && if is_nav_up(key) {
        stay(if selected > 0 { (selected - 1) as usize } else { selected })
    } else if is_nav_down(key) {
        let n = if valid { a.images@[image_index as int].env_vars@.len() } else { 0 };
        stay(if n > 0 { if selected + 1 < n { (selected + 1) as usize } else { (n - 1) as usize } } else { selected })
    } else if is_confirm(key) {
        &&& b.modal is None
        &&& same_but_images(a, b)
        &&& if valid && a.images@[image_index as int].env_vars@.len() > 0 {
            let e = a.images@[image_index as int];
            let k = clamp_index(selected, e.env_vars@.len());
            &&& env_set(a, b, image_index as int, e.env_vars@.remove(k))
            &&& log_of(b) == log_after(log_of(a), "removed env "@ + e.env_vars@[k].key@ + " from "@ + e.service_name@)
        } else if valid {
            b.images == a.images && log_of(b) == log_after(log_of(a), "selected image has no env vars"@)
        } else {
            b.images == a.images && log_of(b) == log_of(a)
        }
    } else if key == Key::Char('n') {
        same_model(a, b) && b.modal is None && log_of(b) == log_after(log_of(a), "remove env canceled"@)
    } else {
        stay(selected)
    }
}

/// The position of the first variable named `key`.
pub open spec fn first_env_with(envs: Seq<EnvVar>, key: Seq<char>) -> Option<int> {
    if exists|j: int| 0 <= j < envs.len() && (#[trigger] envs[j]).key@ == key {
        Some(choose|j: int| 0 <= j < envs.len() && (#[trigger] envs[j]).key@ == key && forall|m: int| 0 <= m < j ==> (#[trigger] envs[m]).key@ != key)
    } else {
        None
    }
}

/// `after` is `envs` with `key` set to `value`: the first variable of that name gets the
/// value, or a new variable is appended.
pub open spec fn upserted(envs: Seq<EnvVar>, key: Seq<char>, value: Seq<char>, after: Seq<EnvVar>) -> bool {
    match first_env_with(envs, key) {
        Some(j) => after.len() == envs.len() && after == envs.update(j, after[j]) && after[j].key == envs[j].key && after[j].value@ == value,
        None => after.len() == envs.len() + 1 && after.drop_last() == envs && after.last().key@ == key && after.last().value@ == value,
    }
}

pub open spec fn add_env_step(
    a: App,
    b: App,
    key: Key,
    r: Effect,
    image_index: usize,
    key_input: String,
    value_input: String,
    active: EnvInputField,
) -> bool {
    let stay = |k: Seq<char>, v: Seq<char>, f: EnvInputField|
        only_step(a, b) && (b.modal matches Some(
            ModalState::AddImageEnv { image_index: i2, key_input: k2, value_input: v2, active_field: f2 },
        ) && i2 == image_index && k2@ == k && v2@ == v && f2 == f);
    let unchanged = b.modal == Some(ModalState::AddImageEnv { image_index, key_input, value_input, active_field: active });
    r is Continue && match key {
        Key::Backspace => match active {
            EnvInputField::Key => stay(backspaced(key_input@), value_input@, active),
            EnvInputField::Value => stay(key_input@, backspaced(value_input@), active),
        },
        Key::Char(c) => match active {
            EnvInputField::Key => if is_ascii_alnum(c) || c == '_' {
                stay(key_input@.push(crate::text::upper_char(c)), value_input@, active)
            } else {
                stay(key_input@, value_input@, active)
            },
            EnvInputField::Value => stay(key_input@, value_input@.push(c), active),
        },
        Key::Tab => stay(key_input@, value_input@, match active {
            EnvInputField::Key => EnvInputField::Value,
            EnvInputField::Value => EnvInputField::Key,
        }),
        Key::Enter => {
            let name = upper(trim(key_input@));
            if name.len() == 0 {
                same_model(a, b) && unchanged && log_of(b) == log_after(log_of(a), "env variable name is required"@)
            } else if image_index < a.images@.len() {
                let e = a.images@[image_index as int];
                &&& b.modal is None
                &&& same_but_images(a, b)
                &&& env_set(a, b, image_index as int, b.images@[image_index as int].env_vars@)
                &&& upserted(e.env_vars@, name, value_input@, b.images@[image_index as int].env_vars@)
                &&& log_of(b) == log_after(log_of(a), (if first_env_with(e.env_vars@, name) is Some { "updated env "@ } else { "added env "@ }) + name + " on "@ + e.service_name@)
            } else {
                only_step(a, b) && unchanged
            }
        },
        _ => stay(key_input@, value_input@, active),
    }
}

/// Removes mount `k` of service `i` and returns it.
fn remove_mount_at(app: &mut App, i: usize, k: usize) -> (m: VolumeMount)
    requires
        i < old(app).images@.len(),
        k < old(app).images@[i as int].mounts@.len(),
    ensures
        mounts_set(*old(app), *final(app), i as int, old(app).images@[i as int].mounts@.remove(k as int)),
        m == old(app).images@[i as int].mounts@[k as int],
        same_but_images(*old(app), *final(app)),
        final(app).modal == old(app).modal,
        final(app).command_log == old(app).command_log,
{
    let ghost a = *app;
    let mut e = app.images.remove(i);
    let m = e.mounts.remove(k);
    app.images.insert(i, e);
    assert(app.images@ =~= a.images@.update(i as int, app.images@[i as int]));
    m
}

/// Removes variable `k` of service `i` and returns it.
fn remove_env_at(app: &mut App, i: usize, k: usize) -> (v: EnvVar)
    requires
        i < old(app).images@.len(),
        k < old(app).images@[i as int].env_vars@.len(),
    ensures
        env_set(*old(app), *final(app), i as int, old(app).images@[i as int].env_vars@.remove(k as int)),
        v == old(app).images@[i as int].env_vars@[k as int],
        same_but_images(*old(app), *final(app)),
        final(app).modal == old(app).modal,
        final(app).command_log == old(app).command_log,
{
    let ghost a = *app;
    let mut e = app.images.remove(i);
    let v = e.env_vars.remove(k);
    app.images.insert(i, e);
    assert(app.images@ =~= a.images@.update(i as int, app.images@[i as int]));
    v
}

/// Sets `key` to `value` in `envs` (see `upserted`); true when a variable was updated.
fn upsert_env(envs: &mut Vec<EnvVar>, key: String, value: String) -> (updated: bool)
    ensures
        upserted(old(envs)@, key@, value@, final(envs)@),
        updated == first_env_with(old(envs)@, key@) is Some,
{
    let mut j: usize = 0;
    while j < envs.len()
        invariant
            j <= envs.len(),
            envs@ == old(envs)@,
            forall|m: int| 0 <= m < j ==> (#[trigger] envs@[m]).key@ != key@,
        decreases envs.len() - j,
    {
        if str_eq(envs[j].key.as_str(), key.as_str()) {
            proof {
                let c = choose|c: int| 0 <= c < envs@.len() && (#[trigger] envs@[c]).key@ == key@ && forall|m: int| 0 <= m < c ==> (#[trigger] envs@[m]).key@ != key@;
                assert(0 <= j < envs@.len() && envs@[j as int].key@ == key@);
                if c < j {
                    assert(envs@[c].key@ != key@);
                } else if c > j {
                    assert(envs@[j as int].key@ != key@);
                }
            }
            let ghost before = envs@;
            let mut existing = envs.remove(j);
            existing.value = value;
            envs.insert(j, existing);
            assert(envs@ =~= before.update(j as int, envs@[j as int]));
            return true;
        }
        j = j + 1;
    }
    let ghost before = envs@;
    envs.push(EnvVar { key, value });
    assert(envs@.drop_last() == before);
    false
}

impl App {
    fn remove_mount_key(&mut self, image_index: usize, selected_mount: usize, key: Key) -> (r: Effect)
        requires
            old(self).modal is None,
        ensures
            remove_mount_step(*old(self), *final(self), key, r, image_index, selected_mount),
    {
        let mut selected_mount = selected_mount;
        if key == Key::Up || key == Key::Char('k') {
            if selected_mount > 0 {
                selected_mount = selected_mount - 1;
            }
        } else if key == Key::Down || key == Key::Char('j') {
            if image_index < self.images.len() && self.images[image_index].mounts.len() > 0 {
                let n = self.images[image_index].mounts.len();
                selected_mount = if selected_mount < n - 1 {
                    selected_mount + 1
                } else {
                    n - 1
                };
            }
        } else if key == Key::Enter || key == Key::Char('y') {
            if image_index < self.images.len() {
                let n = self.images[image_index].mounts.len();
                if n > 0 {
                    let k = if selected_mount < n {
                        selected_mount
                    } else {
                        n - 1
                    };
                    let service = self.images[image_index].service_name.clone();
                    let removed = remove_mount_at(self, image_index, k);
                    let mut line = String::from_str("removed mount ");
                    push_str(&mut line, removed.source.as_str());
                    push_str(&mut line, ":");
                    push_str(&mut line, removed.target.as_str());
                    push_str(&mut line, " from ");
                    push_str(&mut line, service.as_str());
                    assert(line@ =~= "removed mount "@ + removed.source@ + ":"@ + removed.target@ + " from "@ + service@);
                    self.push_log(line);
                } else {
                    self.push_log(String::from_str("selected image has no mounts"));
                }
            }
            return Effect::Continue;
        } else if key == Key::Char('n') {
            self.push_log(String::from_str("unmount canceled"));
            return Effect::Continue;
        }
        self.modal = Some(ModalState::RemoveImageMount { image_index, selected_mount });
        Effect::Continue
    }

    fn remove_env_key(&mut self, image_index: usize, selected_env: usize, key: Key) -> (r: Effect)
        requires
            old(self).modal is None,
        ensures
            remove_env_step(*old(self), *final(self), key, r, image_index, selected_env),
    {
        let mut selected_env = selected_env;
        if key == Key::Up || key == Key::Char('k') {
            if selected_env > 0 {
                selected_env = selected_env - 1;
            }
        } else if key == Key::Down || key == Key::Char('j') {
            if image_index < self.images.len() && self.images[image_index].env_vars.len() > 0 {
                let n = self.images[image_index].env_vars.len();
                selected_env = if selected_env < n - 1 {
                    selected_env + 1
                } else {
                    n - 1
                };
            }
        } else if key == Key::Enter || key == Key::Char('y') {
            if image_index < self.images.len() {
                let n = self.images[image_index].env_vars.len();
                if n > 0 {
                    let k = if selected_env < n {
                        selected_env
                    } else {
                        n - 1
                    };
                    let service = self.images[image_index].service_name.clone();
                    let removed = remove_env_at(self, image_index, k);
                    let mut line = String::from_str("removed env ");
                    push_str(&mut line, removed.key.as_str());
                    push_str(&mut line, " from ");
                    push_str(&mut line, service.as_str());
                    assert(line@ =~= "removed env "@ + removed.key@ + " from "@ + service@);
                    self.push_log(line);
                } else {
                    self.push_log(String::from_str("selected image has no env vars"));
                }
            }
            return Effect::Continue;
        } else if key == Key::Char('n') {
            self.push_log(String::from_str("remove env canceled"));
            return Effect::Continue;
        }
        self.modal = Some(ModalState::RemoveImageEnv { image_index, selected_env });
        Effect::Continue
    }

    fn add_env_key(
        &mut self,
        image_index: usize,
        key_input: String,
        value_input: String,
        active_field: EnvInputField,
        key: Key,
    ) -> (r: Effect)
        requires
            old(self).modal is None,
        ensures
            add_env_step(*old(self), *final(self), key, r, image_index, key_input, value_input, active_field),
    {
        let mut key_input = key_input;
        let mut value_input = value_input;
        let mut active_field = active_field;
        match key {
            Key::Backspace => match active_field {
                EnvInputField::Key => {
                    key_input.pop();
                },
                EnvInputField::Value => {
                    value_input.pop();
                },
            },
            Key::Char(c) => match active_field {
                EnvInputField::Key => {
                    if ('0' <= c && c <= '9') || ('a' <= c && c <= 'z') || ('A' <= c && c <= 'Z') || c == '_' {
                        key_input.push(upper_of_char(c));
                    }
                },
                EnvInputField::Value => {
                    value_input.push(c);
                },
            },
            Key::Tab => {
                active_field = active_field.next();
            },
            Key::Enter => {
                let name_chars = to_upper(&trimmed(&chars_of(key_input.as_str())));
                if name_chars.len() == 0 {
                    self.modal = Some(ModalState::AddImageEnv { image_index, key_input, value_input, active_field });
                    self.push_log(String::from_str("env variable name is required"));
                    return Effect::Continue;
                }
                if image_index < self.images.len() {
                    let ghost a = *self;
                    let name = string_of(&name_chars);
                    let service = self.images[image_index].service_name.clone();
                    let mut entry = self.images.remove(image_index);
                    let updated = upsert_env(&mut entry.env_vars, name.clone(), value_input.clone());
                    self.images.insert(image_index, entry);
                    assert(self.images@ =~= a.images@.update(image_index as int, self.images@[image_index as int]));
                    let mut line = if updated {
                        String::from_str("updated env ")
                    } else {
                        String::from_str("added env ")
                    };
                    push_str(&mut line, name.as_str());
                    push_str(&mut line, " on ");
                    push_str(&mut line, service.as_str());
                    self.push_log(line);
                    return Effect::Continue;
                }
            },
            _ => {},
        }
        self.modal = Some(ModalState::AddImageEnv { image_index, key_input, value_input, active_field });
        Effect::Continue
    }
}

// ---------------------------------------------------------------------------
// Dispatch

/// One key while a step is active. `Esc` cancels any step and leaves the project as it was;
/// every other key, `q` included, goes to the step.
pub open spec fn modal_step(a: App, b: App, key: Key, r: Effect) -> bool {
    if key == Key::Esc {
        same_model(a, b) && b.modal is None && r is Continue && log_of(b) == log_after(log_of(a), "modal canceled"@)
    } else {
        match a.modal {
            Some(ModalState::AddImageType { input }) => add_image_type_step(a, b, key, r, input),
            Some(ModalState::SelectImageTag { image_term, namespace, repo, all_tags, query, filtered_tags, selected }) =>
                select_tag_step(a, b, key, r, image_term, namespace, repo, all_tags, query, filtered_tags, selected),
            Some(ModalState::ConfigureImagePorts {
                existing_index,
                namespace,
                repo,
                tag,
                host_port_input,
                container_port_input,
                service_name_input,
                active_field,
                host_port_typed,
                container_port_typed,
                service_name_typed,
            }) => configure_step(a, b, key, r, existing_index, namespace, repo, tag, host_port_input, container_port_input, service_name_input, active_field, host_port_typed, container_port_typed, service_name_typed),
            Some(ModalState::ConfirmDeleteImage { index }) => confirm_delete_step(a, b, key, r, index),
            Some(ModalState::ConfirmWriteCompose) => confirm_write_step(a, b, key, r),
            Some(ModalState::AddVolume { input }) => add_volume_step(a, b, key, r, input),
            Some(ModalState::SelectImageVolumeSource { image_index, selected_option }) => volume_source_step(a, b, key, r, image_index, selected_option),
            Some(ModalState::MountExistingVolume { image_index, selected_volume, target_input, active_field, target_typed }) =>
                mount_existing_step(a, b, key, r, image_index, selected_volume, target_input, active_field, target_typed),
            Some(ModalState::MountNewVolume { image_index, new_volume_input, target_input, active_field, new_volume_typed, target_typed }) =>
                mount_new_step(a, b, key, r, image_index, new_volume_input, target_input, active_field, new_volume_typed, target_typed),
            Some(ModalState::MountLocalPath { image_index, local_path_input, target_input, active_field, local_path_typed, target_typed }) =>
                mount_local_step(a, b, key, r, image_index, local_path_input, target_input, active_field, local_path_typed, target_typed),
            Some(ModalState::RemoveImageMount { image_index, selected_mount }) => remove_mount_step(a, b, key, r, image_index, selected_mount),
            Some(ModalState::AddImageEnv { image_index, key_input, value_input, active_field }) =>
                add_env_step(a, b, key, r, image_index, key_input, value_input, active_field),
            Some(ModalState::RemoveImageEnv { image_index, selected_env }) => remove_env_step(a, b, key, r, image_index, selected_env),
            None => b == a && r is Continue,
        }
    }
}

fn handle_modal_key(app: &mut App, key: Key) -> (r: Effect)
    ensures
        modal_step(*old(app), *final(app), key, r),
{
    if key == Key::Esc {
        app.modal = None;
        app.push_log(String::from_str("modal canceled"));
        return Effect::Continue;
    }
    let modal = app.modal.take();
    match modal {
        Some(ModalState::AddImageType { input }) => app.add_image_type_key(input, key),
        Some(ModalState::SelectImageTag { image_term, namespace, repo, all_tags, query, filtered_tags, selected }) =>
            app.select_tag_key(image_term, namespace, repo, all_tags, query, filtered_tags, selected, key),
        Some(ModalState::ConfigureImagePorts {
            existing_index,
            namespace,
            repo,
            tag,
            host_port_input,
            container_port_input,
            service_name_input,
            active_field,
            host_port_typed,
            container_port_typed,
            service_name_typed,
        }) => app.configure_key(existing_index, namespace, repo, tag, host_port_input, container_port_input, service_name_input, active_field, host_port_typed, container_port_typed, service_name_typed, key),
        Some(ModalState::ConfirmDeleteImage { index }) => app.confirm_delete_key(index, key),
        Some(ModalState::ConfirmWriteCompose) => app.confirm_write_key(key),
        Some(ModalState::AddVolume { input }) => app.add_volume_key(input, key),
        Some(ModalState::SelectImageVolumeSource { image_index, selected_option }) => app.volume_source_key(image_index, selected_option, key),
        Some(ModalState::MountExistingVolume { image_index, selected_volume, target_input, active_field, target_typed }) =>
            app.mount_existing_key(image_index, selected_volume, target_input, active_field, target_typed, key),
        Some(ModalState::MountNewVolume { image_index, new_volume_input, target_input, active_field, new_volume_typed, target_typed }) =>
            app.mount_new_key(image_index, new_volume_input, target_input, active_field, new_volume_typed, target_typed, key),
        Some(ModalState::MountLocalPath { image_index, local_path_input, target_input, active_field, local_path_typed, target_typed }) =>
            app.mount_local_key(image_index, local_path_input, target_input, active_field, local_path_typed, target_typed, key),
        Some(ModalState::RemoveImageMount { image_index, selected_mount }) => app.remove_mount_key(image_index, selected_mount, key),
        Some(ModalState::AddImageEnv { image_index, key_input, value_input, active_field }) =>
            app.add_env_key(image_index, key_input, value_input, active_field, key),
        Some(ModalState::RemoveImageEnv { image_index, selected_env }) => app.remove_env_key(image_index, selected_env, key),
        None => Effect::Continue,
    }
}

// ---------------------------------------------------------------------------
// Results of outside work

pub open spec fn lookup_done(a: App, b: App, term: String, outcome: LookupOutcome) -> bool {
    same_model(a, b) && match outcome {
        LookupOutcome::Found { namespace, repo, tags } => {
            &&& log_of(b) == log_after(log_of(a), "image repo resolved; pick a tag"@)
            &&& b.modal matches Some(
                ModalState::SelectImageTag {
                    image_term: t2,
                    namespace: n2,
                    repo: r2,
                    all_tags: a2,
                    query: q2,
                    filtered_tags: f2,
                    selected: s2,
                },
            )
            &&& b.modal->0->SelectImageTag_image_term == term
            &&& b.modal->0->SelectImageTag_namespace == namespace
            &&& b.modal->0->SelectImageTag_repo == repo
            &&& b.modal->0->SelectImageTag_all_tags == tags
            &&& b.modal->0->SelectImageTag_query@.len() == 0
            &&& views(b.modal->0->SelectImageTag_filtered_tags@) == ranked_tags(views(tags@), Seq::empty(), TAG_LIST_LIMIT as nat)
            &&& b.modal->0->SelectImageTag_selected == 0
        },
        LookupOutcome::NoMatch => b.modal == a.modal && log_of(b) == log_after(log_of(a), "no repo match found"@),
        LookupOutcome::SearchFailed(e) => b.modal == a.modal && log_of(b) == log_after(log_of(a), "repo search failed: "@ + e@),
        LookupOutcome::TagsFailed(e) => b.modal == a.modal && log_of(b) == log_after(log_of(a), "tag fetch failed: "@ + e@),
        LookupOutcome::RuntimeFailed(e) => b.modal == a.modal && log_of(b) == log_after(log_of(a), "runtime error: "@ + e@),
    }
}

pub open spec fn found_ports(ports: Result<Vec<u16>, String>) -> Seq<u16> {
    match ports {
        Ok(p) => p@,
        Err(_) => Seq::empty(),
    }
}

/// The log lines of a tag choice, in order.
pub open spec fn tag_choice_lines(ports: Result<Vec<u16>, String>, image_term: Seq<char>, namespace: Seq<char>, repo: Seq<char>) -> Seq<Seq<char>> {
    (match ports {
        Err(e) => seq!["port suggestions unavailable: "@ + e@],
        Ok(_) => Seq::empty(),
    }) + (match preferred_port(found_ports(ports)) {
        Some(p) => seq!["suggested container port "@ + decimal(p as nat)],
        None => Seq::empty(),
    }) + seq!["resolved "@ + image_term + " -> "@ + namespace + "/"@ + repo + "; set ports"@]
}

pub open spec fn tag_choice_done(a: App, b: App, ports: Result<Vec<u16>, String>) -> bool {
    match a.modal {
        Some(ModalState::SelectImageTag { image_term, namespace, repo, all_tags, query, filtered_tags, selected }) =>
            if selected < filtered_tags@.len() {
                let suggested = default_host_port(a.images@.len()) + ":"@ + match preferred_port(found_ports(ports)) {
                    Some(c) => decimal(c as nat),
                    None => "80"@,
                };
                let split = split_mapping(suggested);
                &&& same_model(a, b)
                &&& configure_modal(b.modal, None, namespace, repo, filtered_tags@[selected as int], split.0, split.1,
                    service_name_default(repo@, a.images@.len()), ConfigureField::HostPort, false, false, false)
                &&& log_of(b) == log_after_all(log_of(a), tag_choice_lines(ports, image_term@, namespace@, repo@))
            } else {
                b == a
            },
        _ => b == a,
    }
}

proof fn lemma_log_after_two(log: Seq<Seq<char>>, x: Seq<char>, y: Seq<char>)
    ensures
        log_after_all(log, seq![x, y]) == log_after(log_after(log, x), y),
        log_after_all(log, seq![x]) == log_after(log, x),
{
    assert(seq![x, y].drop_last() == seq![x]);
    assert(seq![x].drop_last() == Seq::<Seq<char>>::empty());
    assert(log_after_all(log, Seq::<Seq<char>>::empty()) == log);
    assert(log_after_all(log, seq![x]) == log_after(log_after_all(log, seq![x].drop_last()), seq![x].last()));
    assert(log_after_all(log, seq![x, y]) == log_after(log_after_all(log, seq![x, y].drop_last()), seq![x, y].last()));
}

proof fn lemma_log_after_three(log: Seq<Seq<char>>, x: Seq<char>, y: Seq<char>, z: Seq<char>)
    ensures
        log_after_all(log, seq![x, y, z]) == log_after(log_after(log_after(log, x), y), z),
{
    assert(seq![x, y, z].drop_last() == seq![x, y]);
    lemma_log_after_two(log, x, y);
    assert(log_after_all(log, seq![x, y, z]) == log_after(log_after_all(log, seq![x, y, z].drop_last()), seq![x, y, z].last()));
}

impl App {
    /// Takes in how resolving `term` and listing its tags went.
    pub fn complete_image_lookup(&mut self, term: String, outcome: LookupOutcome)
        ensures
            lookup_done(*old(self), *final(self), term, outcome),
            app_wf(*old(self)) ==> app_wf(*final(self)),
    {
        match outcome {
            LookupOutcome::Found { namespace, repo, tags } => {
                let filtered_tags = filter_tags(tags.as_slice(), "", TAG_LIST_LIMIT);
                proof {
                    reveal_strlit("");
                }
                self.modal = Some(
                    ModalState::SelectImageTag {
                        image_term: term,
                        namespace,
                        repo,
                        all_tags: tags,
                        query: String::new(),
                        filtered_tags,
                        selected: 0,
                    },
                );
                self.push_log(String::from_str("image repo resolved; pick a tag"));
            },
            LookupOutcome::NoMatch => {
                self.push_log(String::from_str("no repo match found"));
            },
            LookupOutcome::SearchFailed(e) => {
                let mut line = String::from_str("repo search failed: ");
                push_str(&mut line, e.as_str());
                self.push_log(line);
            },
            LookupOutcome::TagsFailed(e) => {
                let mut line = String::from_str("tag fetch failed: ");
                push_str(&mut line, e.as_str());
                self.push_log(line);
            },
            LookupOutcome::RuntimeFailed(e) => {
                let mut line = String::from_str("runtime error: ");
                push_str(&mut line, e.as_str());
                self.push_log(line);
            },
        }
    }

    /// Takes in the exposed ports of the chosen tag and moves on to the configure step.
    pub fn complete_tag_selection(&mut self, ports: Result<Vec<u16>, String>)
        ensures
            tag_choice_done(*old(self), *final(self), ports),
            app_wf(*old(self)) ==> app_wf(*final(self)),
    {
        let ghost a = *self;
        let modal = self.modal.take();
        match modal {
            Some(ModalState::SelectImageTag { image_term, namespace, repo, all_tags, query, filtered_tags, selected }) => {
                if selected >= filtered_tags.len() {
                    self.modal = Some(ModalState::SelectImageTag { image_term, namespace, repo, all_tags, query, filtered_tags, selected });
                    return;
                }
                let tag = filtered_tags[selected].clone();
                let ghost log0 = log_of(*self);
                let mut first_line: Option<String> = None;
                let found: Vec<u16> = match &ports {
                    Ok(p) => p.clone(),
                    Err(e) => {
                        let mut line = String::from_str("port suggestions unavailable: ");
                        push_str(&mut line, e.as_str());
                        first_line = Some(line);
                        Vec::new()
                    },
                };
                assert(found@ == found_ports(ports));
                let suggested_container_port = preferred_container_port(found.as_slice());
                let suggested_mapping = suggested_port_mapping(self, suggested_container_port);
                let (host_port_input, container_port_input) = split_port_mapping(suggested_mapping.as_str());
                let service_name_input = default_service_name(repo.as_str(), self.images.len());
                let mut last_line = String::from_str("resolved ");
                push_str(&mut last_line, image_term.as_str());
                push_str(&mut last_line, " -> ");
                push_str(&mut last_line, namespace.as_str());
                push_str(&mut last_line, "/");
                push_str(&mut last_line, repo.as_str());
                push_str(&mut last_line, "; set ports");
                assert(last_line@ =~= "resolved "@ + image_term@ + " -> "@ + namespace@ + "/"@ + repo@ + "; set ports"@);
                self.modal = Some(
                    ModalState::ConfigureImagePorts {
                        existing_index: None,
                        namespace,
                        repo,
                        tag,
                        host_port_input,
                        container_port_input,
                        service_name_input,
                        active_field: ConfigureField::HostPort,
                        host_port_typed: false,
                        container_port_typed: false,
                        service_name_typed: false,
                    },
                );
                let ghost lines = tag_choice_lines(ports, image_term@, a.modal->0->SelectImageTag_namespace@, a.modal->0->SelectImageTag_repo@);
                match first_line {
                    Some(line) => {
                        self.push_log(line);
                    },
                    None => {},
                }
                match suggested_container_port {
                    Some(port) => {
                        let mut line = String::from_str("suggested container port ");
                        push_decimal(&mut line, port as u128);
                        self.push_log(line);
                    },
                    None => {},
                }
                self.push_log(last_line);
                proof {
                    if ports is Err && suggested_container_port is Some {
                        assert(lines =~= seq![lines[0], lines[1], lines[2]]);
                        lemma_log_after_three(log0, lines[0], lines[1], lines[2]);
                    } else if ports is Err || suggested_container_port is Some {
                        assert(lines =~= seq![lines[0], lines[1]]);
                        lemma_log_after_two(log0, lines[0], lines[1]);
                    } else {
                        assert(lines =~= seq![lines[0]]);
                        lemma_log_after_two(log0, lines[0], lines[0]);
                    }
                }
            },
            other => {
                self.modal = other;
            },
        }
        proof {
            if app_wf(a) {
                lemma_tag_choice_wf(a, *self, ports);
            }
        }
    }

    /// Takes in how writing the manifest went: success ends the session.
    pub fn complete_compose_write(&mut self, result: Result<(), String>) -> (r: LoopControl)
        ensures
            same_but_log(*old(self), *final(self)),
            app_wf(*old(self)) ==> app_wf(*final(self)),
            result is Ok ==> r == LoopControl::Exit && log_of(*final(self)) == log_after(log_of(*old(self)), "wrote docker-compose.yaml from preview"@),
            result is Err ==> r == LoopControl::Continue && log_of(*final(self)) == log_after(log_of(*old(self)), "failed to write docker-compose.yaml: "@ + result->Err_0@),
    {
        match result {
            Ok(()) => {
                self.push_log(String::from_str("wrote docker-compose.yaml from preview"));
                LoopControl::Exit
            },
            Err(e) => {
                let mut line = String::from_str("failed to write docker-compose.yaml: ");
                push_str(&mut line, e.as_str());
                self.push_log(line);
                LoopControl::Continue
            },
        }
    }
}

// ---------------------------------------------------------------------------
// Keys outside any step

/// `b` is `a` with the step `m` opened and `line` logged.
pub open spec fn opened(a: App, b: App, m: ModalState, line: Seq<char>) -> bool {
    same_model(a, b) && b.modal == Some(m) && log_of(b) == log_after(log_of(a), line)
}

/// The entry that commands act on: the selected one, clamped to the list.
pub open spec fn selected_image(a: App) -> usize {
    if (a.images_selected as int) < a.images@.len() {
        a.images_selected
    } else {
        (a.images@.len() - 1) as usize
    }
}

/// A key no command took: `p` opens the write confirmation, a tab's action key is logged.
pub open spec fn fallback_key(a: App, b: App, ch: char) -> bool {
    if ch == 'p' {
        opened(a, b, ModalState::ConfirmWriteCompose, "write compose file: confirm with y"@)
    } else {
        match action_of(a.active_tab, ch) {
            Some(action) => same_but_log(a, b) && log_of(b) == log_after(log_of(a), "["@ + title_of(a.active_tab) + "] "@ + action),
            None => b == a,
        }
    }
}

pub open spec fn command_key(a: App, b: App, ch: char) -> bool {
    let main = a.focus == FocusArea::Main;
    let has_images = a.images@.len() > 0;
    let i = selected_image(a);
    match command_of(a.active_tab, ch) {
        Some(TabCommand::NewImage) => b.modal matches Some(ModalState::AddImageType { input }) && input@.len() == 0
            && same_model(a, b) && log_of(b) == log_after(log_of(a), "add image: enter image term"@),
        Some(TabCommand::EditImage) => if main && has_images {
            let e = a.images@[i as int];
            let split = split_mapping(e.port_mapping@);
            &&& same_model(a, b)
            &&& log_of(b) == log_after(log_of(a), "edit image: adjust ports/name"@)
            &&& configure_modal(b.modal, Some(i), e.namespace, e.repo, e.tag, split.0, split.1, e.service_name@, ConfigureField::HostPort, false, false, false)
        } else {
            fallback_key(a, b, ch)
        },
        Some(TabCommand::AddImageEnv) => if main && has_images {
            &&& same_model(a, b)
            &&& log_of(b) == log_after(log_of(a), "add env: enter variable and value"@)
            &&& b.modal matches Some(ModalState::AddImageEnv { image_index, key_input, value_input, active_field })
            &&& b.modal->0->AddImageEnv_image_index == i
            &&& b.modal->0->AddImageEnv_key_input@.len() == 0
            &&& b.modal->0->AddImageEnv_value_input@.len() == 0
            &&& b.modal->0->AddImageEnv_active_field == EnvInputField::Key
        } else {
            fallback_key(a, b, ch)
        },
        Some(TabCommand::RemoveImageEnv) => if main && has_images {
            if a.images@[i as int].env_vars@.len() == 0 {
                same_but_log(a, b) && log_of(b) == log_after(log_of(a), "selected image has no env vars"@)
            } else {
                opened(a, b, ModalState::RemoveImageEnv { image_index: i, selected_env: 0 }, "remove env: pick variable and confirm"@)
            }
        } else {
            fallback_key(a, b, ch)
        },
        Some(TabCommand::DeleteImage) => if main && has_images {
            opened(a, b, ModalState::ConfirmDeleteImage { index: i }, "delete image: confirm with y"@)
        } else {
            fallback_key(a, b, ch)
        },
        Some(TabCommand::MountImageVolume) => if main && has_images {
            opened(a, b, ModalState::SelectImageVolumeSource { image_index: i, selected_option: 0 }, "mount volume: choose existing/new/local"@)
        } else {
            fallback_key(a, b, ch)
        },
        Some(TabCommand::RemoveImageVolume) => if main && has_images {
            if a.images@[i as int].mounts@.len() == 0 {
                same_but_log(a, b) && log_of(b) == log_after(log_of(a), "selected image has no mounted volumes"@)
            } else {
                opened(a, b, ModalState::RemoveImageMount { image_index: i, selected_mount: 0 }, "unmount: pick mount and confirm"@)
            }
        } else {
            fallback_key(a, b, ch)
        },
        Some(TabCommand::AddVolume) => b.modal matches Some(ModalState::AddVolume { input }) && input@.len() == 0
            && same_model(a, b) && log_of(b) == log_after(log_of(a), "add volume: enter a name"@),
        Some(TabCommand::DeleteVolume) => if main && a.volumes@.len() > 0 {
            let k = clamp_index(a.volumes_selected, a.volumes@.len());
            &&& b.focus == a.focus && b.active_tab == a.active_tab && b.project_name == a.project_name
            &&& b.images == a.images && b.images_selected == a.images_selected && b.modal == a.modal
            &&& b.volumes@ == a.volumes@.remove(k)
            &&& b.volumes_selected == clamped_selection(a.volumes_selected, b.volumes@.len())
            &&& log_of(b) == log_after(log_of(a), "deleted volume "@ + a.volumes@[k].name@)
        } else {
            fallback_key(a, b, ch)
        },
        _ => fallback_key(a, b, ch),
    }
}

/// One key outside any step.
pub open spec fn navigation_step(a: App, b: App, key: Key, r: Effect) -> bool {
    let images_list = a.focus == FocusArea::Main && a.active_tab == Tab::Images && a.images@.len() > 0;
    let volume_list = a.focus == FocusArea::Main && a.active_tab == Tab::Volume && a.volumes@.len() > 0;
    let moved = |focus: FocusArea, tab: Tab, isel: usize, vsel: usize|
        b == App { focus, active_tab: tab, images_selected: isel, volumes_selected: vsel, ..a };
    if key == Key::Esc || key == Key::Char('q') {
        b == a && r is Exit
    } else if key == Key::Tab {
        r is Continue && moved(if a.focus == FocusArea::Sidebar { FocusArea::Main } else { FocusArea::Sidebar }, a.active_tab, a.images_selected, a.volumes_selected)
    } else if key == Key::Left || key == Key::Char('h') {
        r is Continue && moved(FocusArea::Sidebar, a.active_tab, a.images_selected, a.volumes_selected)
    } else if key == Key::Right || key == Key::Char('l') {
        r is Continue && moved(FocusArea::Main, a.active_tab, a.images_selected, a.volumes_selected)
    } else if is_nav_up(key) {
        r is Continue && if a.focus == FocusArea::Sidebar {
            moved(a.focus, previous_tab(a.active_tab), a.images_selected, a.volumes_selected)
        } else if images_list && a.images_selected > 0 {
            moved(a.focus, a.active_tab, (a.images_selected - 1) as usize, a.volumes_selected)
        } else if volume_list && a.volumes_selected > 0 {
            moved(a.focus, a.active_tab, a.images_selected, (a.volumes_selected - 1) as usize)
        } else {
            b == a
        }
    } else if is_nav_down(key) {
        r is Continue && if a.focus == FocusArea::Sidebar {
            moved(a.focus, next_tab(a.active_tab), a.images_selected, a.volumes_selected)
        } else if images_list {
            moved(a.focus, a.active_tab, if a.images_selected + 1 < a.images@.len() { (a.images_selected + 1) as usize } else { (a.images@.len() - 1) as usize }, a.volumes_selected)
        } else if volume_list {
            moved(a.focus, a.active_tab, a.images_selected, if a.volumes_selected + 1 < a.volumes@.len() { (a.volumes_selected + 1) as usize } else { (a.volumes@.len() - 1) as usize })
        } else {
            b == a
        }
    } else if key is Char {
        r is Continue && command_key(a, b, key->0)
    } else {
        r is Continue && b == a
    }
}

fn fallback_char(app: &mut App, ch: char)
    requires
        old(app).modal is None,
    ensures
        fallback_key(*old(app), *final(app), ch),
{
    if ch == 'p' {
        app.modal = Some(ModalState::ConfirmWriteCompose);
        app.push_log(String::from_str("write compose file: confirm with y"));
        return;
    }
    match app.active_tab.keybind_action(ch) {
        Some(action) => {
            let mut line = String::from_str("[");
            push_str(&mut line, app.active_tab.title());
            push_str(&mut line, "] ");
            push_str(&mut line, action);
            assert(line@ =~= "["@ + title_of(app.active_tab) + "] "@ + action@);
            app.push_log(line);
        },
        None => {},
    }
}

fn command_char(app: &mut App, ch: char)
    requires
        old(app).modal is None,
    ensures
        command_key(*old(app), *final(app), ch),
{
    let main = app.focus == FocusArea::Main;
    let has_images = app.images.len() > 0;
    let index = if has_images {
        if app.images_selected < app.images.len() {
            app.images_selected
        } else {
            app.images.len() - 1
        }
    } else {
        0
    };
    match app.active_tab.command_for_key(ch) {
        Some(TabCommand::NewImage) => {
            app.modal = Some(ModalState::AddImageType { input: String::new() });
            app.push_log(String::from_str("add image: enter image term"));
        },
        Some(TabCommand::EditImage) => {
            if main && has_images {
                let e = &app.images[index];
                let (host_port_input, container_port_input) = split_port_mapping(e.port_mapping.as_str());
                let m = ModalState::ConfigureImagePorts {
                    existing_index: Some(index),
                    namespace: e.namespace.clone(),
                    repo: e.repo.clone(),
                    tag: e.tag.clone(),
                    host_port_input,
                    container_port_input,
                    service_name_input: e.service_name.clone(),
                    active_field: ConfigureField::HostPort,
                    host_port_typed: false,
                    container_port_typed: false,
                    service_name_typed: false,
                };
                app.modal = Some(m);
                app.push_log(String::from_str("edit image: adjust ports/name"));
            } else {
                fallback_char(app, ch);
            }
        },
        Some(TabCommand::AddImageEnv) => {
            if main && has_images {
                app.modal = Some(ModalState::AddImageEnv {
                    image_index: index,
                    key_input: String::new(),
                    value_input: String::new(),
                    active_field: EnvInputField::Key,
                });
                app.push_log(String::from_str("add env: enter variable and value"));
            } else {
                fallback_char(app, ch);
            }
        },
        Some(TabCommand::RemoveImageEnv) => {
            if main && has_images {
                if app.images[index].env_vars.len() == 0 {
                    app.push_log(String::from_str("selected image has no env vars"));
                } else {
                    app.modal = Some(ModalState::RemoveImageEnv { image_index: index, selected_env: 0 });
                    app.push_log(String::from_str("remove env: pick variable and confirm"));
                }
            } else {
                fallback_char(app, ch);
            }
        },
        Some(TabCommand::DeleteImage) => {
            if main && has_images {
                app.modal = Some(ModalState::ConfirmDeleteImage { index });
                app.push_log(String::from_str("delete image: confirm with y"));
            } else {
                fallback_char(app, ch);
            }
        },
        Some(TabCommand::MountImageVolume) => {
            if main && has_images {
                app.modal = Some(ModalState::SelectImageVolumeSource { image_index: index, selected_option: 0 });
                app.push_log(String::from_str("mount volume: choose existing/new/local"));
            } else {
                fallback_char(app, ch);
            }
        },
        Some(TabCommand::RemoveImageVolume) => {
            if main && has_images {
                if app.images[index].mounts.len() == 0 {
                    app.push_log(String::from_str("selected image has no mounted volumes"));
                } else {
                    app.modal = Some(ModalState::RemoveImageMount { image_index: index, selected_mount: 0 });
                    app.push_log(String::from_str("unmount: pick mount and confirm"));
                }
            } else {
                fallback_char(app, ch);
            }
        },
        Some(TabCommand::AddVolume) => {
            app.modal = Some(ModalState::AddVolume { input: String::new() });
            app.push_log(String::from_str("add volume: enter a name"));
        },
        Some(TabCommand::DeleteVolume) => {
            if main && app.volumes.len() > 0 {
                let k = if app.volumes_selected < app.volumes.len() {
                    app.volumes_selected
                } else {
                    app.volumes.len() - 1
                };
                let removed = app.volumes.remove(k);
                if app.volumes.len() == 0 {
                    app.volumes_selected = 0;
                } else if app.volumes_selected >= app.volumes.len() {
                    app.volumes_selected = app.volumes.len() - 1;
                }
                let mut line = String::from_str("deleted volume ");
                push_str(&mut line, removed.name.as_str());
                app.push_log(line);
            } else {
                fallback_char(app, ch);
            }
        },
        _ => {
            fallback_char(app, ch);
        },
    }
}

fn handle_navigation_key(app: &mut App, key: Key) -> (r: Effect)
    requires
        old(app).modal is None,
    ensures
        navigation_step(*old(app), *final(app), key, r),
{
    if key == Key::Esc || key == Key::Char('q') {
        return Effect::Exit;
    }
    if key == Key::Tab {
        app.focus = app.focus.next();
    } else if key == Key::Left || key == Key::Char('h') {
        app.focus = FocusArea::Sidebar;
    } else if key == Key::Right || key == Key::Char('l') {
        app.focus = FocusArea::Main;
    } else if key == Key::Up || key == Key::Char('k') {
        if app.focus == FocusArea::Sidebar {
            app.active_tab = app.active_tab.previous();
        } else if app.active_tab == Tab::Images && app.images.len() > 0 && app.images_selected > 0 {
            app.images_selected = app.images_selected - 1;
        } else if app.active_tab == Tab::Volume && app.volumes.len() > 0 && app.volumes_selected > 0 {
            app.volumes_selected = app.volumes_selected - 1;
        }
    } else if key == Key::Down || key == Key::Char('j') {
        if app.focus == FocusArea::Sidebar {
            app.active_tab = app.active_tab.next();
        } else if app.active_tab == Tab::Images && app.images.len() > 0 {
            app.images_selected = if app.images_selected < app.images.len() - 1 {
                app.images_selected + 1
            } else {
                app.images.len() - 1
            };
        } else if app.active_tab == Tab::Volume && app.volumes.len() > 0 {
            app.volumes_selected = if app.volumes_selected < app.volumes.len() - 1 {
                app.volumes_selected + 1
            } else {
                app.volumes.len() - 1
            };
        }
    } else {
        match key {
            Key::Char(ch) => command_char(app, ch),
            _ => {},
        }
    }
    Effect::Continue
}

/// Handles one key: inside a step as `modal_step` says, otherwise as `navigation_step` says.
pub fn handle_key(app: &mut App, key: Key) -> (r: Effect)
    ensures
        old(app).modal is Some ==> modal_step(*old(app), *final(app), key, r),
        old(app).modal is None ==> navigation_step(*old(app), *final(app), key, r),
        app_wf(*old(app)) ==> app_wf(*final(app)),
{
    let ghost a = *app;
    if app.modal.is_some() {
        let r = handle_modal_key(app, key);
        proof {
            if app_wf(a) {
                lemma_modal_step_wf(a, *app, key, r);
            }
        }
        return r;
    }
    let r = handle_navigation_key(app, key);
    proof {
        if app_wf(a) {
            lemma_navigation_step_wf(a, *app, key, r);
        }
    }
    r
}

// ---------------------------------------------------------------------------
// Laws of the wizard

/// `Esc` during any step closes it and leaves the project model as it was.
pub proof fn lemma_escape_keeps_project(a: App, b: App, r: Effect)
    requires
        a.modal is Some,
        modal_step(a, b, Key::Esc, r),
    ensures
        b.modal is None,
        b.images == a.images,
        b.volumes == a.volumes,
        b.images_selected == a.images_selected,
        b.volumes_selected == a.volumes_selected,
        b.project_name == a.project_name,
{
}

/// Confirming a delete removes exactly the entry at a valid index and keeps the selection
/// inside the list (0 when it is empty); at an index out of range nothing changes.
pub proof fn lemma_delete_clamps(a: App, b: App, key: Key, r: Effect, index: usize)
    requires
        a.modal == Some(ModalState::ConfirmDeleteImage { index }),
        is_confirm(key),
        modal_step(a, b, key, r),
    ensures
        index < a.images@.len() ==> b.images@ == a.images@.remove(index as int) && b.images@.len()
            == a.images@.len() - 1,
        index < a.images@.len() && b.images@.len() == 0 ==> b.images_selected == 0,
        index < a.images@.len() && b.images@.len() > 0 ==> b.images_selected == if a.images_selected
            < b.images@.len() {
            a.images_selected
        } else {
            (b.images@.len() - 1) as usize
        },
        index >= a.images@.len() ==> b.images == a.images && b.images_selected == a.images_selected,
        b.volumes == a.volumes,
        b.modal is None,
        r is Continue,
{
    assert(key != Key::Esc);
}

/// Choosing "existing volume" while no volume is declared leads to the new-volume step, with
/// the volumes as they were.
pub proof fn lemma_existing_without_volumes_redirects(a: App, b: App, r: Effect, image_index: usize)
    requires
        a.modal == Some(ModalState::SelectImageVolumeSource { image_index, selected_option: 0 }),
        a.volumes@.len() == 0,
        modal_step(a, b, Key::Enter, r),
    ensures
        b.modal matches Some(ModalState::MountNewVolume { .. }),
        b.modal->0->MountNewVolume_image_index == image_index,
        b.modal->0->MountNewVolume_new_volume_input@ == volume_name_default(0),
        b.modal->0->MountNewVolume_target_input@ == mount_target_default(),
        b.modal->0->MountNewVolume_active_field == MountInputField::Source,
        !b.modal->0->MountNewVolume_new_volume_typed,
        !b.modal->0->MountNewVolume_target_typed,
        b.volumes == a.volumes,
        b.images == a.images,
        r is Continue,
{
}

/// Committing the new-volume step declares the volume when it is not declared yet and
/// appends the mount to the service.
pub proof fn lemma_new_volume_mount(a: App, b: App, r: Effect)
    requires
        a.modal matches Some(ModalState::MountNewVolume { .. }),
        (a.modal->0->MountNewVolume_image_index as int) < a.images@.len(),
        modal_step(a, b, Key::Enter, r),
    ensures
        ({
            let m = a.modal->0;
            let i = m->MountNewVolume_image_index as int;
            let source = m->MountNewVolume_new_volume_input@;
            let name = if trim(source).len() > 0 { trim(source) } else { volume_name_default(a.volumes@.len()) };
            &&& declared_after(a, b, name)
            &&& declares(b.volumes@, name)
            &&& b.images@[i].mounts@ == a.images@[i].mounts@.push(b.images@[i].mounts@.last())
            &&& mount_of(b.images@[i].mounts@.last(), name, target_or_default(m->MountNewVolume_target_input@))
            &&& b.modal is None
            &&& r is Continue
        }),
{
    let m = a.modal->0;
    let source = m->MountNewVolume_new_volume_input@;
    let name = if trim(source).len() > 0 { trim(source) } else { volume_name_default(a.volumes@.len()) };
    if !declares(a.volumes@, name) {
        let k = a.volumes@.len() as int;
        assert(b.volumes@[k].name@ == name);
    }
}

/// Committing a mount of an existing volume mounts a declared volume.
pub proof fn lemma_existing_mount_is_declared(a: App, b: App, r: Effect)
    requires
        a.modal matches Some(ModalState::MountExistingVolume { .. }),
        modal_step(a, b, Key::Enter, r),
        b.modal is None,
    ensures
        exists|i: int| 0 <= i < a.images@.len() && b.images@[i].mounts@.len() > 0 && declares(
            b.volumes@,
            b.images@[i].mounts@.last().source@,
        ),
{
    let m = a.modal->0;
    let i = m->MountExistingVolume_image_index as int;
    let sel = m->MountExistingVolume_selected_volume;
    let n = a.volumes@.len();
    let k: int = if (sel as int) < n { sel as int } else { 0 };
    assert(b.volumes@[k].name@ == b.images@[i].mounts@.last().source@);
}

// ---------------------------------------------------------------------------
// Well-formed port mappings

/// Every character is a decimal digit (the empty text too).
pub open spec fn only_digits(s: Seq<char>) -> bool {
    forall|i: int| 0 <= i < s.len() ==> is_digit(#[trigger] s[i])
}

/// `host:container`, both non-empty runs of digits.
pub open spec fn is_port_mapping(m: Seq<char>) -> bool {
    match first_index(m, ':') {
        Some(k) => k > 0 && k + 1 < m.len() && only_digits(m.take(k)) && only_digits(m.skip(k + 1)),
        None => false,
    }
}

/// The draft ports of a configure step hold digits only.
pub open spec fn step_wf(m: Option<ModalState>) -> bool {
    match m {
        Some(ModalState::ConfigureImagePorts { host_port_input, container_port_input, .. }) =>
            only_digits(host_port_input@) && only_digits(container_port_input@),
        _ => true,
    }
}

/// Every service has a well-formed port mapping, and so will the one being configured.
pub open spec fn app_wf(a: App) -> bool {
    &&& forall|i: int| 0 <= i < a.images@.len() ==> is_port_mapping(#[trigger] a.images@[i].port_mapping@)
    &&& step_wf(a.modal)
}

proof fn lemma_trim_no_space(s: Seq<char>)
    requires
        forall|i: int| 0 <= i < s.len() ==> !crate::text::is_space(#[trigger] s[i]),
    ensures
        trim(s) == s,
{
    assert(crate::text::trim_start(s) == s);
    assert(crate::text::trim_end(s) == s);
}

proof fn lemma_first_index_at(s: Seq<char>, c: char, k: int)
    requires
        0 <= k < s.len(),
        s[k] == c,
        forall|j: int| 0 <= j < k ==> s[j] != c,
    ensures
        first_index(s, c) == Some(k),
{
    assert(s.contains(c));
    let w = choose|i: int| 0 <= i < s.len() && s[i] == c && forall|j: int| 0 <= j < i ==> s[j] != c;
    if w < k {
        assert(s[w] != c);
    } else if w > k {
        assert(s[k] != c);
    }
}

/// Joining two runs of digits with a colon and splitting again gives them back.
proof fn lemma_split_joined(x: Seq<char>, y: Seq<char>)
    requires
        only_digits(x),
        only_digits(y),
    ensures
        split_mapping(x + ":"@ + y) == (x, y),
        x.len() > 0 && y.len() > 0 ==> is_port_mapping(x + ":"@ + y),
{
    reveal_strlit(":");
    let m = x + ":"@ + y;
    assert(m.len() == x.len() + 1 + y.len());
    assert forall|i: int| 0 <= i < m.len() implies !crate::text::is_space(#[trigger] m[i]) by {
        if i < x.len() {
            assert(m[i] == x[i]);
        } else if i > x.len() {
            assert(m[i] == y[i - x.len() - 1]);
        }
    }
    lemma_trim_no_space(m);
    assert forall|j: int| 0 <= j < x.len() implies m[j] != ':' by {
        assert(m[j] == x[j]);
    }
    lemma_first_index_at(m, ':', x.len() as int);
    assert(m.take(x.len() as int) == x);
    assert(m.skip(x.len() as int + 1) == y);
    assert forall|i: int| 0 <= i < x.len() implies !crate::text::is_space(#[trigger] x[i]) by {
        assert(is_digit(x[i]));
    }
    assert forall|i: int| 0 <= i < y.len() implies !crate::text::is_space(#[trigger] y[i]) by {
        assert(is_digit(y[i]));
    }
    lemma_trim_no_space(x);
    lemma_trim_no_space(y);
}

proof fn lemma_first_index_exists(s: Seq<char>, c: char, n: int)
    requires
        0 <= n <= s.len(),
        s.contains(c),
        forall|j: int| 0 <= j < n ==> s[j] != c,
    ensures
        exists|i: int| 0 <= i < s.len() && s[i] == c && forall|j: int| 0 <= j < i ==> s[j] != c,
    decreases s.len() - n,
{
    let w = choose|w: int| 0 <= w < s.len() && s[w] == c;
    if w < n {
        assert(s[w] != c);
    }
    if s[n] != c {
        lemma_first_index_exists(s, c, n + 1);
    }
}

/// A well-formed mapping splits into its two runs of digits.
proof fn lemma_split_wf(m: Seq<char>)
    requires
        is_port_mapping(m),
    ensures
        only_digits(split_mapping(m).0),
        only_digits(split_mapping(m).1),
        split_mapping(m).0.len() > 0,
        split_mapping(m).1.len() > 0,
{
    let k = first_index(m, ':')->0;
    let x = m.take(k);
    let y = m.skip(k + 1);
    assert(m[k] == ':') by {
        assert(m.contains(':'));
        lemma_first_index_exists(m, ':', 0);
    }
    assert(m == x + ":"@ + y) by {
        reveal_strlit(":");
        assert(m =~= x + ":"@ + y);
    }
    lemma_split_joined(x, y);
}

proof fn lemma_decimal_digits(n: nat)
    ensures
        only_digits(decimal(n)),
        decimal(n).len() > 0,
    decreases n,
{
    if n >= 10 {
        lemma_decimal_digits(n / 10);
        let d = decimal(n / 10);
        assert forall|i: int| 0 <= i < decimal(n).len() implies is_digit(#[trigger] decimal(n)[i]) by {
            if i < d.len() {
                assert(decimal(n)[i] == d[i]);
            }
        }
    }
}

proof fn lemma_trim_digits(s: Seq<char>)
    requires
        only_digits(s),
    ensures
        trim(s) == s,
{
    assert forall|i: int| 0 <= i < s.len() implies !crate::text::is_space(#[trigger] s[i]) by {
        assert(is_digit(s[i]));
    }
    lemma_trim_no_space(s);
}

proof fn lemma_typed_digits(t: Seq<char>, typed: bool, c: char)
    requires
        only_digits(t),
        is_digit(c),
    ensures
        only_digits(typed_into(t, typed, c)),
        only_digits(backspaced(t)),
{
    if typed {
        assert forall|i: int| 0 <= i < t.push(c).len() implies is_digit(#[trigger] t.push(c)[i]) by {
            if i < t.len() {
                assert(t.push(c)[i] == t[i]);
            }
        }
    }
    if t.len() > 0 {
        assert forall|i: int| 0 <= i < t.drop_last().len() implies is_digit(#[trigger] t.drop_last()[i]) by {
            assert(t.drop_last()[i] == t[i]);
        }
    }
}

proof fn lemma_backspaced_digits(t: Seq<char>)
    requires
        only_digits(t),
    ensures
        only_digits(backspaced(t)),
{
    lemma_typed_digits(t, true, '0');
}

/// The fallback of the configure step splits into two runs of digits.
proof fn lemma_fallback_wf(a: App, existing: Option<usize>)
    requires
        app_wf(a),
    ensures
        only_digits(split_mapping(fallback_mapping(a, existing)).0),
        only_digits(split_mapping(fallback_mapping(a, existing)).1),
        split_mapping(fallback_mapping(a, existing)).0.len() > 0,
        split_mapping(fallback_mapping(a, existing)).1.len() > 0,
{
    let valid = existing is Some && (existing->0 as int) < a.images@.len();
    if valid {
        lemma_split_wf(a.images@[existing->0 as int].port_mapping@);
    } else {
        reveal_strlit(":80");
        reveal_strlit(":");
        reveal_strlit("80");
        lemma_decimal_digits(8000 + a.images@.len());
        assert(default_host_port(a.images@.len()) + ":80"@ == default_host_port(a.images@.len()) + ":"@ + "80"@);
        assert(only_digits("80"@));
        lemma_split_joined(default_host_port(a.images@.len()), "80"@);
    }
}

proof fn lemma_committed_wf(a: App, existing: Option<usize>, host: Seq<char>, container: Seq<char>)
    requires
        app_wf(a),
        only_digits(host),
        only_digits(container),
    ensures
        is_port_mapping(committed_mapping(a, existing, host, container)),
{
    lemma_fallback_wf(a, existing);
    lemma_trim_digits(host);
    lemma_trim_digits(container);
    let f = split_mapping(fallback_mapping(a, existing));
    let x = if trim(host).len() > 0 { trim(host) } else { f.0 };
    let y = if trim(container).len() > 0 { trim(container) } else { f.1 };
    lemma_split_joined(x, y);
}

proof fn lemma_images_update_wf(a: App, b: App, i: int)
    requires
        app_wf(a),
        0 <= i < a.images@.len(),
        b.images@ == a.images@.update(i, b.images@[i]),
        b.images@[i].port_mapping == a.images@[i].port_mapping,
    ensures
        forall|j: int| 0 <= j < b.images@.len() ==> is_port_mapping(#[trigger] b.images@[j].port_mapping@),
{
    assert forall|j: int| 0 <= j < b.images@.len() implies is_port_mapping(#[trigger] b.images@[j].port_mapping@) by {
        if j != i {
            assert(b.images@[j] == a.images@[j]);
        }
    }
}

proof fn lemma_configure_wf(
    a: App,
    b: App,
    key: Key,
    r: Effect,
    existing: Option<usize>,
    namespace: String,
    repo: String,
    tag: String,
    host: String,
    container: String,
    name: String,
    active: ConfigureField,
    ht: bool,
    ct: bool,
    st: bool,
)
    requires
        app_wf(a),
        only_digits(host@),
        only_digits(container@),
        configure_step(a, b, key, r, existing, namespace, repo, tag, host, container, name, active, ht, ct, st),
    ensures
        app_wf(b),
{
    if key == Key::Enter {
        lemma_committed_wf(a, existing, host@, container@);
        match existing {
            Some(i) => {
                if (i as int) < a.images@.len() {
                    assert forall|j: int| 0 <= j < b.images@.len() implies is_port_mapping(#[trigger] b.images@[j].port_mapping@) by {
                        if j != i {
                            assert(b.images@[j] == a.images@[j]);
                        }
                    }
                }
            },
            None => {
                assert forall|j: int| 0 <= j < b.images@.len() implies is_port_mapping(#[trigger] b.images@[j].port_mapping@) by {
                    if j < a.images@.len() {
                        assert(b.images@[j] == b.images@.drop_last()[j]);
                    }
                }
            },
        }
    } else {
        match key {
            Key::Char(c) => {
                if is_digit(c) {
                    lemma_typed_digits(host@, ht, c);
                    lemma_typed_digits(container@, ct, c);
                }
            },
            Key::Backspace => {
                lemma_backspaced_digits(host@);
                lemma_backspaced_digits(container@);
            },
            _ => {},
        }
    }
}

proof fn lemma_delete_wf(a: App, b: App, key: Key, r: Effect, index: usize)
    requires
        app_wf(a),
        confirm_delete_step(a, b, key, r, index),
    ensures
        app_wf(b),
{
    if is_confirm(key) && (index as int) < a.images@.len() {
        assert forall|j: int| 0 <= j < b.images@.len() implies is_port_mapping(#[trigger] b.images@[j].port_mapping@) by {
            if j < index {
                assert(b.images@[j] == a.images@[j]);
            } else {
                assert(b.images@[j] == a.images@[j + 1]);
            }
        }
    }
}

/// `b` has the services of `a`, or one of them with other mounts or variables.
pub open spec fn images_kept_or_touched(a: App, b: App) -> bool {
    b.images == a.images || exists|i: int|
        0 <= i < a.images@.len() && b.images@ == a.images@.update(i, #[trigger] b.images@[i])
            && b.images@[i].port_mapping == a.images@[i].port_mapping
}

proof fn lemma_touched_wf(a: App, b: App)
    requires
        app_wf(a),
        images_kept_or_touched(a, b),
        step_wf(b.modal),
    ensures
        app_wf(b),
{
    if b.images != a.images {
        let i = choose|i: int|
            0 <= i < a.images@.len() && b.images@ == a.images@.update(i, #[trigger] b.images@[i])
                && b.images@[i].port_mapping == a.images@[i].port_mapping;
        lemma_images_update_wf(a, b, i);
    }
}

/// Every key inside a step keeps port mappings well formed.
pub proof fn lemma_modal_step_wf(a: App, b: App, key: Key, r: Effect)
    requires
        app_wf(a),
        modal_step(a, b, key, r),
    ensures
        app_wf(b),
{
    if key == Key::Esc {
        return;
    }
    match a.modal {
        Some(ModalState::ConfigureImagePorts {
            existing_index,
            namespace,
            repo,
            tag,
            host_port_input,
            container_port_input,
            service_name_input,
            active_field,
            host_port_typed,
            container_port_typed,
            service_name_typed,
        }) => {
            lemma_configure_wf(a, b, key, r, existing_index, namespace, repo, tag, host_port_input, container_port_input, service_name_input, active_field, host_port_typed, container_port_typed, service_name_typed);
        },
        Some(ModalState::ConfirmDeleteImage { index }) => {
            lemma_delete_wf(a, b, key, r, index);
        },
        Some(ModalState::MountExistingVolume { image_index, .. }) => {
            assert(images_kept_or_touched(a, b));
            lemma_touched_wf(a, b);
        },
        Some(ModalState::MountNewVolume { image_index, .. }) => {
            assert(images_kept_or_touched(a, b));
            lemma_touched_wf(a, b);
        },
        Some(ModalState::MountLocalPath { image_index, .. }) => {
            assert(images_kept_or_touched(a, b));
            lemma_touched_wf(a, b);
        },
        Some(ModalState::RemoveImageMount { image_index, .. }) => {
            assert(images_kept_or_touched(a, b));
            lemma_touched_wf(a, b);
        },
        Some(ModalState::RemoveImageEnv { image_index, .. }) => {
            assert(images_kept_or_touched(a, b));
            lemma_touched_wf(a, b);
        },
        Some(ModalState::AddImageEnv { image_index, .. }) => {
            assert(images_kept_or_touched(a, b));
            lemma_touched_wf(a, b);
        },
        _ => {},
    }
}

/// Every key outside a step keeps port mappings well formed.
pub proof fn lemma_navigation_step_wf(a: App, b: App, key: Key, r: Effect)
    requires
        app_wf(a),
        a.modal is None,
        navigation_step(a, b, key, r),
    ensures
        app_wf(b),
{
    if key is Char && a.images@.len() > 0 {
        lemma_split_wf(a.images@[selected_image(a) as int].port_mapping@);
    }
}

/// Choosing a tag opens a configure step whose draft ports are digits.
pub proof fn lemma_tag_choice_wf(a: App, b: App, ports: Result<Vec<u16>, String>)
    requires
        app_wf(a),
        tag_choice_done(a, b, ports),
    ensures
        app_wf(b),
{
    lemma_decimal_digits(8000 + a.images@.len());
    let second = match preferred_port(found_ports(ports)) {
        Some(c) => decimal(c as nat),
        None => "80"@,
    };
    match preferred_port(found_ports(ports)) {
        Some(c) => lemma_decimal_digits(c as nat),
        None => {
            reveal_strlit("80");
        },
    }
    lemma_split_joined(default_host_port(a.images@.len()), second);
}

} // verus!
