//! The project being authored: its services and named volumes, the activity log, and the
//! manifest text they make.
use vstd::prelude::*;
use vstd::string::*;
use crate::ranking::views;
use crate::tab::Tab;
use crate::text::{contains_char, decimal, push_decimal, push_str, str_eq};
use crate::wizard::ModalState;

verus! {

#[derive(Debug, Clone)]
pub struct VolumeMount {
    pub source: String,
    pub target: String,
}

#[derive(Debug, Clone)]
pub struct EnvVar {
    pub key: String,
    pub value: String,
}

#[derive(Debug, Clone)]
pub struct VolumeEntry {
    pub name: String,
}

/// One configured service.
#[derive(Debug, Clone)]
pub struct ImageEntry {
    pub service_name: String,
    pub namespace: String,
    pub repo: String,
    pub tag: String,
    pub port_mapping: String,
    pub mounts: Vec<VolumeMount>,
    pub env_vars: Vec<EnvVar>,
}

#[derive(Debug, Clone, Copy, PartialEq, Eq, Structural)]
pub enum FocusArea {
    Sidebar,
    Main,
}

impl FocusArea {
    pub fn next(self) -> (r: Self)
        ensures
            r == (match self {
                FocusArea::Sidebar => FocusArea::Main,
                FocusArea::Main => FocusArea::Sidebar,
            }),
    {
        match self {
            FocusArea::Sidebar => FocusArea::Main,
            FocusArea::Main => FocusArea::Sidebar,
        }
    }
}

/// The whole authoring state: the project model, navigation, the log and the wizard step.
pub struct App {
    pub focus: FocusArea,
    pub active_tab: Tab,
    pub project_name: String,
    pub command_log: Vec<String>,
    pub images: Vec<ImageEntry>,
    pub images_selected: usize,
    pub volumes: Vec<VolumeEntry>,
    pub volumes_selected: usize,
    pub modal: Option<ModalState>,
}

/// How many lines the activity log keeps.
pub const LOG_CAPACITY: usize = 5;

/// The log after appending `line`: the oldest line goes once there are more than five.
pub open spec fn log_after(log: Seq<Seq<char>>, line: Seq<char>) -> Seq<Seq<char>> {
    if log.len() + 1 > LOG_CAPACITY {
        log.push(line).drop_first()
    } else {
        log.push(line)
    }
}

/// The log after appending each of `lines` in turn.
pub open spec fn log_after_all(log: Seq<Seq<char>>, lines: Seq<Seq<char>>) -> Seq<Seq<char>>
    decreases lines.len(),
{
    if lines.len() == 0 {
        log
    } else {
        log_after(log_after_all(log, lines.drop_last()), lines.last())
    }
}

pub open spec fn log_of(app: App) -> Seq<Seq<char>> {
    views(app.command_log@)
}

/// `b` is `a` with only the log changed.
pub open spec fn same_but_log(a: App, b: App) -> bool {
    &&& a.focus == b.focus
    &&& a.active_tab == b.active_tab
    &&& a.project_name == b.project_name
    &&& a.images == b.images
    &&& a.images_selected == b.images_selected
    &&& a.volumes == b.volumes
    &&& a.volumes_selected == b.volumes_selected
    &&& a.modal == b.modal
}

/// `image: ...` of a service: the repository alone for official images.
pub open spec fn image_ref(e: ImageEntry) -> Seq<char> {
    if e.namespace@ == "library"@ {
        e.repo@ + ":"@ + e.tag@
    } else {
        e.namespace@ + "/"@ + e.repo@ + ":"@ + e.tag@
    }
}

pub open spec fn mount_line(m: VolumeMount) -> Seq<char> {
    "      - \""@ + m.source@ + ":"@ + m.target@ + "\"\n"@
}

pub open spec fn env_line(v: EnvVar) -> Seq<char> {
    "      - "@ + v.key@ + "="@ + v.value@ + "\n"@
}

pub open spec fn mount_lines(ms: Seq<VolumeMount>) -> Seq<char>
    decreases ms.len(),
{
    if ms.len() == 0 {
        Seq::empty()
    } else {
        mount_lines(ms.drop_last()) + mount_line(ms.last())
    }
}

pub open spec fn env_lines(vs: Seq<EnvVar>) -> Seq<char>
    decreases vs.len(),
{
    if vs.len() == 0 {
        Seq::empty()
    } else {
        env_lines(vs.drop_last()) + env_line(vs.last())
    }
}

pub open spec fn service_block(e: ImageEntry) -> Seq<char> {
    "  "@ + e.service_name@ + ":\n    image: "@ + image_ref(e) + "\n    ports:\n      - \""@
        + e.port_mapping@ + "\"\n"@ + (if e.mounts@.len() == 0 {
        Seq::empty()
    } else {
        "    volumes:\n"@ + mount_lines(e.mounts@)
    }) + (if e.env_vars@.len() == 0 {
        Seq::empty()
    } else {
        "    environment:\n"@ + env_lines(e.env_vars@)
    })
}

pub open spec fn service_blocks(es: Seq<ImageEntry>) -> Seq<char>
    decreases es.len(),
{
    if es.len() == 0 {
        Seq::empty()
    } else {
        service_blocks(es.drop_last()) + service_block(es.last())
    }
}

pub open spec fn volume_lines(vs: Seq<VolumeEntry>) -> Seq<char>
    decreases vs.len(),
{
    if vs.len() == 0 {
        Seq::empty()
    } else {
        volume_lines(vs.drop_last()) + "  "@ + vs.last().name@ + ":\n"@
    }
}

/// The manifest text for these services and volumes.
pub open spec fn compose_text(images: Seq<ImageEntry>, volumes: Seq<VolumeEntry>) -> Seq<char> {
    if images.len() == 0 {
        "services:\n  # No services yet\n  # Press n in Images tab to add one\n"@
    } else {
        "services:\n"@ + service_blocks(images) + if volumes.len() == 0 {
            Seq::empty()
        } else {
            "\nvolumes:\n"@ + volume_lines(volumes)
        }
    }
}

/// The default host port: 8000 plus the number of services.
pub open spec fn default_host_port(n: nat) -> Seq<char> {
    decimal(8000 + n)
}

pub open spec fn has_mapping(e: ImageEntry) -> bool {
    e.port_mapping@.contains(':')
}

pub open spec fn count_mapped(es: Seq<ImageEntry>) -> nat
    decreases es.len(),
{
    if es.len() == 0 {
        0
    } else {
        count_mapped(es.drop_last()) + if has_mapping(es.last()) {
            1nat
        } else {
            0nat
        }
    }
}

fn push_mount_lines(out: &mut String, ms: &Vec<VolumeMount>)
    ensures
        final(out)@ == old(out)@ + mount_lines(ms@),
{
    let ghost start = out@;
    let mut i: usize = 0;
    while i < ms.len()
        invariant
            i <= ms.len(),
            out@ == start + mount_lines(ms@.take(i as int)),
        decreases ms.len() - i,
    {
        push_str(out, "      - \"");
        push_str(out, ms[i].source.as_str());
        push_str(out, ":");
        push_str(out, ms[i].target.as_str());
        push_str(out, "\"\n");
        proof {
            assert(ms@.take(i + 1).drop_last() == ms@.take(i as int));
        }
        i = i + 1;
    }
    assert(ms@.take(ms.len() as int) == ms@);
}

fn push_env_lines(out: &mut String, vs: &Vec<EnvVar>)
    ensures
        final(out)@ == old(out)@ + env_lines(vs@),
{
    let ghost start = out@;
    let mut i: usize = 0;
    while i < vs.len()
        invariant
            i <= vs.len(),
            out@ == start + env_lines(vs@.take(i as int)),
        decreases vs.len() - i,
    {
        push_str(out, "      - ");
        push_str(out, vs[i].key.as_str());
        push_str(out, "=");
        push_str(out, vs[i].value.as_str());
        push_str(out, "\n");
        proof {
            assert(vs@.take(i + 1).drop_last() == vs@.take(i as int));
        }
        i = i + 1;
    }
    assert(vs@.take(vs.len() as int) == vs@);
}

fn push_service_block(out: &mut String, e: &ImageEntry)
    ensures
        final(out)@ == old(out)@ + service_block(*e),
{
    let ghost start = out@;
    push_str(out, "  ");
    push_str(out, e.service_name.as_str());
    push_str(out, ":\n    image: ");
    if str_eq(e.namespace.as_str(), "library") {
        push_str(out, e.repo.as_str());
        push_str(out, ":");
        push_str(out, e.tag.as_str());
    } else {
        push_str(out, e.namespace.as_str());
        push_str(out, "/");
        push_str(out, e.repo.as_str());
        push_str(out, ":");
        push_str(out, e.tag.as_str());
    }
    push_str(out, "\n    ports:\n      - \"");
    push_str(out, e.port_mapping.as_str());
    push_str(out, "\"\n");
    let ghost head = out@;
    assert(head == start + ("  "@ + e.service_name@ + ":\n    image: "@ + image_ref(*e)
        + "\n    ports:\n      - \""@ + e.port_mapping@ + "\"\n"@));
    if e.mounts.len() > 0 {
        push_str(out, "    volumes:\n");
        push_mount_lines(out, &e.mounts);
    }
    if e.env_vars.len() > 0 {
        push_str(out, "    environment:\n");
        push_env_lines(out, &e.env_vars);
    }
    assert(out@ == start + service_block(*e));
}

impl App {
    /// A fresh session for the project called `project_name`.
    pub fn new(project_name: String) -> (r: App)
        ensures
            r.focus == FocusArea::Sidebar,
            r.active_tab == Tab::Project,
            r.project_name == project_name,
            log_of(r) == seq!["ready"@],
            r.images@.len() == 0,
            r.images_selected == 0,
            r.volumes@.len() == 0,
            r.volumes_selected == 0,
            r.modal is None,
            crate::wizard::app_wf(r),
    {
        let mut command_log: Vec<String> = Vec::new();
        command_log.push(String::from_str("ready"));
        assert(views(command_log@) == seq!["ready"@]);
        App {
            focus: FocusArea::Sidebar,
            active_tab: Tab::Project,
            project_name,
            command_log,
            images: Vec::new(),
            images_selected: 0,
            volumes: Vec::new(),
            volumes_selected: 0,
            modal: None,
        }
    }

    /// Appends a line to the activity log, which keeps the last five.
    pub fn push_log(&mut self, line: String)
        ensures
            log_of(*final(self)) == log_after(log_of(*old(self)), line@),
            same_but_log(*old(self), *final(self)),
            crate::wizard::app_wf(*old(self)) ==> crate::wizard::app_wf(*final(self)),
    {
        let ghost before = views(self.command_log@);
        self.command_log.push(line);
        assert(views(self.command_log@) == before.push(line@));
        if self.command_log.len() > LOG_CAPACITY {
            self.command_log.remove(0);
            assert(views(self.command_log@) == before.push(line@).drop_first());
        }
    }

    /// The default mapping for the next service: host port `8000 + n`, container port 80.
    pub fn next_port_mapping(&self) -> (r: String)
        ensures
            r@ == default_host_port(self.images@.len()) + ":80"@,
    {
        let mut r = String::new();
        push_decimal(&mut r, 8000 + self.images.len() as u128);
        push_str(&mut r, ":80");
        r
    }

    /// How many services have a port mapping.
    pub fn total_exposed_ports(&self) -> (r: usize)
        ensures
            r == count_mapped(self.images@),
    {
        let mut count: usize = 0;
        let mut i: usize = 0;
        while i < self.images.len()
            invariant
                i <= self.images.len(),
                count == count_mapped(self.images@.take(i as int)),
                count <= i,
            decreases self.images.len() - i,
        {
            let mapping = crate::text::chars_of(self.images[i].port_mapping.as_str());
            proof {
                assert(self.images@.take(i + 1).drop_last() == self.images@.take(i as int));
            }
            if contains_char(&mapping, ':') {
                count = count + 1;
            }
            i = i + 1;
        }
        assert(self.images@.take(self.images.len() as int) == self.images@);
        count
    }

    /// The manifest text for the current project (see `compose_text`).
    pub fn compose_yaml(&self) -> (r: String)
        ensures
            r@ == compose_text(self.images@, self.volumes@),
    {
        let mut output = String::from_str("services:\n");
        if self.images.len() == 0 {
            push_str(&mut output, "  # No services yet\n");
            push_str(&mut output, "  # Press n in Images tab to add one\n");
            proof {
                reveal_strlit("services:\n");
                reveal_strlit("  # No services yet\n");
                reveal_strlit("  # Press n in Images tab to add one\n");
                reveal_strlit("services:\n  # No services yet\n  # Press n in Images tab to add one\n");
                assert(output@ == "services:\n  # No services yet\n  # Press n in Images tab to add one\n"@);
            }
            return output;
        }
        let ghost start = output@;
        let mut i: usize = 0;
        while i < self.images.len()
            invariant
                i <= self.images.len(),
                output@ == start + service_blocks(self.images@.take(i as int)),
            decreases self.images.len() - i,
        {
            push_service_block(&mut output, &self.images[i]);
            proof {
                assert(self.images@.take(i + 1).drop_last() == self.images@.take(i as int));
            }
            i = i + 1;
        }
        assert(self.images@.take(self.images.len() as int) == self.images@);
        if self.volumes.len() > 0 {
            push_str(&mut output, "\nvolumes:\n");
            let ghost vstart = output@;
            let mut j: usize = 0;
            while j < self.volumes.len()
                invariant
                    j <= self.volumes.len(),
                    output@ == vstart + volume_lines(self.volumes@.take(j as int)),
                decreases self.volumes.len() - j,
            {
                push_str(&mut output, "  ");
                push_str(&mut output, self.volumes[j].name.as_str());
                push_str(&mut output, ":\n");
                proof {
                    assert(self.volumes@.take(j + 1).drop_last() == self.volumes@.take(j as int));
                }
                j = j + 1;
            }
            assert(self.volumes@.take(self.volumes.len() as int) == self.volumes@);
        }
        output
    }
}

} // verus!
