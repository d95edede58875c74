//! The interactive `init` wizard, as a machine that asks one question at a
//! time: the terminal asks the question shown and hands back the answer; the
//! wizard checks the answer and, once every question is answered, gives the
//! configuration to write.

use vstd::prelude::*;
use vstd::string::*;

use crate::config::{BuildFileConfig, FileConfig, LaunchFileConfig, LoadedConfig, ServeFileConfig};
use crate::doctor::{find_on_path, found_for, opt_text, qemu_lookup_name};
use crate::net::{dotted, Ipv4Addr};
use crate::text::{decimal, decimal_string, parse_unsigned, texts, trim, trimmed, unsigned_value};

verus! {

/// What `init` is asked: where to write, whether to overwrite without asking,
/// and the configuration already in effect (its values are the suggestions).
#[derive(Clone, Debug)]
pub struct WizardConfig {
    pub output: String,
    pub force: bool,
    pub loaded_config: LoadedConfig,
}

/// An existing output file is only overwritten after the user agrees, unless forced.
pub fn must_confirm_overwrite(output_exists: bool, force: bool) -> (r: bool)
    ensures
        r == (output_exists && !force),
{
    output_exists && !force
}

/// Suggestions found on the host for values the configuration lacks.
#[derive(Clone, Debug)]
pub struct HostGuesses {
    pub busybox: Option<String>,
    pub kernel: Option<String>,
    pub qemu_bin: Option<String>,
}

/// The suggestions given what the search path answered for `busybox` and
/// for the QEMU binary: an answer is only used for a value the configuration
/// lacks; `kernel_guess` is kept as given.
pub fn host_guesses_from(
    loaded: &FileConfig,
    kernel_guess: Option<String>,
    busybox_found: Option<String>,
    qemu_found: Option<String>,
) -> (g: HostGuesses)
    ensures
        opt_text(g.kernel) == opt_text(kernel_guess),
        opt_text(g.busybox) == if loaded.build.busybox is Some {
            None
        } else {
            opt_text(busybox_found)
        },
        opt_text(g.qemu_bin) == if loaded.launch.qemu_bin is Some {
            None
        } else {
            opt_text(qemu_found)
        },
{
    let busybox = match &loaded.build.busybox {
        Some(_) => None,
        None => busybox_found,
    };
    let qemu_bin = match &loaded.launch.qemu_bin {
        Some(_) => None,
        None => qemu_found,
    };
    HostGuesses { busybox, kernel: kernel_guess, qemu_bin }
}

/// Looks `busybox` and the QEMU binary (`qemu_lookup_name`, which is
/// `qemu-system-x86_64` here) up on the search path, each only when the
/// configuration does not name it already, and makes the suggestions with
/// `host_guesses_from`.
pub fn host_guesses(loaded: &FileConfig, kernel_guess: Option<String>) -> (g: HostGuesses)
    ensures
        exists|busybox_found: Option<Seq<char>>, qemu_found: Option<Seq<char>>|
            {
                &&& found_for("busybox"@, busybox_found)
                &&& found_for("qemu-system-x86_64"@, qemu_found)
                &&& opt_text(g.kernel) == opt_text(kernel_guess)
                &&& opt_text(g.busybox) == if loaded.build.busybox is Some {
                    None
                } else {
                    busybox_found
                }
                &&& opt_text(g.qemu_bin) == if loaded.launch.qemu_bin is Some {
                    None
                } else {
                    qemu_found
                }
            },
{
    let busybox_found = match &loaded.build.busybox {
        Some(_) => None,
        None => find_on_path("busybox"),
    };
    let qemu_found = match &loaded.launch.qemu_bin {
        Some(_) => None,
        None => {
            let name = qemu_lookup_name(loaded);
            find_on_path(name.as_str())
        },
    };
    let ghost b = opt_text(busybox_found);
    let ghost q = opt_text(qemu_found);
    let ghost k = opt_text(kernel_guess);
    let g = host_guesses_from(loaded, kernel_guess, busybox_found, qemu_found);
    assert({
        &&& found_for("busybox"@, b)
        &&& found_for("qemu-system-x86_64"@, q)
        &&& opt_text(g.kernel) == k
        &&& opt_text(g.busybox) == if loaded.build.busybox is Some {
            None
        } else {
            b
        }
        &&& opt_text(g.qemu_bin) == if loaded.launch.qemu_bin is Some {
            None
        } else {
            q
        }
    });
    g
}

/// The kernel image of the running kernel, from what `uname -r` printed:
/// `/boot/vmlinuz-` and the release with surrounding white space trimmed.
pub fn kernel_image_path(release: &str) -> (p: String)
    ensures
        p@ == "/boot/vmlinuz-"@ + trimmed(release@),
{
    let mut p = String::from_str("/boot/vmlinuz-");
    p.append(trim(release));
    p
}

/// One question.
#[derive(Clone, Debug)]
pub enum Prompt {
    /// Pick one of `items`; `default` is preselected.
    Select { text: String, items: Vec<String>, default: usize },
    /// Type a value; Enter keeps `default`.
    Input { text: String, default: String },
    /// Type a socket address (`host:port`); Enter keeps `default`.
    InputSocketAddr { text: String, default: String },
    /// Yes or no.
    Confirm { text: String, default: bool },
}

/// The user's answer to the current question.
#[derive(Clone, Debug)]
pub enum Answer {
    Selected(usize),
    Text(String),
    Confirmed(bool),
    /// Typed text and, if it reads as a socket address, that address written
    /// out the standard way.
    SocketAddr { text: String, canonical: Option<String> },
}

/// An accepted answer.
#[derive(Clone, Debug)]
pub enum Value {
    Text(String),
    Address(Ipv4Addr),
    Number(u64),
    Flag(bool),
}

/// Why an answer was refused.
#[derive(Clone, Debug)]
pub enum WizardError {
    /// The answer is not of the kind the current question asks for, or every
    /// question was answered already.
    UnexpectedAnswer,
    InvalidSocketAddr { prompt: String, value: String },
    InvalidIpv4 { prompt: String, value: String },
    InvalidInteger { prompt: String, value: String },
}

/// An answer as text and numbers.
pub enum AnswerView {
    Selected(nat),
    Text(Seq<char>),
    Confirmed(bool),
    SocketAddr { text: Seq<char>, canonical: Option<Seq<char>> },
}

/// An accepted answer as text and numbers.
pub enum ValueView {
    Text(Seq<char>),
    Address(Ipv4Addr),
    Number(nat),
    Flag(bool),
}

/// A question as text and numbers.
pub enum PromptView {
    Select { text: Seq<char>, items: Seq<Seq<char>>, default: nat },
    Input { text: Seq<char>, default: Seq<char> },
    InputSocketAddr { text: Seq<char>, default: Seq<char> },
    Confirm { text: Seq<char>, default: bool },
}

/// The answer as text and numbers.
pub open spec fn answer_view(a: Answer) -> AnswerView {
    match a {
        Answer::Selected(i) => AnswerView::Selected(i as nat),
        Answer::Text(t) => AnswerView::Text(t@),
        Answer::Confirmed(b) => AnswerView::Confirmed(b),
        Answer::SocketAddr { text, canonical } => AnswerView::SocketAddr {
            text: text@,
            canonical: opt_text(canonical),
        },
    }
}

/// The accepted answer as text and numbers.
pub open spec fn value_view(v: Value) -> ValueView {
    match v {
        Value::Text(t) => ValueView::Text(t@),
        Value::Address(ip) => ValueView::Address(ip),
        Value::Number(n) => ValueView::Number(n as nat),
        Value::Flag(b) => ValueView::Flag(b),
    }
}

/// The question as text and numbers.
pub open spec fn prompt_view(p: Prompt) -> PromptView {
    match p {
        Prompt::Select { text, items, default } => PromptView::Select {
            text: text@,
            items: texts(items@),
            default: default as nat,
        },
        Prompt::Input { text, default } => PromptView::Input { text: text@, default: default@ },
        Prompt::InputSocketAddr { text, default } => PromptView::InputSocketAddr {
            text: text@,
            default: default@,
        },
        Prompt::Confirm { text, default } => PromptView::Confirm { text: text@, default },
    }
}

/// How many questions the wizard asks.
pub const QUESTIONS: usize = 19;

/// The question asked at each step.
pub open spec fn prompt_label(k: nat) -> Seq<char> {
    if k == 0 {
        "Select backend"@
    } else if k == 1 {
        "Host API listen address"@
    } else if k == 2 {
        "Linux bridge name"@
    } else if k == 3 {
        "Guest subnet base"@
    } else if k == 4 {
        "Guest subnet prefix length"@
    } else if k == 5 {
        "Host API URL guests will call"@
    } else if k == 6 {
        "BusyBox binary path"@
    } else if k == 7 {
        "Initramfs output path"@
    } else if k == 8 {
        "Guest init script path"@
    } else if k == 9 {
        "Guest kernel path"@
    } else if k == 10 {
        "QEMU binary"@
    } else if k == 11 {
        "QEMU machine type"@
    } else if k == 12 {
        "Acceleration mode"@
    } else if k == 13 {
        "TAP name prefix"@
    } else if k == 14 {
        "Default guest count"@
    } else if k == 15 {
        "RAM per guest (MiB)"@
    } else if k == 16 {
        "Runtime work directory"@
    } else if k == 17 {
        "Skip TAP creation in launch?"@
    } else {
        "Keep TAP devices after guests exit?"@
    }
}

/// The question asked at step `k`.
fn label(k: usize) -> (s: &'static str)
    requires
        k < QUESTIONS,
    ensures
        s@ == prompt_label(k as nat),
{
    if k == 0 {
        "Select backend"
    } else if k == 1 {
        "Host API listen address"
    } else if k == 2 {
        "Linux bridge name"
    } else if k == 3 {
        "Guest subnet base"
    } else if k == 4 {
        "Guest subnet prefix length"
    } else if k == 5 {
        "Host API URL guests will call"
    } else if k == 6 {
        "BusyBox binary path"
    } else if k == 7 {
        "Initramfs output path"
    } else if k == 8 {
        "Guest init script path"
    } else if k == 9 {
        "Guest kernel path"
    } else if k == 10 {
        "QEMU binary"
    } else if k == 11 {
        "QEMU machine type"
    } else if k == 12 {
        "Acceleration mode"
    } else if k == 13 {
        "TAP name prefix"
    } else if k == 14 {
        "Default guest count"
    } else if k == 15 {
        "RAM per guest (MiB)"
    } else if k == 16 {
        "Runtime work directory"
    } else if k == 17 {
        "Skip TAP creation in launch?"
    } else {
        "Keep TAP devices after guests exit?"
    }
}

/// `o`'s text, or `d` when it is unset.
pub open spec fn or_text(o: Option<String>, d: Seq<char>) -> Seq<char> {
    match o {
        Some(s) => s@,
        None => d,
    }
}

/// An unsigned number read from `t` if it is no larger than `max`.
pub open spec fn bounded(t: Seq<char>, max: nat) -> Option<ValueView> {
    match unsigned_value(t) {
        Some(v) => if v <= max {
            Some(ValueView::Number(v))
        } else {
            None
        },
        None => None,
    }
}

/// The accepted answer at step `k`: the backend chosen from the list, a
/// socket address in its standard writing (step 1), a yes/no for the last
/// two steps, and for the rest typed text, which must read as an IPv4
/// address (step 3) or an integer of the right size (steps 4, 14 and 15).
pub open spec fn accepted(k: nat, a: AnswerView) -> Option<ValueView> {
    match a {
        AnswerView::Selected(i) => if k == 0 {
            Some(
                ValueView::Text(
                    if i == 1 {
                        "kvm"@
                    } else {
                        "qemu"@
                    },
                ),
            )
        } else {
            None
        },
        AnswerView::Confirmed(b) => if k == 17 || k == 18 {
            Some(ValueView::Flag(b))
        } else {
            None
        },
        AnswerView::SocketAddr { text, canonical } => if k == 1 {
            match canonical {
                Some(c) => Some(ValueView::Text(c)),
                None => None,
            }
        } else {
            None
        },
        AnswerView::Text(t) => if k <= 1 || k >= 17 {
            None
        } else if k == 3 {
            if exists|ip: Ipv4Addr| t == dotted(ip) {
                Some(ValueView::Address(choose|ip: Ipv4Addr| t == dotted(ip)))
            } else {
                None
            }
        } else if k == 4 {
            bounded(t, 255)
        } else if k == 14 {
            bounded(t, usize::MAX as nat)
        } else if k == 15 {
            bounded(t, u32::MAX as nat)
        } else {
            Some(ValueView::Text(t))
        },
    }
}

/// The kind of value each step holds.
pub open spec fn value_fits(k: nat, v: ValueView) -> bool {
    if k == 3 {
        v is Address
    } else if k == 4 {
        v matches ValueView::Number(n) && n <= 255
    } else if k == 14 {
        v matches ValueView::Number(n) && n <= usize::MAX
    } else if k == 15 {
        v matches ValueView::Number(n) && n <= u32::MAX
    } else if k == 17 || k == 18 {
        v is Flag
    } else {
        v is Text
    }
}

/// The wizard: the configuration in effect, the host's suggestions, and the
/// answers accepted so far (one per question, in order).
pub struct Wizard {
    loaded: FileConfig,
    guesses: HostGuesses,
    answers: Vec<Value>,
}


/// The text of an accepted answer (empty for other kinds).
pub open spec fn text_of(v: ValueView) -> Seq<char> {
    match v {
        ValueView::Text(t) => t,
        _ => Seq::<char>::empty(),
    }
}

impl Wizard {
    pub closed spec fn loaded(self) -> FileConfig {
        self.loaded
    }

    pub closed spec fn guesses(self) -> HostGuesses {
        self.guesses
    }

    /// The answers accepted so far.
    pub closed spec fn answered(self) -> Seq<ValueView> {
        self.answers@.map_values(|v: Value| value_view(v))
    }

    /// At most one answer per question, each of the kind its question asks for.
    pub open spec fn wf(self) -> bool {
        &&& self.answered().len() <= QUESTIONS
        &&& forall|k: int|
            0 <= k < self.answered().len() ==> value_fits(k as nat, #[trigger] self.answered()[k])
    }

    /// The suggestion shown for a typed answer at step `k`: the configured
    /// value, else a host suggestion where there is one, else a built-in default.
    pub open spec fn input_default(self, k: nat) -> Seq<char> {
        let l = self.loaded().launch;
        let b = self.loaded().build;
        let g = self.guesses();
        if k == 1 {
            or_text(self.loaded().serve.listen, "192.168.100.1:8080"@)
        } else if k == 2 {
            or_text(l.bridge, "minivm0"@)
        } else if k == 3 {
            dotted(
                match l.subnet_base {
                    Some(ip) => ip,
                    None => Ipv4Addr { a: 192, b: 168, c: 100, d: 0 },
                },
            )
        } else if k == 4 {
            decimal(
                match l.prefix_len {
                    Some(p) => p as nat,
                    None => 24,
                },
            )
        } else if k == 5 {
            or_text(l.host_api, "http://"@ + text_of(self.answered()[1]) + "/incr"@)
        } else if k == 6 {
            or_text(b.busybox, or_text(g.busybox, "/usr/bin/busybox"@))
        } else if k == 7 {
            or_text(b.output, "out/initramfs.cpio"@)
        } else if k == 8 {
            or_text(b.init_script, "guest/init"@)
        } else if k == 9 {
            or_text(l.kernel, or_text(g.kernel, "/boot/vmlinuz-guest"@))
        } else if k == 10 {
            or_text(l.qemu_bin, or_text(g.qemu_bin, "qemu-system-x86_64"@))
        } else if k == 11 {
            or_text(l.machine, "microvm"@)
        } else if k == 12 {
            or_text(l.accel, "kvm"@)
        } else if k == 13 {
            or_text(l.tap_prefix, "mvm"@)
        } else if k == 14 {
            decimal(
                match l.count {
                    Some(c) => c as nat,
                    None => 3,
                },
            )
        } else if k == 15 {
            decimal(
                match l.memory_mib {
                    Some(m) => m as nat,
                    None => 128,
                },
            )
        } else {
            or_text(l.workdir, "runtime"@)
        }
    }

    /// The question at step `k`.
    pub open spec fn prompt_at(self, k: nat) -> PromptView {
        if k == 0 {
            PromptView::Select {
                text: prompt_label(0),
                items: seq![
                    "qemu: working backend for the current MVP"@,
                    "kvm: scaffold only, does not boot guests yet"@,
                ],
                default: match self.loaded().launch.backend {
                    Some(b) => if b@ == "kvm"@ {
                        1
                    } else {
                        0
                    },
                    None => 0,
                },
            }
        } else if k == 1 {
            PromptView::InputSocketAddr { text: prompt_label(1), default: self.input_default(1) }
        } else if k == 17 {
            PromptView::Confirm {
                text: prompt_label(17),
                default: match self.loaded().launch.skip_tap_setup {
                    Some(f) => f,
                    None => false,
                },
            }
        } else if k == 18 {
            PromptView::Confirm {
                text: prompt_label(18),
                default: match self.loaded().launch.keep_taps {
                    Some(f) => f,
                    None => false,
                },
            }
        } else {
            PromptView::Input { text: prompt_label(k), default: self.input_default(k) }
        }
    }

    /// A wizard that has asked nothing yet.
    pub fn new(loaded: &LoadedConfig, guesses: HostGuesses) -> (w: Wizard)
        ensures
            w.wf(),
            w.loaded() == loaded.data,
            w.guesses() == guesses,
            w.answered().len() == 0,
    {
        let w = Wizard { loaded: clone_file_config(&loaded.data), guesses, answers: Vec::new() };
        assert(w.answered() =~= Seq::<ValueView>::empty());
        w
    }
}

fn clone_text(o: &Option<String>) -> (r: Option<String>)
    ensures
        r == *o,
{
    match o {
        Some(s) => Some(s.clone()),
        None => None,
    }
}

fn clone_file_config(c: &FileConfig) -> (r: FileConfig)
    ensures
        r == *c,
{
    FileConfig {
        serve: ServeFileConfig { listen: clone_text(&c.serve.listen) },
        build: BuildFileConfig {
            busybox: clone_text(&c.build.busybox),
            output: clone_text(&c.build.output),
            init_script: clone_text(&c.build.init_script),
        },
        launch: LaunchFileConfig {
            backend: clone_text(&c.launch.backend),
            count: c.launch.count,
            kernel: clone_text(&c.launch.kernel),
            initramfs: clone_text(&c.launch.initramfs),
            workdir: clone_text(&c.launch.workdir),
            host_api: clone_text(&c.launch.host_api),
            bridge: clone_text(&c.launch.bridge),
            subnet_base: c.launch.subnet_base,
            prefix_len: c.launch.prefix_len,
            memory_mib: c.launch.memory_mib,
            qemu_bin: clone_text(&c.launch.qemu_bin),
            machine: clone_text(&c.launch.machine),
            accel: clone_text(&c.launch.accel),
            tap_prefix: clone_text(&c.launch.tap_prefix),
            skip_tap_setup: c.launch.skip_tap_setup,
            keep_taps: c.launch.keep_taps,
        },
    }
}


/// The number of an accepted answer (0 for other kinds).
pub open spec fn number_of(v: ValueView) -> nat {
    match v {
        ValueView::Number(n) => n,
        _ => 0,
    }
}

/// The yes/no of an accepted answer (no for other kinds).
pub open spec fn flag_of(v: ValueView) -> bool {
    match v {
        ValueView::Flag(b) => b,
        _ => false,
    }
}

/// The address of an accepted answer (`0.0.0.0` for other kinds).
pub open spec fn address_of(v: ValueView) -> Ipv4Addr {
    match v {
        ValueView::Address(ip) => ip,
        _ => Ipv4Addr { a: 0, b: 0, c: 0, d: 0 },
    }
}

/// The configuration the answers give: every key set from its answer, except
/// that an initramfs already configured for `launch` is kept, and otherwise
/// the initramfs output path is used.
pub open spec fn config_matches(c: FileConfig, w: Wizard) -> bool {
    let a = w.answered();
    &&& opt_text(c.serve.listen) == Some(text_of(a[1]))
    &&& opt_text(c.build.busybox) == Some(text_of(a[6]))
    &&& opt_text(c.build.output) == Some(text_of(a[7]))
    &&& opt_text(c.build.init_script) == Some(text_of(a[8]))
    &&& opt_text(c.launch.backend) == Some(text_of(a[0]))
    &&& c.launch.count == Some(number_of(a[14]) as usize)
    &&& opt_text(c.launch.kernel) == Some(text_of(a[9]))
    &&& opt_text(c.launch.initramfs) == Some(or_text(w.loaded().launch.initramfs, text_of(a[7])))
    &&& opt_text(c.launch.workdir) == Some(text_of(a[16]))
    &&& opt_text(c.launch.host_api) == Some(text_of(a[5]))
    &&& opt_text(c.launch.bridge) == Some(text_of(a[2]))
    &&& c.launch.subnet_base == Some(address_of(a[3]))
    &&& c.launch.prefix_len == Some(number_of(a[4]) as u8)
    &&& c.launch.memory_mib == Some(number_of(a[15]) as u32)
    &&& opt_text(c.launch.qemu_bin) == Some(text_of(a[10]))
    &&& opt_text(c.launch.machine) == Some(text_of(a[11]))
    &&& opt_text(c.launch.accel) == Some(text_of(a[12]))
    &&& opt_text(c.launch.tap_prefix) == Some(text_of(a[13]))
    &&& c.launch.skip_tap_setup == Some(flag_of(a[17]))
    &&& c.launch.keep_taps == Some(flag_of(a[18]))
}

fn or_string(o: &Option<String>, d: &str) -> (s: String)
    ensures
        s@ == or_text(*o, d@),
{
    match o {
        Some(v) => v.clone(),
        None => String::from_str(d),
    }
}

fn or_guess(o: &Option<String>, g: &Option<String>, d: &str) -> (s: String)
    ensures
        s@ == or_text(*o, or_text(*g, d@)),
{
    match o {
        Some(v) => v.clone(),
        None => or_string(g, d),
    }
}

impl Wizard {
    fn text_value(&self, k: usize) -> (s: String)
        requires
            k < self.answered().len(),
        ensures
            s@ == text_of(self.answered()[k as int]),
    {
        assert(self.answered()[k as int] == value_view(self.answers@[k as int]));
        match &self.answers[k] {
            Value::Text(t) => t.clone(),
            _ => String::new(),
        }
    }

    fn number_value(&self, k: usize) -> (n: u64)
        requires
            k < self.answered().len(),
        ensures
            n as nat == number_of(self.answered()[k as int]),
    {
        assert(self.answered()[k as int] == value_view(self.answers@[k as int]));
        match &self.answers[k] {
            Value::Number(n) => *n,
            _ => 0,
        }
    }

    fn flag_value(&self, k: usize) -> (b: bool)
        requires
            k < self.answered().len(),
        ensures
            b == flag_of(self.answered()[k as int]),
    {
        assert(self.answered()[k as int] == value_view(self.answers@[k as int]));
        match &self.answers[k] {
            Value::Flag(b) => *b,
            _ => false,
        }
    }

    fn address_value(&self, k: usize) -> (ip: Ipv4Addr)
        requires
            k < self.answered().len(),
        ensures
            ip == address_of(self.answered()[k as int]),
    {
        assert(self.answered()[k as int] == value_view(self.answers@[k as int]));
        match &self.answers[k] {
            Value::Address(ip) => *ip,
            _ => Ipv4Addr { a: 0, b: 0, c: 0, d: 0 },
        }
    }

    fn default_text(&self, k: usize) -> (s: String)
        requires
            self.wf(),
            2 <= k < 17 || k == 1,
            k == 5 ==> self.answered().len() > 1,
        ensures
            s@ == self.input_default(k as nat),
    {
        let l = &self.loaded.launch;
        let b = &self.loaded.build;
        let g = &self.guesses;
        if k == 1 {
            or_string(&self.loaded.serve.listen, "192.168.100.1:8080")
        } else if k == 2 {
            or_string(&l.bridge, "minivm0")
        } else if k == 3 {
            let ip = match l.subnet_base {
                Some(ip) => ip,
                None => Ipv4Addr::new(192, 168, 100, 0),
            };
            ip.render()
        } else if k == 4 {
            let p: u8 = match l.prefix_len {
                Some(p) => p,
                None => 24,
            };
            decimal_string(p as u64)
        } else if k == 5 {
            match &l.host_api {
                Some(v) => v.clone(),
                None => {
                    let mut s = String::from_str("http://");
                    let listen = self.text_value(1);
                    s.append(listen.as_str());
                    s.append("/incr");
                    s
                },
            }
        } else if k == 6 {
            or_guess(&b.busybox, &g.busybox, "/usr/bin/busybox")
        } else if k == 7 {
            or_string(&b.output, "out/initramfs.cpio")
        } else if k == 8 {
            or_string(&b.init_script, "guest/init")
        } else if k == 9 {
            or_guess(&l.kernel, &g.kernel, "/boot/vmlinuz-guest")
        } else if k == 10 {
            or_guess(&l.qemu_bin, &g.qemu_bin, "qemu-system-x86_64")
        } else if k == 11 {
            or_string(&l.machine, "microvm")
        } else if k == 12 {
            or_string(&l.accel, "kvm")
        } else if k == 13 {
            or_string(&l.tap_prefix, "mvm")
        } else if k == 14 {
            let c: usize = match l.count {
                Some(c) => c,
                None => 3,
            };
            decimal_string(c as u64)
        } else if k == 15 {
            let m: u32 = match l.memory_mib {
                Some(m) => m,
                None => 128,
            };
            decimal_string(m as u64)
        } else {
            or_string(&l.workdir, "runtime")
        }
    }

    /// The next question, or `None` once every question is answered.
    pub fn prompt(&self) -> (r: Option<Prompt>)
        requires
            self.wf(),
        ensures
            match r {
                None => self.answered().len() == QUESTIONS,
                Some(p) => self.answered().len() < QUESTIONS && prompt_view(p) == self.prompt_at(
                    self.answered().len(),
                ),
            },
    {
        let k = self.answers.len();
        if k >= QUESTIONS {
            return None;
        }
        if k == 0 {
            let mut items: Vec<String> = Vec::new();
            assert(texts(items@) =~= Seq::<Seq<char>>::empty());
            crate::text::push_text(
                &mut items,
                String::from_str("qemu: working backend for the current MVP"),
            );
            crate::text::push_text(
                &mut items,
                String::from_str("kvm: scaffold only, does not boot guests yet"),
            );
            let default: usize = match &self.loaded.launch.backend {
                Some(b) => if crate::text::same_text(b.as_str(), "kvm") {
                    1
                } else {
                    0
                },
                None => 0,
            };
            assert(texts(items@) =~= seq![
                "qemu: working backend for the current MVP"@,
                "kvm: scaffold only, does not boot guests yet"@,
            ]);
            let p = Prompt::Select { text: String::from_str(label(0)), items, default };
            assert(prompt_view(p) == self.prompt_at(0));
            return Some(p);
        }
        if k == 17 {
            let default = match self.loaded.launch.skip_tap_setup {
                Some(f) => f,
                None => false,
            };
            return Some(Prompt::Confirm { text: String::from_str(label(17)), default });
        }
        if k == 18 {
            let default = match self.loaded.launch.keep_taps {
                Some(f) => f,
                None => false,
            };
            return Some(Prompt::Confirm { text: String::from_str(label(18)), default });
        }
        let text = String::from_str(label(k));
        let default = self.default_text(k);
        if k == 1 {
            Some(Prompt::InputSocketAddr { text, default })
        } else {
            Some(Prompt::Input { text, default })
        }
    }

    fn push_value(&mut self, v: Value)
        ensures
            final(self).answered() == old(self).answered().push(value_view(v)),
            final(self).loaded() == old(self).loaded(),
            final(self).guesses() == old(self).guesses(),
    {
        self.answers.push(v);
        assert(self.answered() =~= old(self).answered().push(value_view(v)));
    }
}


impl Wizard {
    /// Takes the answer to the current question: stores it when it is
    /// accepted, and refuses it (changing nothing) when it is not.
    pub fn answer(&mut self, a: Answer) -> (r: Result<(), WizardError>)
        requires
            old(self).wf(),
        ensures
            final(self).wf(),
            final(self).loaded() == old(self).loaded(),
            final(self).guesses() == old(self).guesses(),
            match accepted(old(self).answered().len(), answer_view(a)) {
                Some(v) => r is Ok && final(self).answered() == old(self).answered().push(v),
                None => r is Err && final(self).answered() == old(self).answered(),
            },
            old(self).answered().len() == 1 ==> (a matches Answer::SocketAddr {
                text,
                canonical: None,
            } ==> (r matches Err(WizardError::InvalidSocketAddr { prompt, value }) && prompt@
                == prompt_label(1) && value@ == text@)),
            old(self).answered().len() == 3 ==> (a matches Answer::Text(t) ==> (accepted(
                3,
                answer_view(a),
            ) is None ==> (r matches Err(WizardError::InvalidIpv4 { prompt, value }) && prompt@
                == prompt_label(3) && value@ == t@))),
            (old(self).answered().len() == 4 || old(self).answered().len() == 14
                || old(self).answered().len() == 15) ==> (a matches Answer::Text(t) ==> (accepted(
                old(self).answered().len(),
                answer_view(a),
            ) is None ==> (r matches Err(WizardError::InvalidInteger { prompt, value }) && prompt@
                == prompt_label(old(self).answered().len()) && value@ == t@))),
    {
        let k = self.answers.len();
        assert(self.answered().len() == k);
        let ghost before = self.answered();
        match a {
            Answer::Selected(i) => {
                if k != 0 {
                    return Err(WizardError::UnexpectedAnswer);
                }
                let name = if i == 1 {
                    String::from_str("kvm")
                } else {
                    String::from_str("qemu")
                };
                self.push_value(Value::Text(name));
            },
            Answer::Confirmed(b) => {
                if k != 17 && k != 18 {
                    return Err(WizardError::UnexpectedAnswer);
                }
                self.push_value(Value::Flag(b));
            },
            Answer::SocketAddr { text, canonical } => {
                if k != 1 {
                    return Err(WizardError::UnexpectedAnswer);
                }
                match canonical {
                    Some(c) => self.push_value(Value::Text(c)),
                    None => {
                        return Err(
                            WizardError::InvalidSocketAddr {
                                prompt: String::from_str(label(1)),
                                value: text,
                            },
                        );
                    },
                }
            },
            Answer::Text(t) => {
                if k <= 1 || k >= 17 {
                    return Err(WizardError::UnexpectedAnswer);
                }
                if k == 3 {
                    match Ipv4Addr::parse(t.as_str()) {
                        Some(ip) => {
                            proof {
                                let c = choose|x: Ipv4Addr| t@ == dotted(x);
                                crate::net::lemma_dotted_injective(c, ip);
                            }
                            self.push_value(Value::Address(ip));
                        },
                        None => {
                            return Err(
                                WizardError::InvalidIpv4 {
                                    prompt: String::from_str(label(3)),
                                    value: t,
                                },
                            );
                        },
                    }
                } else if k == 4 || k == 14 || k == 15 {
                    let max: u64 = if k == 4 {
                        255
                    } else if k == 14 {
                        usize::MAX as u64
                    } else {
                        u32::MAX as u64
                    };
                    match parse_unsigned(t.as_str(), max) {
                        Some(n) => self.push_value(Value::Number(n)),
                        None => {
                            return Err(
                                WizardError::InvalidInteger {
                                    prompt: String::from_str(label(k)),
                                    value: t,
                                },
                            );
                        },
                    }
                } else {
                    self.push_value(Value::Text(t));
                }
            },
        }
        assert forall|j: int| 0 <= j < self.answered().len() implies value_fits(
            j as nat,
            #[trigger] self.answered()[j],
        ) by {
            if j < k {
                assert(self.answered()[j] == before[j]);
            }
        }
        Ok(())
    }

    /// The configuration to write, once every question is answered.
    pub fn config(&self) -> (r: Option<FileConfig>)
        requires
            self.wf(),
        ensures
            r is Some <==> self.answered().len() == QUESTIONS,
            r matches Some(c) ==> config_matches(c, *self),
    {
        if self.answers.len() < QUESTIONS {
            return None;
        }
        let output = self.text_value(7);
        let initramfs = match &self.loaded.launch.initramfs {
            Some(p) => p.clone(),
            None => output.clone(),
        };
        let c = FileConfig {
            serve: ServeFileConfig { listen: Some(self.text_value(1)) },
            build: BuildFileConfig {
                busybox: Some(self.text_value(6)),
                output: Some(output),
                init_script: Some(self.text_value(8)),
            },
            launch: LaunchFileConfig {
                backend: Some(self.text_value(0)),
                count: Some(self.number_value(14) as usize),
                kernel: Some(self.text_value(9)),
                initramfs: Some(initramfs),
                workdir: Some(self.text_value(16)),
                host_api: Some(self.text_value(5)),
                bridge: Some(self.text_value(2)),
                subnet_base: Some(self.address_value(3)),
                prefix_len: Some(self.number_value(4) as u8),
                memory_mib: Some(self.number_value(15) as u32),
                qemu_bin: Some(self.text_value(10)),
                machine: Some(self.text_value(11)),
                accel: Some(self.text_value(12)),
                tap_prefix: Some(self.text_value(13)),
                skip_tap_setup: Some(self.flag_value(17)),
                keep_taps: Some(self.flag_value(18)),
            },
        };
        Some(c)
    }
}


/// Pressing Enter at a question: the suggestion itself (for the socket
/// address, taken as already written the standard way).
pub open spec fn default_answer(p: PromptView) -> AnswerView {
    match p {
        PromptView::Select { default, .. } => AnswerView::Selected(default),
        PromptView::Input { default, .. } => AnswerView::Text(default),
        PromptView::InputSocketAddr { default, .. } => AnswerView::SocketAddr {
            text: default,
            canonical: Some(default),
        },
        PromptView::Confirm { default, .. } => AnswerView::Confirmed(default),
    }
}

proof fn lemma_decimal_reads_back(n: nat, max: nat)
    requires
        n <= max,
    ensures
        bounded(decimal(n), max) == Some(ValueView::Number(n)),
{
    crate::text::lemma_decimal_digits(n);
    crate::text::lemma_decimal_len(n);
    let d = decimal(n);
    assert(crate::text::is_digit(d[0]));
    assert(crate::text::unsigned_digits(d) == d);
}

/// The value the suggestion at step `k` stands for: the configured (or
/// built-in) backend, subnet base, numbers and flags, and the suggested text
/// for the other steps.
pub open spec fn suggested_value(w: Wizard, k: nat) -> ValueView {
    let l = w.loaded().launch;
    if k == 0 {
        ValueView::Text(
            match l.backend {
                Some(b) => if b@ == "kvm"@ {
                    "kvm"@
                } else {
                    "qemu"@
                },
                None => "qemu"@,
            },
        )
    } else if k == 3 {
        ValueView::Address(
            match l.subnet_base {
                Some(ip) => ip,
                None => Ipv4Addr { a: 192, b: 168, c: 100, d: 0 },
            },
        )
    } else if k == 4 {
        ValueView::Number(
            match l.prefix_len {
                Some(p) => p as nat,
                None => 24,
            },
        )
    } else if k == 14 {
        ValueView::Number(
            match l.count {
                Some(c) => c as nat,
                None => 3,
            },
        )
    } else if k == 15 {
        ValueView::Number(
            match l.memory_mib {
                Some(m) => m as nat,
                None => 128,
            },
        )
    } else if k == 17 {
        ValueView::Flag(l.skip_tap_setup == Some(true))
    } else if k == 18 {
        ValueView::Flag(l.keep_taps == Some(true))
    } else {
        ValueView::Text(w.input_default(k))
    }
}

/// Every suggestion the wizard shows is an answer it accepts, and accepting
/// it keeps the value the configuration already had (or the built-in default).
pub proof fn law_suggestions_are_accepted(w: Wizard, k: nat)
    requires
        k < QUESTIONS,
    ensures
        accepted(k, default_answer(w.prompt_at(k))) == Some(suggested_value(w, k)),
{
    let l = w.loaded().launch;
    if k == 3 {
        let ip = match l.subnet_base {
            Some(ip) => ip,
            None => Ipv4Addr { a: 192, b: 168, c: 100, d: 0 },
        };
        let t = dotted(ip);
        assert(w.input_default(3) == t);
        assert(exists|x: Ipv4Addr| t == dotted(x));
        let c = choose|x: Ipv4Addr| t == dotted(x);
        crate::net::lemma_dotted_injective(c, ip);
    } else if k == 4 {
        let p: nat = match l.prefix_len {
            Some(p) => p as nat,
            None => 24,
        };
        lemma_decimal_reads_back(p, 255);
    } else if k == 14 {
        let c: nat = match l.count {
            Some(c) => c as nat,
            None => 3,
        };
        lemma_decimal_reads_back(c, usize::MAX as nat);
    } else if k == 15 {
        let m: nat = match l.memory_mib {
            Some(m) => m as nat,
            None => 128,
        };
        lemma_decimal_reads_back(m, u32::MAX as nat);
    }
}

/// Every key of the configuration is set, and its backend is one of the two
/// the wizard offers (`qemu`, `kvm`).
pub open spec fn is_complete(c: FileConfig) -> bool {
    &&& c.serve.listen is Some
    &&& c.build.busybox is Some
    &&& c.build.output is Some
    &&& c.build.init_script is Some
    &&& c.launch.backend matches Some(b) && (b@ == "qemu"@ || b@ == "kvm"@)
    &&& c.launch.count is Some
    &&& c.launch.kernel is Some
    &&& c.launch.initramfs is Some
    &&& c.launch.workdir is Some
    &&& c.launch.host_api is Some
    &&& c.launch.bridge is Some
    &&& c.launch.subnet_base is Some
    &&& c.launch.prefix_len is Some
    &&& c.launch.memory_mib is Some
    &&& c.launch.qemu_bin is Some
    &&& c.launch.machine is Some
    &&& c.launch.accel is Some
    &&& c.launch.tap_prefix is Some
    &&& c.launch.skip_tap_setup is Some
    &&& c.launch.keep_taps is Some
}

/// Two configurations hold the same text and values under every key.
pub open spec fn same_config(a: FileConfig, b: FileConfig) -> bool {
    &&& opt_text(a.serve.listen) == opt_text(b.serve.listen)
    &&& opt_text(a.build.busybox) == opt_text(b.build.busybox)
    &&& opt_text(a.build.output) == opt_text(b.build.output)
    &&& opt_text(a.build.init_script) == opt_text(b.build.init_script)
    &&& opt_text(a.launch.backend) == opt_text(b.launch.backend)
    &&& a.launch.count == b.launch.count
    &&& opt_text(a.launch.kernel) == opt_text(b.launch.kernel)
    &&& opt_text(a.launch.initramfs) == opt_text(b.launch.initramfs)
    &&& opt_text(a.launch.workdir) == opt_text(b.launch.workdir)
    &&& opt_text(a.launch.host_api) == opt_text(b.launch.host_api)
    &&& opt_text(a.launch.bridge) == opt_text(b.launch.bridge)
    &&& a.launch.subnet_base == b.launch.subnet_base
    &&& a.launch.prefix_len == b.launch.prefix_len
    &&& a.launch.memory_mib == b.launch.memory_mib
    &&& opt_text(a.launch.qemu_bin) == opt_text(b.launch.qemu_bin)
    &&& opt_text(a.launch.machine) == opt_text(b.launch.machine)
    &&& opt_text(a.launch.accel) == opt_text(b.launch.accel)
    &&& opt_text(a.launch.tap_prefix) == opt_text(b.launch.tap_prefix)
    &&& a.launch.skip_tap_setup == b.launch.skip_tap_setup
    &&& a.launch.keep_taps == b.launch.keep_taps
}

/// Every question was answered, each by pressing Enter at the question the
/// wizard showed.
pub open spec fn answered_with_enter(w: Wizard) -> bool {
    &&& w.answered().len() == QUESTIONS
    &&& forall|k: int|
        0 <= k < QUESTIONS ==> accepted(k as nat, default_answer(w.prompt_at(k as nat))) == Some(
            #[trigger] w.answered()[k],
        )
}

/// The question at step `k` depends only on the configuration, the host's
/// suggestions and the answers before `k`: two wizards that agree on these
/// ask the same question there.
pub proof fn law_questions_follow_earlier_answers(w1: Wizard, w2: Wizard, k: nat)
    requires
        w1.loaded() == w2.loaded(),
        w1.guesses() == w2.guesses(),
        k <= w1.answered().len(),
        k <= w2.answered().len(),
        w1.answered().take(k as int) == w2.answered().take(k as int),
    ensures
        w1.prompt_at(k) == w2.prompt_at(k),
{
    if k == 5 {
        assert(w1.answered()[1] == w1.answered().take(5)[1]);
        assert(w2.answered()[1] == w2.answered().take(5)[1]);
    }
}

/// Running the wizard again on a complete configuration and pressing Enter at
/// every question gives back that configuration, key by key.
pub proof fn law_enter_everywhere_keeps_the_configuration(w: Wizard, c: FileConfig)
    requires
        is_complete(w.loaded()),
        answered_with_enter(w),
        config_matches(c, w),
    ensures
        same_config(c, w.loaded()),
{
    assert forall|k: nat| k < QUESTIONS implies #[trigger] accepted(
        k,
        default_answer(w.prompt_at(k)),
    ) == Some(suggested_value(w, k)) by {
        law_suggestions_are_accepted(w, k);
    }
}

/// `launch` boots the image that `build-initramfs` writes: the produced
/// `[build].output` is the answer to "Initramfs output path", and the produced
/// `[launch].initramfs` is that same answer unless the loaded configuration
/// already named a `[launch].initramfs`, which is then kept.
pub proof fn law_launch_boots_the_built_image(w: Wizard, c: FileConfig)
    requires
        config_matches(c, w),
    ensures
        c.build.output matches Some(o) && o@ == text_of(w.answered()[7]),
        w.loaded().launch.initramfs is None ==> (c.launch.initramfs matches Some(i) && i@
            == text_of(w.answered()[7])),
        w.loaded().launch.initramfs matches Some(p) ==> (c.launch.initramfs matches Some(i) && i@
            == p@),
{
}

} // verus!
