//! Running natural-language commands: parsed commands with their
//! parameters, what running one gives, and the executor's decisions. The
//! executor decides what to do with a command; the program or file
//! operation it asks for is carried out by the caller, who hands back how
//! it went and gets the result.
//!
//! Confidence is given in thousandths; a number parameter is carried as
//! the bits of its `f64`.

use vstd::prelude::*;
use crate::chars::{strip_range, trim};
use crate::multiagent::{debug_quoted, debug_str};
use crate::nlcmd::{dangerous, intent_rules, is_dangerous_command, stands_for, AppCommand, CommandExecutor, CommandType, FileCommand, IntentClassifier, SearchCommand, SystemCommand, url_encoded, web_search_url};
use crate::text::unicode_lowercase;
use crate::normalize::string_views;
use crate::multimap::{distinct_keys, has_key, key_index};
use crate::text::{chars_of, string_push_str, to_owned_string};

verus! {

/// What running a command gave.
#[derive(Debug)]
pub struct ExecutionResult {
    pub success: bool,
    pub message: String,
    /// Output data, as JSON.
    pub data: Option<serde_json::Value>,
    pub error: Option<String>,
}

/// `r` is a success with message `m` and no data.
pub open spec fn succeeded(r: ExecutionResult, m: Seq<char>) -> bool {
    &&& r.success
    &&& r.message@ == m
    &&& r.data is None
    &&& r.error is None
}

/// `r` is a failure with error `e`, an empty message and no data.
pub open spec fn failed(r: ExecutionResult, e: Seq<char>) -> bool {
    &&& !r.success
    &&& r.message@.len() == 0
    &&& r.data is None
    &&& r.error matches Some(x) && x@ == e
}

impl ExecutionResult {
    /// A success with `message`.
    pub fn success(message: &str) -> (r: Self)
        ensures
            succeeded(r, message@),
    {
        ExecutionResult { success: true, message: to_owned_string(message), data: None, error: None }
    }

    /// A failure with `error`.
    pub fn failure(error: &str) -> (r: Self)
        ensures
            failed(r, error@),
    {
        ExecutionResult { success: false, message: String::new(), data: None, error: Some(to_owned_string(error)) }
    }

    /// The same result carrying `data`.
    pub fn with_data(self, data: serde_json::Value) -> (r: Self)
        ensures
            r.success == self.success,
            r.message == self.message,
            r.error == self.error,
            r.data == Some(data),
    {
        ExecutionResult { data: Some(data), ..self }
    }
}

/// The value of a command parameter.
#[derive(Debug)]
pub enum ParameterValue {
    String(String),
    /// A number, as the bits of its `f64`.
    Number(u64),
    Boolean(bool),
    List(Vec<ParameterValue>),
    /// No value.
    Absent,
}

impl ParameterValue {
    /// The text of a string value.
    pub fn as_str(&self) -> (r: Option<&str>)
        ensures
            match self {
                ParameterValue::String(s) => r matches Some(t) && t@ == s@,
                _ => r is None,
            },
    {
        match self {
            ParameterValue::String(s) => Some(s.as_str()),
            _ => None,
        }
    }

    /// The bits of a number value.
    pub fn as_number(&self) -> (r: Option<u64>)
        ensures
            r == match self {
                ParameterValue::Number(n) => Some(*n),
                _ => None,
            },
    {
        match self {
            ParameterValue::Number(n) => Some(*n),
            _ => None,
        }
    }

    /// A boolean value.
    pub fn as_bool(&self) -> (r: Option<bool>)
        ensures
            r == match self {
                ParameterValue::Boolean(b) => Some(*b),
                _ => None,
            },
    {
        match self {
            ParameterValue::Boolean(b) => Some(*b),
            _ => None,
        }
    }
}

/// A named parameter of a command.
#[derive(Debug)]
pub struct Parameter {
    pub name: String,
    pub value: ParameterValue,
    /// Whether it was inferred rather than said.
    pub inferred: bool,
}

/// A parsed command.
#[derive(Debug)]
pub struct Command {
    /// The words it was read from.
    pub original: String,
    pub command_type: CommandType,
    /// Its parameters by name, no name twice.
    pub parameters: Vec<(String, Parameter)>,
    /// In thousandths, at most 1000.
    pub confidence_permille: u32,
    pub requires_confirmation: bool,
}

/// The parameter names of a command with their parameters.
pub open spec fn parameter_views(ps: Seq<(String, Parameter)>) -> Seq<(Seq<char>, Parameter)> {
    ps.map_values(|p: (String, Parameter)| (p.0@, p.1))
}

/// The position of the parameter named `name`.
fn parameter_index(ps: &Vec<(String, Parameter)>, name: &str) -> (r: Option<usize>)
    requires
        distinct_keys(parameter_views(ps@)),
    ensures
        match r {
            Some(i) => i < ps@.len() && has_key(parameter_views(ps@), name@) && key_index(parameter_views(ps@), name@) == i
                && parameter_views(ps@)[i as int].0 == name@,
            None => !has_key(parameter_views(ps@), name@),
        },
{
    let ghost v = parameter_views(ps@);
    let mut i: usize = 0;
    while i < ps.len()
        invariant
            i <= ps@.len(),
            v == parameter_views(ps@),
            distinct_keys(v),
            forall|j: int| 0 <= j < i ==> (#[trigger] v[j]).0 != name@,
        decreases ps@.len() - i,
    {
        assert(v[i as int].0 == ps@[i as int].0@);
        if crate::text::str_eq(ps[i].0.as_str(), name) {
            proof {
                crate::multimap::lemma_key_index_unique(v, i as int);
            }
            return Some(i);
        }
        i = i + 1;
    }
    None
}

impl Command {
    /// The command `command_type` read from `original`: fully confident,
    /// without parameters, needing no confirmation.
    pub fn new(original: &str, command_type: CommandType) -> (r: Self)
        ensures
            r.original@ == original@,
            r.command_type == command_type,
            r.parameters@.len() == 0,
            r.confidence_permille == 1000,
            !r.requires_confirmation,
    {
        Command {
            original: to_owned_string(original),
            command_type,
            parameters: Vec::new(),
            confidence_permille: 1000,
            requires_confirmation: false,
        }
    }

    /// The same command with the parameter `name` set to `value`, said
    /// rather than inferred: a known name keeps its place, a new one goes
    /// last.
    pub fn with_parameter(self, name: &str, value: ParameterValue) -> (r: Self)
        requires
            distinct_keys(parameter_views(self.parameters@)),
        ensures
            distinct_keys(parameter_views(r.parameters@)),
            has_key(parameter_views(r.parameters@), name@),
            ({
                let p = parameter_views(r.parameters@)[key_index(parameter_views(r.parameters@), name@)].1;
                p.name@ == name@ && p.value == value && !p.inferred
            }),
            forall|k: Seq<char>| k != name@ ==> #[trigger] has_key(parameter_views(r.parameters@), k) == has_key(
                parameter_views(self.parameters@),
                k,
            ),
            r.original == self.original,
            r.command_type == self.command_type,
            r.confidence_permille == self.confidence_permille,
            r.requires_confirmation == self.requires_confirmation,
    {
        let mut c = self;
        let ghost before = parameter_views(c.parameters@);
        let param = Parameter { name: to_owned_string(name), value, inferred: false };
        let found = parameter_index(&c.parameters, name);
        let key = to_owned_string(name);
        match found {
            Some(i) => {
                c.parameters.set(i, (key, param));
                proof {
                    let after = parameter_views(c.parameters@);
                    assert(after =~= before.update(i as int, (name@, param)));
                    assert forall|a: int, b: int| 0 <= a < after.len() && 0 <= b < after.len() && a != b implies after[a].0 != after[b].0 by {
                        if a != i && b != i {
                            assert(after[a] == before[a] && after[b] == before[b]);
                        } else if a == i {
                            assert(after[b] == before[b]);
                        } else {
                            assert(after[a] == before[a]);
                        }
                    }
                    crate::multimap::lemma_key_index_unique(after, i as int);
                    assert forall|k: Seq<char>| k != name@ implies #[trigger] has_key(after, k) == has_key(before, k) by {
                        if has_key(after, k) {
                            let j = choose|j: int| 0 <= j < after.len() && after[j].0 == k;
                            assert(before[j].0 == k);
                        }
                        if has_key(before, k) {
                            let j = choose|j: int| 0 <= j < before.len() && before[j].0 == k;
                            assert(after[j].0 == k);
                        }
                    }
                }
            },
            None => {
                c.parameters.push((key, param));
                proof {
                    let after = parameter_views(c.parameters@);
                    assert(after =~= before.push((name@, param)));
                    assert forall|a: int, b: int| 0 <= a < after.len() && 0 <= b < after.len() && a != b implies after[a].0 != after[b].0 by {
                        if a < before.len() && b < before.len() {
                            assert(after[a] == before[a] && after[b] == before[b]);
                        } else if a < before.len() {
                            assert(after[a] == before[a]);
                        } else {
                            assert(after[b] == before[b]);
                        }
                    }
                    crate::multimap::lemma_key_index_unique(after, before.len() as int);
                    assert forall|k: Seq<char>| k != name@ implies #[trigger] has_key(after, k) == has_key(before, k) by {
                        if has_key(after, k) {
                            let j = choose|j: int| 0 <= j < after.len() && after[j].0 == k;
                            assert(before[j].0 == k);
                        }
                        if has_key(before, k) {
                            let j = choose|j: int| 0 <= j < before.len() && before[j].0 == k;
                            assert(after[j].0 == k);
                        }
                    }
                }
            },
        }
        c
    }

    /// The same command with confidence `confidence_permille`, at most 1000.
    pub fn with_confidence(self, confidence_permille: u32) -> (r: Self)
        ensures
            r.confidence_permille == if confidence_permille > 1000 { 1000 } else { confidence_permille },
            r.original == self.original,
            r.command_type == self.command_type,
            r.parameters == self.parameters,
            r.requires_confirmation == self.requires_confirmation,
    {
        Command { confidence_permille: if confidence_permille > 1000 { 1000 } else { confidence_permille }, ..self }
    }

    /// The same command, needing confirmation.
    pub fn requires_confirmation(self) -> (r: Self)
        ensures
            r.requires_confirmation,
            r.original == self.original,
            r.command_type == self.command_type,
            r.parameters == self.parameters,
            r.confidence_permille == self.confidence_permille,
    {
        Command { requires_confirmation: true, ..self }
    }

    /// The value of parameter `name`.
    pub fn get_param(&self, name: &str) -> (r: Option<&ParameterValue>)
        requires
            distinct_keys(parameter_views(self.parameters@)),
        ensures
            r is Some == has_key(parameter_views(self.parameters@), name@),
            r matches Some(v) ==> *v == parameter_views(self.parameters@)[key_index(parameter_views(self.parameters@), name@)].1.value,
    {
        match parameter_index(&self.parameters, name) {
            Some(i) => Some(&self.parameters[i].1.value),
            None => None,
        }
    }

    /// The text of parameter `name`, where it is a string.
    pub fn get_string_param(&self, name: &str) -> (r: Option<&str>)
        requires
            distinct_keys(parameter_views(self.parameters@)),
        ensures
            r matches Some(t) ==> (has_key(parameter_views(self.parameters@), name@)
                && (parameter_views(self.parameters@)[key_index(parameter_views(self.parameters@), name@)].1.value
                matches ParameterValue::String(s) && s@ == t@)),
            r is None ==> !has_key(parameter_views(self.parameters@), name@)
                || !(parameter_views(self.parameters@)[key_index(parameter_views(self.parameters@), name@)].1.value is String),
    {
        match self.get_param(name) {
            Some(v) => v.as_str(),
            None => None,
        }
    }
}

/// A file operation the executor asks for.
#[derive(Debug, Clone, PartialEq, Eq)]
pub enum FileStep {
    /// Create the directory `path` (with its parents) where `dir`, else the
    /// parent directory, where there is one, and then the file.
    Create { path: String, dir: bool },
    /// Delete `path` where it exists: a directory with its contents.
    Delete { path: String },
    /// Create the destination's parent directory, where there is one, and
    /// rename `from` to `to`.
    Move { from: String, to: String },
    /// Where `from` exists, create the destination's parent directory,
    /// where there is one, and copy `from` to `to`, a directory with its
    /// contents.
    Copy { from: String, to: String },
    /// Where `path` exists and is a directory, list its entries.
    List { path: String },
}

/// How a file operation went.
#[derive(Debug, Clone, PartialEq, Eq)]
pub enum FileOutcome {
    /// The path to act on does not exist.
    Missing,
    /// The path to list is no directory.
    NotADirectory,
    /// Creating the parent directory failed, with this error.
    ParentFailed(String),
    /// The operation failed, with this error.
    Failed(String),
    /// The operation succeeded.
    Done,
}

/// What the executor does with a command.
#[derive(Debug)]
pub enum ExecStep {
    /// Nothing more: this is the result.
    Finished(ExecutionResult),
    /// The command needs confirmation first.
    ConfirmationRequired,
    /// Start `program` with `args`, waiting for it to end where `wait`;
    /// it succeeds with message `ok`, and where it cannot run it fails with
    /// `err_prefix` and the error, or, without one, succeeds all the same.
    Run { program: String, args: Vec<String>, wait: bool, ok: String, err_prefix: Option<String> },
    /// Carry out a file operation.
    File(FileStep),
}

/// What the executor does with a command, as text.
pub enum PlanView {
    Finished { success: bool, text: Seq<char> },
    ConfirmationRequired,
    Run { program: Seq<char>, args: Seq<Seq<char>>, wait: bool, ok: Seq<char>, err_prefix: Option<Seq<char>> },
    Create { path: Seq<char>, dir: bool },
    Delete { path: Seq<char> },
    Move { from: Seq<char>, to: Seq<char> },
    Copy { from: Seq<char>, to: Seq<char> },
    List { path: Seq<char> },
}

/// The step as text; a finished step carries no data, and its text is the
/// message of a success or the error of a failure.
pub open spec fn step_view(s: ExecStep) -> Option<PlanView> {
    match s {
        ExecStep::Finished(r) => if r.success && succeeded(r, r.message@) {
            Some(PlanView::Finished { success: true, text: r.message@ })
        } else if !r.success && r.error is Some && failed(r, r.error->0@) {
            Some(PlanView::Finished { success: false, text: r.error->0@ })
        } else {
            None
        },
        ExecStep::ConfirmationRequired => Some(PlanView::ConfirmationRequired),
        ExecStep::Run { program, args, wait, ok, err_prefix } => Some(PlanView::Run {
            program: program@,
            args: string_views(args@),
            wait,
            ok: ok@,
            err_prefix: match err_prefix {
                Some(p) => Some(p@),
                None => None,
            },
        }),
        ExecStep::File(f) => Some(
            match f {
                FileStep::Create { path, dir } => PlanView::Create { path: path@, dir },
                FileStep::Delete { path } => PlanView::Delete { path: path@ },
                FileStep::Move { from, to } => PlanView::Move { from: from@, to: to@ },
                FileStep::Copy { from, to } => PlanView::Copy { from: from@, to: to@ },
                FileStep::List { path } => PlanView::List { path: path@ },
            },
        ),
    }
}

/// A failure with error `e`.
pub open spec fn fail(e: Seq<char>) -> PlanView {
    PlanView::Finished { success: false, text: e }
}

/// A success with message `m`.
pub open spec fn done(m: Seq<char>) -> PlanView {
    PlanView::Finished { success: true, text: m }
}

/// How `{:?}` writes a system command.
pub open spec fn system_name(c: SystemCommand) -> Seq<char> {
    match c {
        SystemCommand::Sleep => "Sleep"@,
        SystemCommand::Shutdown => "Shutdown"@,
        SystemCommand::Restart => "Restart"@,
        SystemCommand::Lock => "Lock"@,
        SystemCommand::Logout => "Logout"@,
        SystemCommand::VolumeUp => "VolumeUp"@,
        SystemCommand::VolumeDown => "VolumeDown"@,
        SystemCommand::Mute => "Mute"@,
        SystemCommand::BrightnessUp => "BrightnessUp"@,
        SystemCommand::BrightnessDown => "BrightnessDown"@,
        SystemCommand::Screenshot => "Screenshot"@,
        SystemCommand::ScreenRecord => "ScreenRecord"@,
    }
}

/// How `{:?}` writes an application command.
pub open spec fn app_name(c: AppCommand) -> Seq<char> {
    match c {
        AppCommand::Open(a) => "Open("@ + debug_str(a@) + ")"@,
        AppCommand::Close(a) => "Close("@ + debug_str(a@) + ")"@,
        AppCommand::Focus(a) => "Focus("@ + debug_str(a@) + ")"@,
        AppCommand::Minimize => "Minimize"@,
        AppCommand::Maximize => "Maximize"@,
        AppCommand::FullScreen => "FullScreen"@,
        AppCommand::SwitchApp => "SwitchApp"@,
        AppCommand::ListApps => "ListApps"@,
    }
}

/// How `{:?}` writes a search command.
pub open spec fn search_name(c: SearchCommand) -> Seq<char> {
    match c {
        SearchCommand::Web(q) => "Web("@ + debug_str(q@) + ")"@,
        SearchCommand::Files(q) => "Files("@ + debug_str(q@) + ")"@,
        SearchCommand::Apps(q) => "Apps("@ + debug_str(q@) + ")"@,
        SearchCommand::Contacts(q) => "Contacts("@ + debug_str(q@) + ")"@,
        SearchCommand::Calendar(q) => "Calendar("@ + debug_str(q@) + ")"@,
    }
}

/// Run `program` with `args`.
pub open spec fn run(program: Seq<char>, args: Seq<Seq<char>>, wait: bool, ok: Seq<char>, err_prefix: Option<Seq<char>>) -> PlanView {
    PlanView::Run { program, args, wait, ok, err_prefix }
}

/// What the executor does with a system command, on macOS where `mac`.
pub open spec fn system_plan(c: SystemCommand, mac: bool) -> PlanView {
    match c {
        SystemCommand::Screenshot => if mac {
            run("screencapture"@, seq!["-i"@, "-c"@], false, "Screenshot initiated"@, Some("Screenshot failed: "@))
        } else {
            fail("Screenshots not supported on this platform"@)
        },
        SystemCommand::VolumeUp => if mac {
            run(
                "osascript"@,
                seq!["-e"@, "set volume output volume ((output volume of (get volume settings)) + 10)"@],
                true,
                "Volume increased"@,
                None,
            )
        } else {
            fail("Volume control not supported"@)
        },
        SystemCommand::VolumeDown => if mac {
            run(
                "osascript"@,
                seq!["-e"@, "set volume output volume ((output volume of (get volume settings)) - 10)"@],
                true,
                "Volume decreased"@,
                None,
            )
        } else {
            fail("Volume control not supported"@)
        },
        SystemCommand::Mute => if mac {
            run("osascript"@, seq!["-e"@, "set volume output muted true"@], true, "Audio muted"@, None)
        } else {
            fail("Volume control not supported"@)
        },
        SystemCommand::Lock => if mac {
            run("pmset"@, seq!["displaysleepnow"@], true, "Screen locked"@, None)
        } else {
            fail("Lock not supported"@)
        },
        _ => fail("System command "@ + system_name(c) + " not implemented"@),
    }
}

/// The AppleScript that tells application `a` what `rest` says.
pub open spec fn tell_script(a: Seq<char>, rest: Seq<char>) -> Seq<char> {
    "tell application \""@ + a + rest
}

/// What the executor does with an application command.
pub open spec fn app_plan(c: AppCommand, mac: bool) -> PlanView {
    match c {
        AppCommand::Open(a) => if mac {
            run("open"@, seq!["-a"@, a@], false, "Opened "@ + a@, Some("Failed to open "@ + a@ + ": "@))
        } else {
            fail("Application launch not supported"@)
        },
        AppCommand::Close(a) => if mac {
            run(
                "osascript"@,
                seq!["-e"@, tell_script(a@, "\" to quit"@)],
                true,
                "Closed "@ + a@,
                Some("Failed to close "@ + a@ + ": "@),
            )
        } else {
            fail("Application control not supported"@)
        },
        AppCommand::Focus(a) => if mac {
            run(
                "osascript"@,
                seq!["-e"@, tell_script(a@, "\" to activate"@)],
                true,
                "Focused "@ + a@,
                Some("Failed to focus "@ + a@ + ": "@),
            )
        } else {
            fail("Application control not supported"@)
        },
        _ => fail("App command "@ + app_name(c) + " not implemented"@),
    }
}

/// What the executor does with a file command.
pub open spec fn file_plan(c: FileCommand, mac: bool) -> PlanView {
    match c {
        FileCommand::Open(p) => if mac {
            run("open"@, seq![p@], false, "Opened "@ + p@, Some("Failed to open: "@))
        } else {
            fail("File operations not supported"@)
        },
        FileCommand::Create(p) => if trim(p@).len() == 0 {
            fail("Missing path"@)
        } else {
            PlanView::Create { path: p@, dir: p@.len() > 0 && (p@.last() == '/' || p@.last() == '\\') }
        },
        FileCommand::Delete(p) => if trim(p@).len() == 0 {
            fail("Missing path"@)
        } else {
            PlanView::Delete { path: p@ }
        },
        FileCommand::Move { from, to } => PlanView::Move { from: from@, to: to@ },
        FileCommand::Rename { from, to } => PlanView::Move { from: from@, to: to@ },
        FileCommand::Copy { from, to } => PlanView::Copy { from: from@, to: to@ },
        FileCommand::Find(p) => done("Searching for '"@ + p@ + "'..."@),
        FileCommand::List(p) => PlanView::List { path: p@ },
    }
}

/// What the executor does with a search command.
pub open spec fn search_plan(c: SearchCommand, mac: bool) -> PlanView {
    match c {
        SearchCommand::Web(q) => if mac {
            run(
                "open"@,
                seq!["https://www.google.com/search?q="@ + url_encoded(q@)],
                false,
                "Searching for '"@ + q@ + "'"@,
                Some("Failed to search: "@),
            )
        } else {
            fail("Web search not supported"@)
        },
        _ => fail("Search command "@ + search_name(c) + " not implemented"@),
    }
}

/// What the executor does with a command, on macOS where `mac`: a command
/// needing confirmation is refused until confirmed; the others go by their
/// type.
pub open spec fn command_plan(t: CommandType, needs_confirmation: bool, mac: bool) -> PlanView {
    if needs_confirmation {
        PlanView::ConfirmationRequired
    } else {
        match t {
            CommandType::System(c) => system_plan(c, mac),
            CommandType::Application(c) => app_plan(c, mac),
            CommandType::File(c) => file_plan(c, mac),
            CommandType::Search(c) => search_plan(c, mac),
            CommandType::Custom(d) => fail("Custom command '"@ + d@ + "' not supported"@),
            _ => fail("Command type not supported"@),
        }
    }
}

/// The AppleScript that moves the output volume by ten in the direction of
/// `sign` (`+` up, `-` down).
pub open spec fn volume_script(sign: char) -> Seq<char> {
    "set volume output volume ((output volume of (get volume settings)) "@ + seq![sign] + " 10)"@
}

/// On macOS, turning the volume up runs `osascript` with the script that
/// adds ten to the output volume and reports "Volume increased"; turning it
/// down runs the script that takes ten off and reports "Volume decreased".
/// The two scripts differ, and no other command runs the one that adds ten.
pub proof fn lemma_volume_scripts(t: CommandType)
    ensures
        t == CommandType::System(SystemCommand::VolumeUp) ==> command_plan(t, false, true) == (PlanView::Run {
            program: "osascript"@,
            args: seq!["-e"@, volume_script('+')],
            wait: true,
            ok: "Volume increased"@,
            err_prefix: None,
        }),
        t == CommandType::System(SystemCommand::VolumeDown) ==> command_plan(t, false, true) == (PlanView::Run {
            program: "osascript"@,
            args: seq!["-e"@, volume_script('-')],
            wait: true,
            ok: "Volume decreased"@,
            err_prefix: None,
        }),
        volume_script('+') != volume_script('-'),
        (command_plan(t, false, true) matches PlanView::Run { program, args, .. } && program == "osascript"@ && args
            == seq!["-e"@, volume_script('+')]) ==> t == CommandType::System(SystemCommand::VolumeUp),
{
    reveal_strlit("set volume output volume ((output volume of (get volume settings)) ");
    reveal_strlit(" 10)");
    reveal_strlit("set volume output volume ((output volume of (get volume settings)) + 10)");
    reveal_strlit("set volume output volume ((output volume of (get volume settings)) - 10)");
    reveal_strlit("set volume output muted true");
    reveal_strlit("tell application \"");
    reveal_strlit("osascript");
    reveal_strlit("open");
    reveal_strlit("screencapture");
    reveal_strlit("pmset");
    let up = volume_script('+');
    let down = volume_script('-');
    assert(up =~= "set volume output volume ((output volume of (get volume settings)) + 10)"@);
    assert(down =~= "set volume output volume ((output volume of (get volume settings)) - 10)"@);
    let k = "set volume output volume ((output volume of (get volume settings)) "@.len() as int;
    assert(up[k] != down[k]);
    assert(up.len() != "set volume output muted true"@.len());
    assert("osascript"@.len() != "open"@.len());
    assert("osascript"@.len() != "screencapture"@.len());
    assert("osascript"@.len() != "pmset"@.len());
    match t {
        CommandType::Application(c) => {
            match c {
                AppCommand::Close(a) => {
                    assert(tell_script(a@, "\" to quit"@)[0] == 't');
                    assert(up[0] == 's');
                },
                AppCommand::Focus(a) => {
                    assert(tell_script(a@, "\" to activate"@)[0] == 't');
                    assert(up[0] == 's');
                },
                _ => {},
            }
        },
        _ => {},
    }
}

/// The subject of a file operation: its path, or where it starts from.
pub open spec fn subject(s: FileStep) -> Seq<char> {
    match s {
        FileStep::Create { path, .. } => path@,
        FileStep::Delete { path } => path@,
        FileStep::Move { from, .. } => from@,
        FileStep::Copy { from, .. } => from@,
        FileStep::List { path } => path@,
    }
}

/// What a succeeded file operation says.
pub open spec fn file_done_text(s: FileStep) -> Seq<char> {
    match s {
        FileStep::Create { path, .. } => "Created "@ + path@,
        FileStep::Delete { path } => "Deleted "@ + path@,
        FileStep::Move { from, to } => "Moved "@ + from@ + " -> "@ + to@,
        FileStep::Copy { from, to } => "Copied "@ + from@ + " -> "@ + to@,
        FileStep::List { path } => "Listed "@ + path@,
    }
}

/// What a failed file operation says before its error.
pub open spec fn file_fail_prefix(s: FileStep) -> Seq<char> {
    match s {
        FileStep::Create { .. } => "Create failed: "@,
        FileStep::Delete { .. } => "Delete failed: "@,
        FileStep::Move { .. } => "Move failed: "@,
        FileStep::Copy { .. } => "Copy failed: "@,
        FileStep::List { .. } => "List failed: "@,
    }
}

/// What a failed parent directory says before its error.
pub open spec fn parent_fail_prefix(s: FileStep) -> Seq<char> {
    match s {
        FileStep::Move { .. } => "Failed to create destination directory: "@,
        FileStep::Copy { .. } => "Failed to create destination directory: "@,
        _ => "Failed to create parent directory: "@,
    }
}

/// The result of file operation `s` that went as `o`.
pub open spec fn file_outcome(s: FileStep, o: FileOutcome) -> PlanView {
    match o {
        FileOutcome::Missing => fail("Not found: "@ + subject(s)),
        FileOutcome::NotADirectory => fail("Not a directory: "@ + subject(s)),
        FileOutcome::ParentFailed(e) => fail(parent_fail_prefix(s) + e@),
        FileOutcome::Failed(e) => fail(file_fail_prefix(s) + e@),
        FileOutcome::Done => done(file_done_text(s)),
    }
}

fn finish_ok(m: String) -> (r: ExecStep)
    ensures
        step_view(r) == Some(done(m@)),
{
    ExecStep::Finished(ExecutionResult { success: true, message: m, data: None, error: None })
}

fn finish_err(e: String) -> (r: ExecStep)
    ensures
        step_view(r) == Some(fail(e@)),
{
    ExecStep::Finished(ExecutionResult { success: false, message: String::new(), data: None, error: Some(e) })
}

fn text2(a: &str, b: &str) -> (r: String)
    ensures
        r@ == a@ + b@,
{
    let mut s = to_owned_string(a);
    string_push_str(&mut s, b);
    s
}

fn text3(a: &str, b: &str, c: &str) -> (r: String)
    ensures
        r@ == a@ + b@ + c@,
{
    let mut s = to_owned_string(a);
    string_push_str(&mut s, b);
    string_push_str(&mut s, c);
    s
}

fn text4(a: &str, b: &str, c: &str, d: &str) -> (r: String)
    ensures
        r@ == a@ + b@ + c@ + d@,
{
    let mut s = text3(a, b, c);
    string_push_str(&mut s, d);
    s
}

fn args1(a: &str) -> (r: Vec<String>)
    ensures
        string_views(r@) == seq![a@],
{
    let mut v: Vec<String> = Vec::new();
    v.push(to_owned_string(a));
    assert(string_views(v@) =~= seq![a@]);
    v
}

fn args2(a: &str, b: &str) -> (r: Vec<String>)
    ensures
        string_views(r@) == seq![a@, b@],
{
    let mut v: Vec<String> = Vec::new();
    v.push(to_owned_string(a));
    v.push(to_owned_string(b));
    assert(string_views(v@) =~= seq![a@, b@]);
    v
}

fn run_step(program: &str, args: Vec<String>, wait: bool, ok: String, err_prefix: Option<String>) -> (r: ExecStep)
    ensures
        step_view(r) == Some(run(
            program@,
            string_views(args@),
            wait,
            ok@,
            match err_prefix {
                Some(p) => Some(p@),
                None => None,
            },
        )),
{
    ExecStep::Run { program: to_owned_string(program), args, wait, ok, err_prefix }
}

fn system_text(c: SystemCommand) -> (r: &'static str)
    ensures
        r@ == system_name(c),
{
    match c {
        SystemCommand::Sleep => "Sleep",
        SystemCommand::Shutdown => "Shutdown",
        SystemCommand::Restart => "Restart",
        SystemCommand::Lock => "Lock",
        SystemCommand::Logout => "Logout",
        SystemCommand::VolumeUp => "VolumeUp",
        SystemCommand::VolumeDown => "VolumeDown",
        SystemCommand::Mute => "Mute",
        SystemCommand::BrightnessUp => "BrightnessUp",
        SystemCommand::BrightnessDown => "BrightnessDown",
        SystemCommand::Screenshot => "Screenshot",
        SystemCommand::ScreenRecord => "ScreenRecord",
    }
}

fn app_text(c: &AppCommand) -> (r: String)
    ensures
        r@ == app_name(*c),
{
    match c {
        AppCommand::Open(a) => text3("Open(", debug_quoted(a.as_str()).as_str(), ")"),
        AppCommand::Close(a) => text3("Close(", debug_quoted(a.as_str()).as_str(), ")"),
        AppCommand::Focus(a) => text3("Focus(", debug_quoted(a.as_str()).as_str(), ")"),
        AppCommand::Minimize => to_owned_string("Minimize"),
        AppCommand::Maximize => to_owned_string("Maximize"),
        AppCommand::FullScreen => to_owned_string("FullScreen"),
        AppCommand::SwitchApp => to_owned_string("SwitchApp"),
        AppCommand::ListApps => to_owned_string("ListApps"),
    }
}

fn search_text(c: &SearchCommand) -> (r: String)
    ensures
        r@ == search_name(*c),
{
    match c {
        SearchCommand::Web(q) => text3("Web(", debug_quoted(q.as_str()).as_str(), ")"),
        SearchCommand::Files(q) => text3("Files(", debug_quoted(q.as_str()).as_str(), ")"),
        SearchCommand::Apps(q) => text3("Apps(", debug_quoted(q.as_str()).as_str(), ")"),
        SearchCommand::Contacts(q) => text3("Contacts(", debug_quoted(q.as_str()).as_str(), ")"),
        SearchCommand::Calendar(q) => text3("Calendar(", debug_quoted(q.as_str()).as_str(), ")"),
    }
}

fn blank(p: &str) -> (r: bool)
    ensures
        r == (trim(p@).len() == 0),
{
    let chars = chars_of(p);
    let (a, b) = strip_range(&chars, 0, chars.len(), false);
    assert(chars@.subrange(0, chars@.len() as int) =~= p@);
    a == b
}

fn ends_with_separator(p: &str) -> (r: bool)
    ensures
        r == (p@.len() > 0 && (p@.last() == '/' || p@.last() == '\\')),
{
    let chars = chars_of(p);
    chars.len() > 0 && (chars[chars.len() - 1] == '/' || chars[chars.len() - 1] == '\\')
}

fn system_step(c: SystemCommand, mac: bool) -> (r: ExecStep)
    ensures
        step_view(r) == Some(system_plan(c, mac)),
{
    match c {
        SystemCommand::Screenshot => if mac {
            run_step("screencapture", args2("-i", "-c"), false, to_owned_string("Screenshot initiated"), Some(to_owned_string("Screenshot failed: ")))
        } else {
            finish_err(to_owned_string("Screenshots not supported on this platform"))
        },
        SystemCommand::VolumeUp => if mac {
            run_step(
                "osascript",
                args2("-e", "set volume output volume ((output volume of (get volume settings)) + 10)"),
                true,
                to_owned_string("Volume increased"),
                None,
            )
        } else {
            finish_err(to_owned_string("Volume control not supported"))
        },
        SystemCommand::VolumeDown => if mac {
            run_step(
                "osascript",
                args2("-e", "set volume output volume ((output volume of (get volume settings)) - 10)"),
                true,
                to_owned_string("Volume decreased"),
                None,
            )
        } else {
            finish_err(to_owned_string("Volume control not supported"))
        },
        SystemCommand::Mute => if mac {
            run_step("osascript", args2("-e", "set volume output muted true"), true, to_owned_string("Audio muted"), None)
        } else {
            finish_err(to_owned_string("Volume control not supported"))
        },
        SystemCommand::Lock => if mac {
            run_step("pmset", args1("displaysleepnow"), true, to_owned_string("Screen locked"), None)
        } else {
            finish_err(to_owned_string("Lock not supported"))
        },
        _ => finish_err(text3("System command ", system_text(c), " not implemented")),
    }
}

fn app_step(c: &AppCommand, mac: bool) -> (r: ExecStep)
    ensures
        step_view(r) == Some(app_plan(*c, mac)),
{
    match c {
        AppCommand::Open(a) => if mac {
            run_step("open", args2("-a", a.as_str()), false, text2("Opened ", a.as_str()), Some(text3("Failed to open ", a.as_str(), ": ")))
        } else {
            finish_err(to_owned_string("Application launch not supported"))
        },
        AppCommand::Close(a) => if mac {
            let script = text3("tell application \"", a.as_str(), "\" to quit");
            run_step("osascript", args2("-e", script.as_str()), true, text2("Closed ", a.as_str()), Some(text3("Failed to close ", a.as_str(), ": ")))
        } else {
            finish_err(to_owned_string("Application control not supported"))
        },
        AppCommand::Focus(a) => if mac {
            let script = text3("tell application \"", a.as_str(), "\" to activate");
            run_step("osascript", args2("-e", script.as_str()), true, text2("Focused ", a.as_str()), Some(text3("Failed to focus ", a.as_str(), ": ")))
        } else {
            finish_err(to_owned_string("Application control not supported"))
        },
        _ => finish_err(text3("App command ", app_text(c).as_str(), " not implemented")),
    }
}

fn file_step(c: &FileCommand, mac: bool) -> (r: ExecStep)
    ensures
        step_view(r) == Some(file_plan(*c, mac)),
{
    match c {
        FileCommand::Open(p) => if mac {
            run_step("open", args1(p.as_str()), false, text2("Opened ", p.as_str()), Some(to_owned_string("Failed to open: ")))
        } else {
            finish_err(to_owned_string("File operations not supported"))
        },
        FileCommand::Create(p) => if blank(p.as_str()) {
            finish_err(to_owned_string("Missing path"))
        } else {
            ExecStep::File(FileStep::Create { path: p.clone(), dir: ends_with_separator(p.as_str()) })
        },
        FileCommand::Delete(p) => if blank(p.as_str()) {
            finish_err(to_owned_string("Missing path"))
        } else {
            ExecStep::File(FileStep::Delete { path: p.clone() })
        },
        FileCommand::Move { from, to } => ExecStep::File(FileStep::Move { from: from.clone(), to: to.clone() }),
        FileCommand::Rename { from, to } => ExecStep::File(FileStep::Move { from: from.clone(), to: to.clone() }),
        FileCommand::Copy { from, to } => ExecStep::File(FileStep::Copy { from: from.clone(), to: to.clone() }),
        FileCommand::Find(p) => finish_ok(text3("Searching for '", p.as_str(), "'...")),
        FileCommand::List(p) => ExecStep::File(FileStep::List { path: p.clone() }),
    }
}

fn search_step(c: &SearchCommand, mac: bool) -> (r: ExecStep)
    ensures
        step_view(r) == Some(search_plan(*c, mac)),
{
    match c {
        SearchCommand::Web(q) => if mac {
            let url = web_search_url(q.as_str());
            run_step("open", args1(url.as_str()), false, text3("Searching for '", q.as_str(), "'"), Some(to_owned_string("Failed to search: ")))
        } else {
            finish_err(to_owned_string("Web search not supported"))
        },
        _ => finish_err(text3("Search command ", search_text(c).as_str(), " not implemented")),
    }
}

/// Runs commands; holds no state of its own.
impl CommandExecutor {
    /// What to do with `command`, on macOS where `on_macos`: a command
    /// needing confirmation is refused until confirmed; a system,
    /// application, file or search command is run, carried out or
    /// answered as `command_plan` says; a custom or other command fails.
    pub fn plan(&self, command: &Command, on_macos: bool) -> (r: ExecStep)
        ensures
            step_view(r) == Some(command_plan(command.command_type, command.requires_confirmation, on_macos)),
    {
        if command.requires_confirmation {
            return ExecStep::ConfirmationRequired;
        }
        match &command.command_type {
            CommandType::System(c) => system_step(*c, on_macos),
            CommandType::Application(c) => app_step(c, on_macos),
            CommandType::File(c) => file_step(c, on_macos),
            CommandType::Search(c) => search_step(c, on_macos),
            CommandType::Custom(d) => finish_err(text3("Custom command '", d.as_str(), "' not supported")),
            _ => finish_err(to_owned_string("Command type not supported")),
        }
    }

    /// The result of a program run with message `ok` and error prefix
    /// `err_prefix` that went as `outcome`: success with `ok`, or where it
    /// could not run, failure with the prefix and the error, or without a
    /// prefix success all the same.
    pub fn run_result(ok: &str, err_prefix: &Option<String>, outcome: Result<(), String>) -> (r: ExecutionResult)
        ensures
            match (outcome, err_prefix) {
                (Err(e), Some(p)) => failed(r, p@ + e@),
                _ => succeeded(r, ok@),
            },
    {
        match (outcome, err_prefix) {
            (Err(e), Some(p)) => ExecutionResult::failure(text2(p.as_str(), e.as_str()).as_str()),
            _ => ExecutionResult::success(ok),
        }
    }

    /// The result of file operation `step` that went as `outcome`.
    pub fn file_result(step: &FileStep, outcome: FileOutcome) -> (r: ExecutionResult)
        ensures
            step_view(ExecStep::Finished(r)) == Some(file_outcome(*step, outcome)),
    {
        let (subj, done_text, fail_prefix, parent_prefix): (&str, String, &str, &str) = match step {
            FileStep::Create { path, .. } => (path.as_str(), text2("Created ", path.as_str()), "Create failed: ", "Failed to create parent directory: "),
            FileStep::Delete { path } => (path.as_str(), text2("Deleted ", path.as_str()), "Delete failed: ", "Failed to create parent directory: "),
            FileStep::Move { from, to } => (from.as_str(), text4("Moved ", from.as_str(), " -> ", to.as_str()), "Move failed: ", "Failed to create destination directory: "),
            FileStep::Copy { from, to } => (from.as_str(), text4("Copied ", from.as_str(), " -> ", to.as_str()), "Copy failed: ", "Failed to create destination directory: "),
            FileStep::List { path } => (path.as_str(), text2("Listed ", path.as_str()), "List failed: ", "Failed to create parent directory: "),
        };
        assert(subj@ == subject(*step));
        assert(done_text@ == file_done_text(*step));
        assert(fail_prefix@ == file_fail_prefix(*step));
        assert(parent_prefix@ == parent_fail_prefix(*step));
        let r = match outcome {
            FileOutcome::Missing => ExecutionResult::failure(text2("Not found: ", subj).as_str()),
            FileOutcome::NotADirectory => ExecutionResult::failure(text2("Not a directory: ", subj).as_str()),
            FileOutcome::ParentFailed(e) => ExecutionResult::failure(text2(parent_prefix, e.as_str()).as_str()),
            FileOutcome::Failed(e) => ExecutionResult::failure(text2(fail_prefix, e.as_str()).as_str()),
            FileOutcome::Done => ExecutionResult::success(done_text.as_str()),
        };
        r
    }
}

/// How the command processor reads input.
#[derive(Debug, Clone, Copy, PartialEq, Eq, Structural)]
pub struct ProcessorConfig {
    /// The least confidence, in hundredths, a reading must have.
    pub min_confidence_percent: u32,
    /// Whether dangerous commands need confirmation.
    pub confirm_dangerous: bool,
}

impl Default for ProcessorConfig {
    fn default() -> (r: Self)
        ensures
            r == (ProcessorConfig { min_confidence_percent: 50, confirm_dangerous: true }),
    {
        ProcessorConfig { min_confidence_percent: 50, confirm_dangerous: true }
    }
}

/// Reads commands from sentences and decides how to run them.
#[derive(Debug, Clone, Copy, PartialEq, Eq, Structural)]
pub struct CommandProcessor {
    pub config: ProcessorConfig,
    pub classifier: IntentClassifier,
    pub executor: CommandExecutor,
}

impl CommandProcessor {
    /// A processor with the default configuration.
    pub fn new() -> (r: Self)
        ensures
            r.config == (ProcessorConfig { min_confidence_percent: 50, confirm_dangerous: true }),
    {
        CommandProcessor::with_config(ProcessorConfig::default())
    }

    /// A processor configured by `config`.
    pub fn with_config(config: ProcessorConfig) -> (r: Self)
        ensures
            r.config == config,
    {
        CommandProcessor { config, classifier: IntentClassifier::new(), executor: CommandExecutor::new() }
    }

    /// The configuration.
    pub fn config(&self) -> (r: &ProcessorConfig)
        ensures
            *r == self.config,
    {
        &self.config
    }

    /// The command `input` stands for: none where it is blank or the rules
    /// read it with less than the least confidence; else the command its
    /// reading stands for, from the trimmed input, as confident as the
    /// reading, needing confirmation where it is dangerous and the
    /// configuration asks for that.
    pub fn parse(&self, input: &str) -> (r: Option<Command>)
        ensures
            trim(input@).len() == 0 ==> r is None,
            trim(input@).len() != 0 ==> ({
                let m = intent_rules(unicode_lowercase(trim(input@)));
                &&& m.confidence_percent < self.config.min_confidence_percent ==> r is None
                &&& m.confidence_percent >= self.config.min_confidence_percent ==> (r matches Some(c)
                    && c.original@ == trim(input@)
                    && stands_for(c.command_type, m)
                    && c.confidence_permille == m.confidence_percent * 10
                    && c.parameters@.len() == 0
                    && c.requires_confirmation == (self.config.confirm_dangerous && dangerous(c.command_type)))
            }),
    {
        let chars = chars_of(input);
        let (a, b) = strip_range(&chars, 0, chars.len(), false);
        assert(chars@.subrange(0, chars@.len() as int) =~= input@);
        if a == b {
            return None;
        }
        let trimmed = crate::chars::string_of_range(&chars, a, b);
        let m = self.classifier.classify_rules(trimmed.as_str());
        if (m.confidence_percent as u32) < self.config.min_confidence_percent {
            return None;
        }
        let command_type = self.classifier.to_command_type(&m);
        let danger = is_dangerous_command(&command_type);
        let command = Command::new(trimmed.as_str(), command_type).with_confidence(m.confidence_percent as u32 * 10);
        if self.config.confirm_dangerous && danger {
            Some(command.requires_confirmation())
        } else {
            Some(command)
        }
    }

    /// What to do with `command`, on macOS where `on_macos`; see
    /// `CommandExecutor::plan`.
    pub fn plan(&self, command: &Command, on_macos: bool) -> (r: ExecStep)
        ensures
            step_view(r) == Some(command_plan(command.command_type, command.requires_confirmation, on_macos)),
    {
        self.executor.plan(command, on_macos)
    }
}

impl Default for CommandProcessor {
    fn default() -> (r: Self)
        ensures
            r.config == (ProcessorConfig { min_confidence_percent: 50, confirm_dangerous: true }),
    {
        CommandProcessor::new()
    }
}

} // verus!
