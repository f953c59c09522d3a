//! Natural-language commands: the rules that read an intent from a
//! sentence, the commands that intents stand for, which commands are
//! dangerous, and the URL encoding of search queries.

use vstd::prelude::*;
use crate::chars::{find_seq, find_seq_exec, strip_range, string_of_range, trim};
use crate::normalize::{join, join_words, split_ws, string_views, ws_words};
use crate::text::{chars_of, str_eq, str_to_lowercase, string_push, string_push_str, to_owned_string, unicode_lowercase};

verus! {

/// Errors of command handling.
#[derive(Debug, Clone, PartialEq, Eq)]
pub enum CommandError {
    ParseError(String),
    UnknownCommand(String),
    ExecutionFailed(String),
    PermissionDenied(String),
}

/// System-level commands.
#[derive(Debug, Clone, Copy, PartialEq, Eq, Structural)]
pub enum SystemCommand {
    Sleep,
    Shutdown,
    Restart,
    Lock,
    Logout,
    VolumeUp,
    VolumeDown,
    Mute,
    BrightnessUp,
    BrightnessDown,
    Screenshot,
    ScreenRecord,
}

/// Application commands.
#[derive(Debug, Clone, PartialEq, Eq)]
pub enum AppCommand {
    Open(String),
    Close(String),
    Focus(String),
    Minimize,
    Maximize,
    FullScreen,
    SwitchApp,
    ListApps,
}

/// File operations.
#[derive(Debug, Clone, PartialEq, Eq)]
pub enum FileCommand {
    Open(String),
    Create(String),
    Delete(String),
    Move { from: String, to: String },
    Copy { from: String, to: String },
    Rename { from: String, to: String },
    Find(String),
    List(String),
}

/// Communication commands.
#[derive(Debug, Clone, PartialEq, Eq)]
pub enum CommCommand {
    SendMessage { to: String, content: String },
    Email { to: String, subject: String, body: String },
    Call(String),
    Schedule { what: String, when: String },
}

/// Search commands.
#[derive(Debug, Clone, PartialEq, Eq)]
pub enum SearchCommand {
    Web(String),
    Files(String),
    Apps(String),
    Contacts(String),
    Calendar(String),
}

/// Settings commands.
#[derive(Debug, Clone, PartialEq, Eq)]
pub enum SettingsCommand {
    WiFi(bool),
    Bluetooth(bool),
    DarkMode(bool),
    DoNotDisturb(bool),
    SetValue { key: String, value: String },
    Get(String),
}

/// What a command does.
#[derive(Debug, Clone, PartialEq, Eq)]
pub enum CommandType {
    System(SystemCommand),
    Application(AppCommand),
    File(FileCommand),
    Communication(CommCommand),
    Search(SearchCommand),
    Settings(SettingsCommand),
    Custom(String),
}

/// Whether a command needs confirmation before it runs: shutting down,
/// restarting, logging out, deleting a file.
pub open spec fn dangerous(t: CommandType) -> bool {
    match t {
        CommandType::System(s) => s == SystemCommand::Shutdown || s == SystemCommand::Restart || s
            == SystemCommand::Logout,
        CommandType::File(f) => f is Delete,
        _ => false,
    }
}

/// Whether `command_type` is dangerous.
pub fn is_dangerous_command(command_type: &CommandType) -> (r: bool)
    ensures
        r == dangerous(*command_type),
{
    match command_type {
        CommandType::System(s) => match s {
            SystemCommand::Shutdown | SystemCommand::Restart | SystemCommand::Logout => true,
            _ => false,
        },
        CommandType::File(f) => match f {
            FileCommand::Delete(_) => true,
            _ => false,
        },
        _ => false,
    }
}

/// Kinds of intent.
#[derive(Debug, Clone, Copy, PartialEq, Eq, Structural)]
pub enum IntentCategory {
    OpenApp,
    CloseApp,
    SystemControl,
    FileOperation,
    Search,
    Communication,
    Settings,
    Help,
    Unknown,
}

/// The intent read from a sentence: its kind, the action, its target and
/// the confidence of the rule, in hundredths.
#[derive(Debug, Clone, PartialEq, Eq)]
pub struct RuleMatch {
    pub category: IntentCategory,
    pub action: String,
    pub target: Option<String>,
    pub confidence_percent: u8,
}

/// A rule match by view.
pub struct RuleView {
    pub category: IntentCategory,
    pub action: Seq<char>,
    pub target: Option<Seq<char>>,
    pub confidence_percent: u8,
}

impl View for RuleMatch {
    type V = RuleView;

    open spec fn view(&self) -> RuleView {
        RuleView {
            category: self.category,
            action: self.action@,
            target: match self.target {
                Some(t) => Some(t@),
                None => None,
            },
            confidence_percent: self.confidence_percent,
        }
    }
}

/// `text` holds `pat`.
pub open spec fn holds(text: Seq<char>, pat: Seq<char>) -> bool {
    find_seq(text, pat) is Some
}

/// The words after the first, joined with single spaces.
pub open spec fn rest_joined(words: Seq<Seq<char>>) -> Seq<char> {
    join(words.drop_first(), " "@)
}

/// The first of `verbs` equal to the first word.
pub open spec fn first_word_verb(words: Seq<Seq<char>>, verbs: Seq<Seq<char>>) -> Option<Seq<char>>
    decreases verbs.len(),
{
    if verbs.len() == 0 || words.len() == 0 {
        None
    } else if words[0] == verbs[0] {
        Some(verbs[0])
    } else {
        first_word_verb(words, verbs.drop_first())
    }
}

/// The first of `verbs` that the text holds.
pub open spec fn first_held(text: Seq<char>, verbs: Seq<Seq<char>>) -> Option<Seq<char>>
    decreases verbs.len(),
{
    if verbs.len() == 0 {
        None
    } else if holds(text, verbs[0]) {
        Some(verbs[0])
    } else {
        first_held(text, verbs.drop_first())
    }
}

/// The trimmed text after the first occurrence of `keyword`, unless empty.
pub open spec fn after_keyword(text: Seq<char>, keyword: Seq<char>) -> Option<Seq<char>> {
    match find_seq(text, keyword) {
        Some(p) => {
            let after = trim(text.subrange(p + keyword.len(), text.len() as int));
            if after.len() > 0 { Some(after) } else { None }
        },
        None => None,
    }
}

pub open spec fn open_verbs() -> Seq<Seq<char>> {
    seq!["open"@, "launch"@, "start"@, "run"@, "execute"@]
}

pub open spec fn close_verbs() -> Seq<Seq<char>> {
    seq!["close"@, "quit"@, "exit"@, "kill"@, "terminate"@]
}

pub open spec fn search_verbs() -> Seq<Seq<char>> {
    seq!["search"@, "find"@, "look for"@, "google"@, "lookup"@]
}

pub open spec fn file_verbs() -> Seq<Seq<char>> {
    seq!["create"@, "delete"@, "move"@, "copy"@, "rename"@]
}

/// The intent that the rules read from a lowercased sentence.
pub open spec fn intent_rules(text: Seq<char>) -> RuleView {
    let words = ws_words(text);
    if first_word_verb(words, open_verbs()) is Some {
        RuleView {
            category: IntentCategory::OpenApp,
            action: first_word_verb(words, open_verbs())->0,
            target: Some(rest_joined(words)),
            confidence_percent: 90,
        }
    } else if first_word_verb(words, close_verbs()) is Some {
        RuleView {
            category: IntentCategory::CloseApp,
            action: first_word_verb(words, close_verbs())->0,
            target: Some(rest_joined(words)),
            confidence_percent: 90,
        }
    } else if holds(text, "volume up"@) || holds(text, "louder"@) {
        RuleView { category: IntentCategory::SystemControl, action: "volume_up"@, target: None, confidence_percent: 90 }
    } else if holds(text, "volume down"@) || holds(text, "quieter"@) {
        RuleView { category: IntentCategory::SystemControl, action: "volume_down"@, target: None, confidence_percent: 90 }
    } else if holds(text, "mute"@) {
        RuleView { category: IntentCategory::SystemControl, action: "mute"@, target: None, confidence_percent: 90 }
    } else if holds(text, "screenshot"@) || holds(text, "screen shot"@) {
        RuleView { category: IntentCategory::SystemControl, action: "screenshot"@, target: None, confidence_percent: 90 }
    } else if holds(text, "sleep"@) || holds(text, "lock"@) {
        RuleView { category: IntentCategory::SystemControl, action: "lock"@, target: None, confidence_percent: 85 }
    } else if first_held(text, search_verbs()) is Some {
        RuleView {
            category: IntentCategory::Search,
            action: "search"@,
            target: after_keyword(text, first_held(text, search_verbs())->0),
            confidence_percent: 85,
        }
    } else if first_word_verb(words, file_verbs()) is Some {
        RuleView {
            category: IntentCategory::FileOperation,
            action: first_word_verb(words, file_verbs())->0,
            target: Some(rest_joined(words)),
            confidence_percent: 80,
        }
    } else if holds(text, "help"@) || holds(text, "what can you do"@) {
        RuleView { category: IntentCategory::Help, action: "help"@, target: None, confidence_percent: 90 }
    } else {
        RuleView { category: IntentCategory::Unknown, action: Seq::empty(), target: Some(text), confidence_percent: 30 }
    }
}

/// Whether `text` holds `pat`.
fn contains_text(text: &Vec<char>, pat: &str) -> (r: bool)
    ensures
        r == holds(text@, pat@),
{
    let p = chars_of(pat);
    find_seq_exec(text, &p).is_some()
}

/// The first of `verbs` equal to the first word.
fn match_first_word(words: &Vec<String>, verbs: &Vec<&str>) -> (r: Option<usize>)
    ensures
        match r {
            Some(k) => k < verbs@.len() && first_word_verb(
                string_views(words@),
                verbs@.map_values(|v: &str| v@),
            ) == Some(verbs@[k as int]@),
            None => first_word_verb(string_views(words@), verbs@.map_values(|v: &str| v@)) is None,
        },
{
    let ghost ws = string_views(words@);
    let ghost vs = verbs@.map_values(|v: &str| v@);
    if words.len() == 0 {
        return None;
    }
    let mut k: usize = 0;
    assert(vs.subrange(0, vs.len() as int) =~= vs);
    while k < verbs.len()
        invariant
            ws == string_views(words@),
            vs == verbs@.map_values(|v: &str| v@),
            words@.len() > 0,
            k <= verbs@.len(),
            first_word_verb(ws, vs) == first_word_verb(ws, vs.subrange(k as int, vs.len() as int)),
        decreases verbs@.len() - k,
    {
        assert(vs.subrange(k as int, vs.len() as int).drop_first() =~= vs.subrange(k + 1, vs.len() as int));
        assert(ws[0] == words@[0]@);
        if str_eq(words[0].as_str(), verbs[k]) {
            return Some(k);
        }
        k = k + 1;
    }
    None
}

/// The first of `verbs` that `text` holds.
fn match_held(text: &Vec<char>, verbs: &Vec<&str>) -> (r: Option<usize>)
    ensures
        match r {
            Some(k) => k < verbs@.len() && first_held(text@, verbs@.map_values(|v: &str| v@)) == Some(
                verbs@[k as int]@,
            ),
            None => first_held(text@, verbs@.map_values(|v: &str| v@)) is None,
        },
{
    let ghost vs = verbs@.map_values(|v: &str| v@);
    let mut k: usize = 0;
    assert(vs.subrange(0, vs.len() as int) =~= vs);
    while k < verbs.len()
        invariant
            vs == verbs@.map_values(|v: &str| v@),
            k <= verbs@.len(),
            first_held(text@, vs) == first_held(text@, vs.subrange(k as int, vs.len() as int)),
        decreases verbs@.len() - k,
    {
        assert(vs.subrange(k as int, vs.len() as int).drop_first() =~= vs.subrange(k + 1, vs.len() as int));
        if contains_text(text, verbs[k]) {
            return Some(k);
        }
        k = k + 1;
    }
    None
}

/// The words after the first, joined with single spaces.
fn join_rest(words: &Vec<String>) -> (r: String)
    requires
        words@.len() > 0,
    ensures
        r@ == rest_joined(string_views(words@)),
{
    let mut rest: Vec<String> = Vec::new();
    let mut i: usize = 1;
    while i < words.len()
        invariant
            1 <= i <= words@.len(),
            rest@.len() == i - 1,
            forall|j: int| 0 <= j < rest@.len() ==> (#[trigger] rest@[j])@ == words@[j + 1]@,
        decreases words@.len() - i,
    {
        rest.push(to_owned_string(words[i].as_str()));
        i = i + 1;
    }
    assert(string_views(rest@) =~= string_views(words@).drop_first());
    join_words(&rest, " ")
}

/// The trimmed text after the first occurrence of `keyword`, unless empty.
fn extract_after(text: &Vec<char>, keyword: &str) -> (r: Option<String>)
    ensures
        match r {
            Some(s) => after_keyword(text@, keyword@) == Some(s@),
            None => after_keyword(text@, keyword@) is None,
        },
{
    let k = chars_of(keyword);
    match find_seq_exec(text, &k) {
        Some(p) => {
            proof {
                crate::chars::lemma_find_seq(text@, k@);
            }
            let n = text.len();
            let (a, b) = strip_range(text, p + k.len(), n, false);
            if a < b {
                Some(string_of_range(text, a, b))
            } else {
                None
            }
        },
        None => None,
    }
}

/// The target of an intent, or nothing.
pub open spec fn target_or_empty(t: Option<Seq<char>>) -> Seq<char> {
    match t {
        Some(x) => x,
        None => Seq::empty(),
    }
}

/// `c` is the command that the intent `m` stands for.
pub open spec fn stands_for(c: CommandType, m: RuleView) -> bool {
    let target = target_or_empty(m.target);
    match m.category {
        IntentCategory::OpenApp => c matches CommandType::Application(AppCommand::Open(s)) && s@ == target,
        IntentCategory::CloseApp => c matches CommandType::Application(AppCommand::Close(s)) && s@ == target,
        IntentCategory::SystemControl => if m.action == "volume_up"@ {
            c == CommandType::System(SystemCommand::VolumeUp)
        } else if m.action == "volume_down"@ {
            c == CommandType::System(SystemCommand::VolumeDown)
        } else if m.action == "mute"@ {
            c == CommandType::System(SystemCommand::Mute)
        } else if m.action == "screenshot"@ {
            c == CommandType::System(SystemCommand::Screenshot)
        } else if m.action == "lock"@ || m.action == "sleep"@ {
            c == CommandType::System(SystemCommand::Lock)
        } else {
            c matches CommandType::Custom(s) && s@ == m.action
        },
        IntentCategory::Search => c matches CommandType::Search(SearchCommand::Web(s)) && s@ == target,
        IntentCategory::FileOperation => if m.action == "create"@ {
            c matches CommandType::File(FileCommand::Create(s)) && s@ == target
        } else if m.action == "delete"@ {
            c matches CommandType::File(FileCommand::Delete(s)) && s@ == target
        } else if m.action == "find"@ {
            c matches CommandType::File(FileCommand::Find(s)) && s@ == target
        } else {
            c matches CommandType::Custom(s) && s@ == m.action
        },
        _ => c matches CommandType::Custom(s) && s@ == match m.target {
            Some(t) => t,
            None => m.action,
        },
    }
}

/// A verb found as the first word is that word, and one of the verbs.
pub proof fn lemma_first_word_verb_found(words: Seq<Seq<char>>, verbs: Seq<Seq<char>>)
    ensures
        first_word_verb(words, verbs) matches Some(v) ==> words.len() > 0 && words[0] == v && verbs.contains(v),
        words.len() > 0 && verbs.contains(words[0]) ==> first_word_verb(words, verbs) == Some(words[0]),
    decreases verbs.len(),
{
    if verbs.len() > 0 && words.len() > 0 && words[0] != verbs[0] && verbs.contains(words[0]) {
        let k = choose|k: int| 0 <= k < verbs.len() && verbs[k] == words[0];
        assert(verbs.drop_first()[k - 1] == words[0]);
    }
    if verbs.len() > 0 && words.len() > 0 && words[0] != verbs[0] {
        lemma_first_word_verb_found(words, verbs.drop_first());
        if first_word_verb(words, verbs) is Some {
            let v = first_word_verb(words, verbs)->0;
            let k = choose|k: int| 0 <= k < verbs.drop_first().len() && verbs.drop_first()[k] == v;
            assert(verbs[k + 1] == v);
        }
    }
    if verbs.len() > 0 && words.len() > 0 && words[0] == verbs[0] {
        assert(verbs[0] == verbs[0]);
    }
}

/// A sentence that does not start with an open or close verb and speaks of
/// "volume up" or "louder" asks for the volume to go up; one that speaks of
/// neither but of "volume down" or "quieter" asks for it to go down. The
/// command each stands for is the matching system command.
pub proof fn lemma_volume_phrases(text: Seq<char>, c: CommandType)
    requires
        ws_words(text).len() == 0 || (!open_verbs().contains(ws_words(text)[0]) && !close_verbs().contains(
            ws_words(text)[0],
        )),
    ensures
        holds(text, "volume up"@) || holds(text, "louder"@) ==> {
            &&& intent_rules(text).category == IntentCategory::SystemControl
            &&& intent_rules(text).action == "volume_up"@
            &&& (stands_for(c, intent_rules(text)) ==> c == CommandType::System(SystemCommand::VolumeUp))
        },
        !(holds(text, "volume up"@) || holds(text, "louder"@)) && (holds(text, "volume down"@) || holds(
            text,
            "quieter"@,
        )) ==> {
            &&& intent_rules(text).category == IntentCategory::SystemControl
            &&& intent_rules(text).action == "volume_down"@
            &&& (stands_for(c, intent_rules(text)) ==> c == CommandType::System(SystemCommand::VolumeDown))
        },
{
    lemma_first_word_verb_found(ws_words(text), open_verbs());
    lemma_first_word_verb_found(ws_words(text), close_verbs());
    reveal_strlit("volume_up");
    reveal_strlit("volume_down");
    assert("volume_up"@.len() != "volume_down"@.len());
}

/// A sentence whose first word is one of the open verbs asks to open what
/// the rest of it names, with that verb as the action; one whose first word
/// is a close verb asks to close it.
pub proof fn lemma_leading_verb(text: Seq<char>)
    ensures
        ws_words(text).len() > 0 && open_verbs().contains(ws_words(text)[0]) ==> {
            &&& intent_rules(text).category == IntentCategory::OpenApp
            &&& intent_rules(text).action == ws_words(text)[0]
            &&& intent_rules(text).target == Some(join(ws_words(text).drop_first(), " "@))
        },
        ws_words(text).len() > 0 && close_verbs().contains(ws_words(text)[0]) ==> {
            &&& intent_rules(text).category == IntentCategory::CloseApp
            &&& intent_rules(text).action == ws_words(text)[0]
            &&& intent_rules(text).target == Some(join(ws_words(text).drop_first(), " "@))
        },
{
    lemma_first_word_verb_found(ws_words(text), open_verbs());
    lemma_first_word_verb_found(ws_words(text), close_verbs());
    if ws_words(text).len() > 0 && close_verbs().contains(ws_words(text)[0]) {
        reveal_strlit("open");
        reveal_strlit("launch");
        reveal_strlit("start");
        reveal_strlit("run");
        reveal_strlit("execute");
        reveal_strlit("close");
        reveal_strlit("quit");
        reveal_strlit("exit");
        reveal_strlit("kill");
        reveal_strlit("terminate");
        let w = ws_words(text)[0];
        if open_verbs().contains(w) {
            let i = choose|i: int| 0 <= i < open_verbs().len() && open_verbs()[i] == w;
            let j = choose|j: int| 0 <= j < close_verbs().len() && close_verbs()[j] == w;
            assert(open_verbs()[i][0] != close_verbs()[j][0] || open_verbs()[i].len() != close_verbs()[j].len());
        }
    }
}

/// The rules ask for the volume to go up only on a sentence that speaks of
/// "volume up" or "louder", and down only on one that speaks of "volume
/// down" or "quieter" (and of neither of the first two); they ask to mute
/// only on one that speaks of "mute", for a screenshot only on one that
/// speaks of a screenshot, to lock only on one that speaks of sleep or a
/// lock, and for help only on one that asks for it.
pub proof fn lemma_volume_actions_need_phrases(text: Seq<char>)
    ensures
        intent_rules(text).action == "volume_up"@ ==> holds(text, "volume up"@) || holds(text, "louder"@),
        intent_rules(text).action == "volume_down"@ ==> !(holds(text, "volume up"@) || holds(text, "louder"@))
            && (holds(text, "volume down"@) || holds(text, "quieter"@)),
        intent_rules(text).action == "mute"@ ==> holds(text, "mute"@),
        intent_rules(text).action == "screenshot"@ ==> holds(text, "screenshot"@) || holds(text, "screen shot"@),
        intent_rules(text).action == "lock"@ ==> holds(text, "sleep"@) || holds(text, "lock"@),
        intent_rules(text).action == "help"@ ==> holds(text, "help"@) || holds(text, "what can you do"@),
{
    let words = ws_words(text);
    lemma_first_word_verb_found(words, open_verbs());
    lemma_first_word_verb_found(words, close_verbs());
    lemma_first_word_verb_found(words, file_verbs());
    if first_word_verb(words, open_verbs()) is Some {
        let v = first_word_verb(words, open_verbs())->0;
        let k = choose|k: int| 0 <= k < open_verbs().len() && open_verbs()[k] == v;
        assert(v == "open"@ || v == "launch"@ || v == "start"@ || v == "run"@ || v == "execute"@);
    }
    if first_word_verb(words, close_verbs()) is Some {
        let v = first_word_verb(words, close_verbs())->0;
        let k = choose|k: int| 0 <= k < close_verbs().len() && close_verbs()[k] == v;
        assert(v == "close"@ || v == "quit"@ || v == "exit"@ || v == "kill"@ || v == "terminate"@);
    }
    if first_word_verb(words, file_verbs()) is Some {
        let v = first_word_verb(words, file_verbs())->0;
        let k = choose|k: int| 0 <= k < file_verbs().len() && file_verbs()[k] == v;
        assert(v == "create"@ || v == "delete"@ || v == "move"@ || v == "copy"@ || v == "rename"@);
    }
    reveal_strlit("volume_up");
    reveal_strlit("volume_down");
    reveal_strlit("mute");
    reveal_strlit("screenshot");
    reveal_strlit("lock");
    reveal_strlit("search");
    reveal_strlit("help");
    reveal_strlit("open");
    reveal_strlit("launch");
    reveal_strlit("start");
    reveal_strlit("run");
    reveal_strlit("execute");
    reveal_strlit("close");
    reveal_strlit("quit");
    reveal_strlit("exit");
    reveal_strlit("kill");
    reveal_strlit("terminate");
    reveal_strlit("create");
    reveal_strlit("delete");
    reveal_strlit("move");
    reveal_strlit("copy");
    reveal_strlit("rename");
    assert("volume_up"@[0] == 'v');
    assert("volume_down"@[0] == 'v');
    assert("volume_up"@.len() != "volume_down"@.len());
    assert("mute"@[0] != "lock"@[0]);
    assert("mute"@[0] != "help"@[0]);
    assert("lock"@[0] != "help"@[0]);
    assert("mute"@[0] != "open"@[0]);
    assert("mute"@[0] != "quit"@[0]);
    assert("mute"@[0] != "exit"@[0]);
    assert("mute"@[0] != "kill"@[0]);
    assert("mute"@[1] != "move"@[1]);
    assert("mute"@[0] != "copy"@[0]);
    assert("lock"@[0] != "open"@[0]);
    assert("lock"@[0] != "quit"@[0]);
    assert("lock"@[0] != "exit"@[0]);
    assert("lock"@[0] != "kill"@[0]);
    assert("lock"@[0] != "move"@[0]);
    assert("lock"@[0] != "copy"@[0]);
    assert("screenshot"@[0] != "search"@[0] || "screenshot"@.len() != "search"@.len());
    assert("mute"@.len() == 4);
    assert("lock"@.len() == 4);
    assert("help"@.len() == 4);
    assert("screenshot"@.len() == 10);
}

/// Reads intents from sentences by fixed rules.
#[derive(Debug, Clone, Copy, PartialEq, Eq, Structural)]
pub struct IntentClassifier;

impl IntentClassifier {
    /// The classifier.
    pub fn new() -> (r: Self)
        ensures
            r == IntentClassifier,
    {
        IntentClassifier
    }

    /// The intent that the rules read from `text`, after lowercasing it.
    pub fn classify_rules(&self, text: &str) -> (r: RuleMatch)
        ensures
            r@ == intent_rules(unicode_lowercase(text@)),
    {
        let lower = str_to_lowercase(text);
        let chars = chars_of(lower.as_str());
        let words = split_ws(lower.as_str());
        let ghost t = lower@;
        let ghost ws = ws_words(t);
        let open: Vec<&str> = vec!["open", "launch", "start", "run", "execute"];
        let close: Vec<&str> = vec!["close", "quit", "exit", "kill", "terminate"];
        let search: Vec<&str> = vec!["search", "find", "look for", "google", "lookup"];
        let file: Vec<&str> = vec!["create", "delete", "move", "copy", "rename"];
        assert(open@.map_values(|v: &str| v@) =~= open_verbs());
        assert(close@.map_values(|v: &str| v@) =~= close_verbs());
        assert(search@.map_values(|v: &str| v@) =~= search_verbs());
        assert(file@.map_values(|v: &str| v@) =~= file_verbs());
        if let Some(k) = match_first_word(&words, &open) {
            return RuleMatch {
                category: IntentCategory::OpenApp,
                action: to_owned_string(open[k]),
                target: Some(join_rest(&words)),
                confidence_percent: 90,
            };
        }
        if let Some(k) = match_first_word(&words, &close) {
            return RuleMatch {
                category: IntentCategory::CloseApp,
                action: to_owned_string(close[k]),
                target: Some(join_rest(&words)),
                confidence_percent: 90,
            };
        }
        if contains_text(&chars, "volume up") || contains_text(&chars, "louder") {
            return RuleMatch {
                category: IntentCategory::SystemControl,
                action: to_owned_string("volume_up"),
                target: None,
                confidence_percent: 90,
            };
        }
        if contains_text(&chars, "volume down") || contains_text(&chars, "quieter") {
            return RuleMatch {
                category: IntentCategory::SystemControl,
                action: to_owned_string("volume_down"),
                target: None,
                confidence_percent: 90,
            };
        }
        if contains_text(&chars, "mute") {
            return RuleMatch {
                category: IntentCategory::SystemControl,
                action: to_owned_string("mute"),
                target: None,
                confidence_percent: 90,
            };
        }
        if contains_text(&chars, "screenshot") || contains_text(&chars, "screen shot") {
            return RuleMatch {
                category: IntentCategory::SystemControl,
                action: to_owned_string("screenshot"),
                target: None,
                confidence_percent: 90,
            };
        }
        if contains_text(&chars, "sleep") || contains_text(&chars, "lock") {
            return RuleMatch {
                category: IntentCategory::SystemControl,
                action: to_owned_string("lock"),
                target: None,
                confidence_percent: 85,
            };
        }
        if let Some(k) = match_held(&chars, &search) {
            return RuleMatch {
                category: IntentCategory::Search,
                action: to_owned_string("search"),
                target: extract_after(&chars, search[k]),
                confidence_percent: 85,
            };
        }
        if let Some(k) = match_first_word(&words, &file) {
            return RuleMatch {
                category: IntentCategory::FileOperation,
                action: to_owned_string(file[k]),
                target: Some(join_rest(&words)),
                confidence_percent: 80,
            };
        }
        if contains_text(&chars, "help") || contains_text(&chars, "what can you do") {
            return RuleMatch {
                category: IntentCategory::Help,
                action: to_owned_string("help"),
                target: None,
                confidence_percent: 90,
            };
        }
        RuleMatch {
            category: IntentCategory::Unknown,
            action: String::new(),
            target: Some(lower),
            confidence_percent: 30,
        }
    }

    /// The command that an intent stands for.
    pub fn to_command_type(&self, intent: &RuleMatch) -> (r: CommandType)
        ensures
            stands_for(r, intent@),
    {
        let target = match &intent.target {
            Some(t) => to_owned_string(t.as_str()),
            None => String::new(),
        };
        match intent.category {
            IntentCategory::OpenApp => CommandType::Application(AppCommand::Open(target)),
            IntentCategory::CloseApp => CommandType::Application(AppCommand::Close(target)),
            IntentCategory::SystemControl => {
                let a = intent.action.as_str();
                if str_eq(a, "volume_up") {
                    CommandType::System(SystemCommand::VolumeUp)
                } else if str_eq(a, "volume_down") {
                    CommandType::System(SystemCommand::VolumeDown)
                } else if str_eq(a, "mute") {
                    CommandType::System(SystemCommand::Mute)
                } else if str_eq(a, "screenshot") {
                    CommandType::System(SystemCommand::Screenshot)
                } else if str_eq(a, "lock") || str_eq(a, "sleep") {
                    CommandType::System(SystemCommand::Lock)
                } else {
                    CommandType::Custom(to_owned_string(a))
                }
            },
            IntentCategory::Search => CommandType::Search(SearchCommand::Web(target)),
            IntentCategory::FileOperation => {
                let a = intent.action.as_str();
                if str_eq(a, "create") {
                    CommandType::File(FileCommand::Create(target))
                } else if str_eq(a, "delete") {
                    CommandType::File(FileCommand::Delete(target))
                } else if str_eq(a, "find") {
                    CommandType::File(FileCommand::Find(target))
                } else {
                    CommandType::Custom(to_owned_string(a))
                }
            },
            _ => match &intent.target {
                Some(t) => CommandType::Custom(to_owned_string(t.as_str())),
                None => CommandType::Custom(to_owned_string(intent.action.as_str())),
            },
        }
    }
}

impl Default for IntentClassifier {
    fn default() -> (r: Self)
        ensures
            r == IntentClassifier,
    {
        IntentClassifier
    }
}

/// The two hexadecimal digits (or more) of a code point, uppercase.
pub open spec fn hex_digits(n: nat) -> Seq<char>
    decreases n,
{
    if n < 16 {
        seq![hex_char(n)]
    } else {
        hex_digits(n / 16).push(hex_char(n % 16))
    }
}

/// The uppercase hexadecimal digit for `d`.
pub open spec fn hex_char(d: nat) -> char {
    if d < 10 {
        ((d + 48) as u32) as char
    } else {
        ((d + 55) as u32) as char
    }
}

/// `%` and at least two uppercase hexadecimal digits of a code point.
pub open spec fn percent_code(n: nat) -> Seq<char> {
    if n < 16 {
        seq!['%', '0', hex_char(n)]
    } else {
        seq!['%'] + hex_digits(n)
    }
}

/// A character in URL query form: unreserved characters as they are, a
/// space as `+`, others as `%` and their code point in hexadecimal.
pub open spec fn url_char(c: char) -> Seq<char> {
    if ('a' <= c <= 'z') || ('A' <= c <= 'Z') || ('0' <= c <= '9') || c == '-' || c == '_' || c == '.' || c
        == '~' {
        seq![c]
    } else if c == ' ' {
        seq!['+']
    } else {
        percent_code((c as u32) as nat)
    }
}

/// A text in URL query form.
pub open spec fn url_encoded(s: Seq<char>) -> Seq<char>
    decreases s.len(),
{
    if s.len() == 0 {
        Seq::empty()
    } else {
        url_encoded(s.drop_last()) + url_char(s.last())
    }
}

/// The uppercase hexadecimal digit for `d`.
fn hex_digit(d: u32) -> (c: char)
    requires
        d < 16,
    ensures
        c == hex_char(d as nat),
{
    if d == 0 { '0' } else if d == 1 { '1' } else if d == 2 { '2' } else if d == 3 { '3' }
    else if d == 4 { '4' } else if d == 5 { '5' } else if d == 6 { '6' } else if d == 7 { '7' }
    else if d == 8 { '8' } else if d == 9 { '9' } else if d == 10 { 'A' } else if d == 11 { 'B' }
    else if d == 12 { 'C' } else if d == 13 { 'D' } else if d == 14 { 'E' } else { 'F' }
}

/// Append the hexadecimal digits of `n`.
fn push_hex(out: &mut String, n: u32)
    ensures
        final(out)@ == old(out)@ + hex_digits(n as nat),
    decreases n,
{
    if n < 16 {
        string_push(out, hex_digit(n));
        assert(hex_digits(n as nat) =~= seq![hex_char(n as nat)]);
    } else {
        push_hex(out, n / 16);
        string_push(out, hex_digit(n % 16));
        assert(old(out)@ + hex_digits(n as nat) =~= old(out)@ + hex_digits((n / 16) as nat) + seq![
            hex_char((n % 16) as nat),
        ]);
    }
}

/// `s` in URL query form.
pub fn urlencoded(s: &str) -> (r: String)
    ensures
        r@ == url_encoded(s@),
{
    let chars = chars_of(s);
    let n = chars.len();
    let mut out = String::new();
    let mut i: usize = 0;
    while i < n
        invariant
            n == chars@.len(),
            chars@ == s@,
            i <= n,
            out@ == url_encoded(chars@.subrange(0, i as int)),
        decreases n - i,
    {
        let c = chars[i];
        assert(chars@.subrange(0, i + 1).drop_last() =~= chars@.subrange(0, i as int));
        let ghost before = out@;
        if ('a' <= c && c <= 'z') || ('A' <= c && c <= 'Z') || ('0' <= c && c <= '9') || c == '-' || c == '_'
            || c == '.' || c == '~' {
            string_push(&mut out, c);
        } else if c == ' ' {
            string_push(&mut out, '+');
        } else {
            let code = c as u32;
            string_push(&mut out, '%');
            if code < 16 {
                string_push(&mut out, '0');
                string_push(&mut out, hex_digit(code));
                assert(out@ =~= before + percent_code(code as nat));
            } else {
                let ghost mid = out@;
                push_hex(&mut out, code);
                assert(out@ =~= before + percent_code(code as nat));
            }
        }
        assert(out@ =~= before + url_char(c));
        i = i + 1;
    }
    assert(chars@.subrange(0, n as int) =~= s@);
    out
}

/// Runs commands; holds no state of its own.
#[derive(Debug, Clone, Copy, PartialEq, Eq, Structural)]
pub struct CommandExecutor;

impl CommandExecutor {
    /// The executor.
    pub fn new() -> (r: Self)
        ensures
            r == CommandExecutor,
    {
        CommandExecutor
    }
}

impl Default for CommandExecutor {
    fn default() -> (r: Self)
        ensures
            r == CommandExecutor,
    {
        CommandExecutor
    }
}

/// The address of a web search for `query`.
pub fn web_search_url(query: &str) -> (r: String)
    ensures
        r@ == "https://www.google.com/search?q="@ + url_encoded(query@),
{
    let mut out = to_owned_string("https://www.google.com/search?q=");
    let q = urlencoded(query);
    string_push_str(&mut out, q.as_str());
    out
}

} // verus!
