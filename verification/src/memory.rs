//! Memory: the categories, importance levels and layers of remembered
//! things, where a memory came from, the sessions that hold a user's
//! long-term memories, and the importance a consolidated summary takes.

use vstd::prelude::*;
use crate::text::{str_eq, string_push_str, to_owned_string};

verus! {

/// What a long-term memory is about.
#[derive(Debug, Clone, Copy, PartialEq, Eq, Hash, Structural)]
pub enum MemoryCategory {
    /// Likes, dislikes, settings.
    Preference,
    /// Facts about the user.
    Fact,
    /// Things learned.
    Knowledge,
    /// Tasks and projects.
    Task,
    /// People and connections.
    Relationship,
    /// Appointments and deadlines.
    Event,
    /// A summary of a conversation.
    Summary,
    General,
}

impl Default for MemoryCategory {
    fn default() -> (r: Self)
        ensures
            r == MemoryCategory::General,
    {
        MemoryCategory::General
    }
}

/// The name of a category.
pub open spec fn category_name(c: MemoryCategory) -> Seq<char> {
    match c {
        MemoryCategory::Preference => "preference"@,
        MemoryCategory::Fact => "fact"@,
        MemoryCategory::Knowledge => "knowledge"@,
        MemoryCategory::Task => "task"@,
        MemoryCategory::Relationship => "relationship"@,
        MemoryCategory::Event => "event"@,
        MemoryCategory::Summary => "summary"@,
        MemoryCategory::General => "general"@,
    }
}

/// The category named `name`; any other name is general.
pub open spec fn category_named(name: Seq<char>) -> MemoryCategory {
    if name == "preference"@ {
        MemoryCategory::Preference
    } else if name == "fact"@ {
        MemoryCategory::Fact
    } else if name == "knowledge"@ {
        MemoryCategory::Knowledge
    } else if name == "task"@ {
        MemoryCategory::Task
    } else if name == "relationship"@ {
        MemoryCategory::Relationship
    } else if name == "event"@ {
        MemoryCategory::Event
    } else if name == "summary"@ {
        MemoryCategory::Summary
    } else {
        MemoryCategory::General
    }
}

impl MemoryCategory {
    /// The category's name, in lower case.
    pub fn name(&self) -> (r: &'static str)
        ensures
            r@ == category_name(*self),
    {
        match self {
            MemoryCategory::Preference => "preference",
            MemoryCategory::Fact => "fact",
            MemoryCategory::Knowledge => "knowledge",
            MemoryCategory::Task => "task",
            MemoryCategory::Relationship => "relationship",
            MemoryCategory::Event => "event",
            MemoryCategory::Summary => "summary",
            MemoryCategory::General => "general",
        }
    }

    /// The category named `name`; any other name is general.
    pub fn from_name(name: &str) -> (r: Self)
        ensures
            r == category_named(name@),
    {
        if str_eq(name, "preference") {
            MemoryCategory::Preference
        } else if str_eq(name, "fact") {
            MemoryCategory::Fact
        } else if str_eq(name, "knowledge") {
            MemoryCategory::Knowledge
        } else if str_eq(name, "task") {
            MemoryCategory::Task
        } else if str_eq(name, "relationship") {
            MemoryCategory::Relationship
        } else if str_eq(name, "event") {
            MemoryCategory::Event
        } else if str_eq(name, "summary") {
            MemoryCategory::Summary
        } else {
            MemoryCategory::General
        }
    }
}

/// A category's name read back gives the category.
pub proof fn lemma_category_name_roundtrip(c: MemoryCategory)
    ensures
        category_named(category_name(c)) == c,
{
    reveal_strlit("preference");
    reveal_strlit("fact");
    reveal_strlit("knowledge");
    reveal_strlit("task");
    reveal_strlit("relationship");
    reveal_strlit("event");
    reveal_strlit("summary");
    reveal_strlit("general");
    match c {
        MemoryCategory::Preference => {
        },
        MemoryCategory::Fact => {
            assert("fact"@.len() != "preference"@.len());
            assert("fact"@ != "preference"@);
        },
        MemoryCategory::Knowledge => {
            assert("knowledge"@.len() != "preference"@.len());
            assert("knowledge"@ != "preference"@);
            assert("knowledge"@.len() != "fact"@.len());
            assert("knowledge"@ != "fact"@);
        },
        MemoryCategory::Task => {
            assert("task"@.len() != "preference"@.len());
            assert("task"@ != "preference"@);
            assert("task"@[0] != "fact"@[0]);
            assert("task"@ != "fact"@);
            assert("task"@.len() != "knowledge"@.len());
            assert("task"@ != "knowledge"@);
        },
        MemoryCategory::Relationship => {
            assert("relationship"@.len() != "preference"@.len());
            assert("relationship"@ != "preference"@);
            assert("relationship"@.len() != "fact"@.len());
            assert("relationship"@ != "fact"@);
            assert("relationship"@.len() != "knowledge"@.len());
            assert("relationship"@ != "knowledge"@);
            assert("relationship"@.len() != "task"@.len());
            assert("relationship"@ != "task"@);
        },
        MemoryCategory::Event => {
            assert("event"@.len() != "preference"@.len());
            assert("event"@ != "preference"@);
            assert("event"@.len() != "fact"@.len());
            assert("event"@ != "fact"@);
            assert("event"@.len() != "knowledge"@.len());
            assert("event"@ != "knowledge"@);
            assert("event"@.len() != "task"@.len());
            assert("event"@ != "task"@);
            assert("event"@.len() != "relationship"@.len());
            assert("event"@ != "relationship"@);
        },
        MemoryCategory::Summary => {
            assert("summary"@.len() != "preference"@.len());
            assert("summary"@ != "preference"@);
            assert("summary"@.len() != "fact"@.len());
            assert("summary"@ != "fact"@);
            assert("summary"@.len() != "knowledge"@.len());
            assert("summary"@ != "knowledge"@);
            assert("summary"@.len() != "task"@.len());
            assert("summary"@ != "task"@);
            assert("summary"@.len() != "relationship"@.len());
            assert("summary"@ != "relationship"@);
            assert("summary"@.len() != "event"@.len());
            assert("summary"@ != "event"@);
        },
        MemoryCategory::General => {
            assert("general"@.len() != "preference"@.len());
            assert("general"@ != "preference"@);
            assert("general"@.len() != "fact"@.len());
            assert("general"@ != "fact"@);
            assert("general"@.len() != "knowledge"@.len());
            assert("general"@ != "knowledge"@);
            assert("general"@.len() != "task"@.len());
            assert("general"@ != "task"@);
            assert("general"@.len() != "relationship"@.len());
            assert("general"@ != "relationship"@);
            assert("general"@.len() != "event"@.len());
            assert("general"@ != "event"@);
            assert("general"@[0] != "summary"@[0]);
            assert("general"@ != "summary"@);
        },
    }
}

/// How important a memory is, least first.
#[derive(Debug, Clone, Copy, PartialEq, Eq, PartialOrd, Ord, Hash, Structural)]
pub enum Importance {
    /// May be forgotten.
    Low,
    Normal,
    /// Should be kept.
    High,
    /// Never forgotten.
    Critical,
}

impl Default for Importance {
    fn default() -> (r: Self)
        ensures
            r == Importance::Normal,
    {
        Importance::Normal
    }
}

/// The level of an importance, from 1 for low to 4 for critical.
pub open spec fn importance_level(i: Importance) -> u8 {
    match i {
        Importance::Low => 1,
        Importance::Normal => 2,
        Importance::High => 3,
        Importance::Critical => 4,
    }
}

impl Importance {
    /// The level, from 1 for low to 4 for critical.
    pub fn level(&self) -> (r: u8)
        ensures
            r == importance_level(*self),
    {
        match self {
            Importance::Low => 1,
            Importance::Normal => 2,
            Importance::High => 3,
            Importance::Critical => 4,
        }
    }

    /// The importance of level `level`; any other level is normal.
    pub fn from_level(level: u64) -> (r: Self)
        ensures
            1 <= level <= 4 ==> importance_level(r) == level,
            !(1 <= level <= 4) ==> r == Importance::Normal,
    {
        if level == 1 {
            Importance::Low
        } else if level == 3 {
            Importance::High
        } else if level == 4 {
            Importance::Critical
        } else {
            Importance::Normal
        }
    }

    /// Whether this importance is above `other`.
    pub fn exceeds(&self, other: &Importance) -> (r: bool)
        ensures
            r == (importance_level(*self) > importance_level(*other)),
    {
        self.level() > other.level()
    }
}

/// The most important of `levels`, normal when there is none.
pub open spec fn max_importance_of(levels: Seq<Importance>) -> Importance
    decreases levels.len(),
{
    if levels.len() == 0 {
        Importance::Normal
    } else if levels.len() == 1 {
        levels[0]
    } else {
        let rest = max_importance_of(levels.drop_last());
        if importance_level(levels.last()) > importance_level(rest) {
            levels.last()
        } else {
            rest
        }
    }
}

/// The most important of `levels`, normal when there is none: what a
/// consolidated summary is given.
pub fn max_importance(levels: &Vec<Importance>) -> (r: Importance)
    ensures
        r == max_importance_of(levels@),
        levels@.len() > 0 ==> levels@.contains(r),
        forall|i: int| 0 <= i < levels@.len() ==> importance_level(#[trigger] levels@[i]) <= importance_level(r),
{
    if levels.len() == 0 {
        return Importance::Normal;
    }
    let mut best = levels[0];
    let mut i: usize = 1;
    assert(levels@.take(1) =~= seq![levels@[0]]);
    while i < levels.len()
        invariant
            1 <= i <= levels@.len(),
            best == max_importance_of(levels@.take(i as int)),
            levels@.take(i as int).contains(best),
            forall|j: int| 0 <= j < i ==> importance_level(#[trigger] levels@[j]) <= importance_level(best),
        decreases levels@.len() - i,
    {
        proof {
            assert(levels@.take(i as int + 1).drop_last() =~= levels@.take(i as int));
            assert(levels@.take(i as int + 1).last() == levels@[i as int]);
        }
        if levels[i].exceeds(&best) {
            best = levels[i];
            assert(levels@.take(i as int + 1)[i as int] == best);
        } else {
            let ghost w = choose|w: int| 0 <= w < i && levels@.take(i as int)[w] == best;
            assert(levels@.take(i as int + 1)[w] == best);
        }
        i = i + 1;
    }
    assert(levels@.take(i as int) =~= levels@);
    best
}

/// The prefix of the sessions holding long-term memories.
pub open spec fn longterm_prefix() -> Seq<char> {
    "__longterm__"@
}

/// The session holding the long-term memories of `user_id`.
pub fn longterm_session(user_id: &str) -> (r: String)
    ensures
        r@ == longterm_prefix() + user_id@,
{
    let mut out = to_owned_string("__longterm__");
    string_push_str(&mut out, user_id);
    out
}

/// The user whose long-term memories session `session_id` holds, if it
/// is such a session.
pub fn longterm_user(session_id: &str) -> (r: Option<String>)
    ensures
        match r {
            Some(u) => session_id@ == longterm_prefix() + u@,
            None => !(exists|u: Seq<char>| session_id@ == longterm_prefix() + u),
        },
{
    let chars = crate::text::chars_of(session_id);
    let prefix = crate::text::chars_of("__longterm__");
    let n = prefix.len();
    if chars.len() < n {
        proof {
            assert forall|u: Seq<char>| session_id@ != longterm_prefix() + u by {
                assert((longterm_prefix() + u).len() >= prefix@.len());
            }
        }
        return None;
    }
    let mut i: usize = 0;
    while i < n
        invariant
            i <= n,
            n == prefix@.len(),
            n <= chars@.len(),
            chars@ == session_id@,
            prefix@ == longterm_prefix(),
            forall|j: int| 0 <= j < i ==> chars@[j] == prefix@[j],
        decreases n - i,
    {
        if chars[i] != prefix[i] {
            proof {
                assert forall|u: Seq<char>| session_id@ != longterm_prefix() + u by {
                    if session_id@ == longterm_prefix() + u {
                        assert(chars@[i as int] == (longterm_prefix() + u)[i as int]);
                    }
                }
            }
            return None;
        }
        i = i + 1;
    }
    let user = crate::chars::string_of_range(&chars, n, chars.len());
    assert(session_id@ =~= longterm_prefix() + user@);
    Some(user)
}

/// A user's session read back gives the user.
pub proof fn lemma_longterm_session_roundtrip(u: Seq<char>, v: Seq<char>)
    requires
        longterm_prefix() + u == longterm_prefix() + v,
    ensures
        u == v,
{
    assert(u =~= (longterm_prefix() + u).skip(longterm_prefix().len() as int));
    assert(v =~= (longterm_prefix() + v).skip(longterm_prefix().len() as int));
}

/// The layers a memory passes through.
#[derive(Debug, Clone, Copy, PartialEq, Eq, Hash, Structural)]
pub enum MemoryLayer {
    /// The current context.
    Working,
    /// Recent, not current.
    ShortTerm,
    /// Experiences and events.
    LongTermEpisodic,
    /// Facts, knowledge, patterns.
    LongTermSemantic,
    /// Skills.
    Procedural,
}

/// How long a memory stays in `l`, in milliseconds; none for ever.
pub open spec fn layer_retention(l: MemoryLayer) -> Option<i64> {
    match l {
        MemoryLayer::Working => Some(3_600_000),
        MemoryLayer::ShortTerm => Some(86_400_000),
        MemoryLayer::LongTermEpisodic => Some(7_776_000_000),
        MemoryLayer::LongTermSemantic => None,
        MemoryLayer::Procedural => None,
    }
}

/// The layer a memory of `l` is promoted to.
pub open spec fn next_layer(l: MemoryLayer) -> MemoryLayer {
    match l {
        MemoryLayer::Working => MemoryLayer::ShortTerm,
        MemoryLayer::ShortTerm => MemoryLayer::LongTermEpisodic,
        other => other,
    }
}

impl MemoryLayer {
    /// How long a memory stays in this layer, in milliseconds: an hour in
    /// working memory, a day in short-term, ninety days in episodic memory,
    /// for ever in the others.
    pub fn default_retention_millis(&self) -> (r: Option<i64>)
        ensures
            r == layer_retention(*self),
    {
        match self {
            MemoryLayer::Working => Some(3_600_000),
            MemoryLayer::ShortTerm => Some(86_400_000),
            MemoryLayer::LongTermEpisodic => Some(7_776_000_000),
            MemoryLayer::LongTermSemantic => None,
            MemoryLayer::Procedural => None,
        }
    }

    /// How much the layer counts in recall, higher first.
    pub fn priority(&self) -> (r: u8)
        ensures
            r == match *self {
                MemoryLayer::Working => 10u8,
                MemoryLayer::ShortTerm => 8u8,
                MemoryLayer::LongTermSemantic => 6u8,
                MemoryLayer::LongTermEpisodic => 4u8,
                MemoryLayer::Procedural => 5u8,
            },
    {
        match self {
            MemoryLayer::Working => 10,
            MemoryLayer::ShortTerm => 8,
            MemoryLayer::LongTermSemantic => 6,
            MemoryLayer::LongTermEpisodic => 4,
            MemoryLayer::Procedural => 5,
        }
    }

    /// The layer a memory of this layer is promoted to; the long-term
    /// layers keep it.
    pub fn promoted(&self) -> (r: MemoryLayer)
        ensures
            r == next_layer(*self),
    {
        match self {
            MemoryLayer::Working => MemoryLayer::ShortTerm,
            MemoryLayer::ShortTerm => MemoryLayer::LongTermEpisodic,
            other => *other,
        }
    }
}

/// Promotion ends in a layer that is kept: twice promoted, a memory stays.
pub proof fn lemma_promotion_settles(l: MemoryLayer)
    ensures
        next_layer(next_layer(next_layer(l))) == next_layer(next_layer(l)),
{
}

/// Where memories come from.
#[derive(Debug, Clone, Copy, PartialEq, Eq, Structural)]
pub enum SourceType {
    Conversation,
    Document,
    /// Saved by the user.
    UserSaved,
    /// Learned from corrections.
    Correction,
    /// Inferred from behavior.
    Inferred,
    /// From an integration.
    Integration,
}

/// The context a memory came from.
#[derive(Debug, Clone, PartialEq, Eq)]
pub struct MemorySource {
    pub session_id: Option<String>,
    pub user_id: Option<String>,
    pub channel_id: Option<String>,
    pub source_type: SourceType,
}

impl Default for MemorySource {
    fn default() -> (r: Self)
        ensures
            r.session_id is None,
            r.user_id is None,
            r.channel_id is None,
            r.source_type == SourceType::Conversation,
    {
        MemorySource { session_id: None, user_id: None, channel_id: None, source_type: SourceType::Conversation }
    }
}

impl MemorySource {
    /// A conversation in session `session_id`.
    pub fn from_session(session_id: &str) -> (r: Self)
        ensures
            r.session_id matches Some(s) && s@ == session_id@,
            r.user_id is None,
            r.channel_id is None,
            r.source_type == SourceType::Conversation,
    {
        MemorySource {
            session_id: Some(to_owned_string(session_id)),
            user_id: None,
            channel_id: None,
            source_type: SourceType::Conversation,
        }
    }

    /// The same source with user `user_id`.
    pub fn with_user(self, user_id: &str) -> (r: Self)
        ensures
            r.user_id matches Some(u) && u@ == user_id@,
            r.session_id == self.session_id,
            r.channel_id == self.channel_id,
            r.source_type == self.source_type,
    {
        MemorySource { user_id: Some(to_owned_string(user_id)), ..self }
    }

    /// The same source with channel `channel_id`.
    pub fn with_channel(self, channel_id: &str) -> (r: Self)
        ensures
            r.channel_id matches Some(c) && c@ == channel_id@,
            r.session_id == self.session_id,
            r.user_id == self.user_id,
            r.source_type == self.source_type,
    {
        MemorySource { channel_id: Some(to_owned_string(channel_id)), ..self }
    }
}

} // verus!
