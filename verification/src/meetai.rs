//! Meeting assistant: meetings with participants and a transcript, action
//! items and decisions picked out of what was said, summaries with
//! per-participant word counts, and meeting statistics.
//!
//! Confidences and shares of speech are given in whole percent and in
//! thousandths; instants in milliseconds since the Unix epoch.

use vstd::prelude::*;
use crate::chars::{char_is_whitespace, find_seq, find_seq_exec, is_ws};
use crate::clock::utc_now_millis;
use crate::memory_graph::copy_strings;
use crate::ids::{new_uuid, uuid_eq, uuid_text};
use crate::text::{
    chars_of, push_decimal_i64, signed_decimal, str_to_lowercase, string_push_str, to_owned_string,
    unicode_lowercase,
};

verus! {

/// Errors of the meeting assistant.
#[derive(Debug, Clone, PartialEq, Eq)]
pub enum MeetingError {
    NotFound(String),
    TranscriptionFailed(String),
    AnalysisFailed(String),
}

impl MeetingError {
    /// The error's description.
    pub fn message(&self) -> (r: String)
        ensures
            r@ == match self {
                MeetingError::NotFound(s) => "Meeting not found: "@ + s@,
                MeetingError::TranscriptionFailed(s) => "Transcription failed: "@ + s@,
                MeetingError::AnalysisFailed(s) => "Analysis failed: "@ + s@,
            },
    {
        let (head, s) = match self {
            MeetingError::NotFound(s) => ("Meeting not found: ", s),
            MeetingError::TranscriptionFailed(s) => ("Transcription failed: ", s),
            MeetingError::AnalysisFailed(s) => ("Analysis failed: ", s),
        };
        let mut out = to_owned_string(head);
        string_push_str(&mut out, s.as_str());
        out
    }
}

/// Where a meeting stands.
#[derive(Debug, Clone, Copy, PartialEq, Eq, Structural)]
pub enum MeetingStatus {
    Scheduled,
    InProgress,
    Ended,
    Cancelled,
}

/// The part a participant plays.
#[derive(Debug, Clone, Copy, PartialEq, Eq, Structural)]
pub enum ParticipantRole {
    Host,
    Presenter,
    Attendee,
    Guest,
}

/// Someone in a meeting.
#[derive(Debug)]
pub struct Participant {
    pub id: uuid::Uuid,
    pub name: String,
    pub email: Option<String>,
    pub role: ParticipantRole,
    /// In seconds.
    pub speaking_time: u64,
    pub joined_at_millis: i64,
    pub left_at_millis: Option<i64>,
}

fn dup_opt(o: &Option<String>) -> (r: Option<String>)
    ensures
        r == *o,
{
    match o {
        Some(s) => Some(s.clone()),
        None => None,
    }
}

impl Participant {
    /// A participant `name` in `role` under the identifier `id`, joined at
    /// `now_millis`, with no email and no speaking time.
    pub fn new_at(id: uuid::Uuid, name: &str, role: ParticipantRole, now_millis: i64) -> (r: Self)
        ensures
            r.id == id,
            r.name@ == name@,
            r.email is None,
            r.role == role,
            r.speaking_time == 0,
            r.joined_at_millis == now_millis,
            r.left_at_millis is None,
    {
        Participant {
            id,
            name: to_owned_string(name),
            email: None,
            role,
            speaking_time: 0,
            joined_at_millis: now_millis,
            left_at_millis: None,
        }
    }

    /// A participant `name` in `role` under a fresh random identifier,
    /// joined now.
    pub fn new(name: &str, role: ParticipantRole) -> (r: Self)
        ensures
            r.name@ == name@,
            r.email is None,
            r.role == role,
            r.speaking_time == 0,
            r.left_at_millis is None,
    {
        Participant::new_at(new_uuid(), name, role, utc_now_millis())
    }

    /// A copy of the participant.
    pub fn duplicate(&self) -> (r: Self)
        ensures
            r == *self,
    {
        Participant {
            id: self.id,
            name: self.name.clone(),
            email: dup_opt(&self.email),
            role: self.role,
            speaking_time: self.speaking_time,
            joined_at_millis: self.joined_at_millis,
            left_at_millis: self.left_at_millis,
        }
    }
}

/// A stretch of what was said.
#[derive(Debug)]
pub struct TranscriptEntry {
    pub id: uuid::Uuid,
    pub speaker_id: Option<uuid::Uuid>,
    pub speaker: String,
    pub text: String,
    pub timestamp_millis: i64,
    /// In whole percent.
    pub confidence_percent: u32,
    pub is_final: bool,
}

impl TranscriptEntry {
    /// A copy of the entry.
    pub fn duplicate(&self) -> (r: Self)
        ensures
            r == *self,
    {
        TranscriptEntry {
            id: self.id,
            speaker_id: self.speaker_id,
            speaker: self.speaker.clone(),
            text: self.text.clone(),
            timestamp_millis: self.timestamp_millis,
            confidence_percent: self.confidence_percent,
            is_final: self.is_final,
        }
    }
}

/// How urgent an action item is.
#[derive(Debug, Clone, Copy, PartialEq, Eq, Structural)]
pub enum Priority {
    High,
    Medium,
    Low,
}

/// Something someone is to do.
#[derive(Debug)]
pub struct ActionItem {
    pub id: uuid::Uuid,
    pub description: String,
    pub assignee: Option<String>,
    pub due_date_millis: Option<i64>,
    pub priority: Priority,
    pub source_text: String,
    pub created_at_millis: i64,
    pub completed: bool,
}

impl ActionItem {
    /// A copy of the item.
    pub fn duplicate(&self) -> (r: Self)
        ensures
            r == *self,
    {
        ActionItem {
            id: self.id,
            description: self.description.clone(),
            assignee: dup_opt(&self.assignee),
            due_date_millis: self.due_date_millis,
            priority: self.priority,
            source_text: self.source_text.clone(),
            created_at_millis: self.created_at_millis,
            completed: self.completed,
        }
    }
}

/// Something decided.
#[derive(Debug)]
pub struct Decision {
    pub id: uuid::Uuid,
    pub description: String,
    pub context: String,
    pub made_by: Vec<String>,
    pub timestamp_millis: i64,
}

/// `a` and `b` hold the same values.
pub open spec fn same_decision(a: Decision, b: Decision) -> bool {
    &&& a.id == b.id
    &&& a.description == b.description
    &&& a.context == b.context
    &&& a.made_by@ == b.made_by@
    &&& a.timestamp_millis == b.timestamp_millis
}

impl Decision {
    /// A copy of the decision.
    pub fn duplicate(&self) -> (r: Self)
        ensures
            same_decision(r, *self),
    {
        Decision {
            id: self.id,
            description: self.description.clone(),
            context: self.context.clone(),
            made_by: copy_strings(&self.made_by),
            timestamp_millis: self.timestamp_millis,
        }
    }
}

/// How much a participant said.
#[derive(Debug)]
pub struct ParticipantStats {
    pub name: String,
    /// In seconds.
    pub speaking_time: u64,
    /// The participant's share of all words, in thousandths, rounded down.
    pub speaking_permille: u32,
    pub word_count: usize,
}

/// What a meeting came to.
#[derive(Debug)]
pub struct MeetingSummary {
    pub meeting_id: uuid::Uuid,
    pub brief: String,
    pub key_points: Vec<String>,
    pub decisions: Vec<Decision>,
    pub action_items: Vec<ActionItem>,
    pub topics: Vec<String>,
    pub participant_stats: Vec<ParticipantStats>,
    pub generated_at_millis: i64,
}

/// `a` and `b` hold decisions that are the same, one by one.
pub open spec fn same_decisions(a: Seq<Decision>, b: Seq<Decision>) -> bool {
    &&& a.len() == b.len()
    &&& forall|i: int| 0 <= i < a.len() ==> same_decision(#[trigger] a[i], b[i])
}

/// `a` and `b` hold the same values.
pub open spec fn same_summary(a: MeetingSummary, b: MeetingSummary) -> bool {
    &&& a.meeting_id == b.meeting_id
    &&& a.brief == b.brief
    &&& a.key_points@ == b.key_points@
    &&& same_decisions(a.decisions@, b.decisions@)
    &&& a.action_items@ == b.action_items@
    &&& a.topics@ == b.topics@
    &&& a.participant_stats@ == b.participant_stats@
    &&& a.generated_at_millis == b.generated_at_millis
}

impl MeetingSummary {
    /// A copy of the summary.
    pub fn duplicate(&self) -> (r: Self)
        ensures
            same_summary(r, *self),
    {
        let mut decisions: Vec<Decision> = Vec::new();
        let mut i: usize = 0;
        while i < self.decisions.len()
            invariant
                i <= self.decisions@.len(),
                same_decisions(decisions@, self.decisions@.take(i as int)),
            decreases self.decisions@.len() - i,
        {
            decisions.push(self.decisions[i].duplicate());
            i = i + 1;
        }
        assert(self.decisions@.take(i as int) =~= self.decisions@);
        let mut action_items: Vec<ActionItem> = Vec::new();
        let mut i: usize = 0;
        while i < self.action_items.len()
            invariant
                i <= self.action_items@.len(),
                action_items@ == self.action_items@.take(i as int),
            decreases self.action_items@.len() - i,
        {
            action_items.push(self.action_items[i].duplicate());
            assert(self.action_items@.take(i as int + 1) =~= self.action_items@.take(i as int).push(self.action_items@[i as int]));
            i = i + 1;
        }
        assert(self.action_items@.take(i as int) =~= self.action_items@);
        let mut stats: Vec<ParticipantStats> = Vec::new();
        let mut i: usize = 0;
        while i < self.participant_stats.len()
            invariant
                i <= self.participant_stats@.len(),
                stats@ == self.participant_stats@.take(i as int),
            decreases self.participant_stats@.len() - i,
        {
            let p = &self.participant_stats[i];
            stats.push(ParticipantStats {
                name: p.name.clone(),
                speaking_time: p.speaking_time,
                speaking_permille: p.speaking_permille,
                word_count: p.word_count,
            });
            assert(self.participant_stats@.take(i as int + 1) =~= self.participant_stats@.take(i as int).push(self.participant_stats@[i as int]));
            i = i + 1;
        }
        assert(self.participant_stats@.take(i as int) =~= self.participant_stats@);
        MeetingSummary {
            meeting_id: self.meeting_id,
            brief: self.brief.clone(),
            key_points: copy_strings(&self.key_points),
            decisions,
            action_items,
            topics: copy_strings(&self.topics),
            participant_stats: stats,
            generated_at_millis: self.generated_at_millis,
        }
    }
}

/// A meeting.
#[derive(Debug)]
pub struct Meeting {
    pub id: uuid::Uuid,
    pub title: String,
    pub participants: Vec<Participant>,
    pub started_at_millis: i64,
    pub ended_at_millis: Option<i64>,
    pub status: MeetingStatus,
    pub transcript: Vec<TranscriptEntry>,
    /// Named values, no name twice.
    pub metadata: Vec<(String, String)>,
}

/// `a` and `b` hold the same values.
pub open spec fn same_meeting(a: Meeting, b: Meeting) -> bool {
    &&& a.id == b.id
    &&& a.title == b.title
    &&& a.participants@ == b.participants@
    &&& a.started_at_millis == b.started_at_millis
    &&& a.ended_at_millis == b.ended_at_millis
    &&& a.status == b.status
    &&& a.transcript@ == b.transcript@
    &&& a.metadata@ == b.metadata@
}

/// `a` and `b` hold meetings that are the same, one by one.
pub open spec fn same_meetings(a: Seq<Meeting>, b: Seq<Meeting>) -> bool {
    &&& a.len() == b.len()
    &&& forall|i: int| 0 <= i < a.len() ==> same_meeting(#[trigger] a[i], b[i])
}

/// The whole minutes from `start` to `end`, rounded toward zero.
pub open spec fn minutes_between(start: i64, end: i64) -> int {
    let d = end as int - start as int;
    if d >= 0 {
        d / 60000
    } else {
        -((-d) / 60000)
    }
}

/// How long the meeting has lasted by `now`: to its end where it ended.
pub open spec fn meeting_minutes(m: Meeting, now: i64) -> int {
    minutes_between(m.started_at_millis, match m.ended_at_millis {
        Some(e) => e,
        None => now,
    })
}

impl Meeting {
    /// A meeting `title` in progress under the identifier `id`, started at
    /// `now_millis`, with nobody and nothing said yet.
    pub fn new_at(id: uuid::Uuid, title: &str, now_millis: i64) -> (r: Self)
        ensures
            r.id == id,
            r.title@ == title@,
            r.participants@.len() == 0,
            r.started_at_millis == now_millis,
            r.ended_at_millis is None,
            r.status == MeetingStatus::InProgress,
            r.transcript@.len() == 0,
            r.metadata@.len() == 0,
    {
        Meeting {
            id,
            title: to_owned_string(title),
            participants: Vec::new(),
            started_at_millis: now_millis,
            ended_at_millis: None,
            status: MeetingStatus::InProgress,
            transcript: Vec::new(),
            metadata: Vec::new(),
        }
    }

    /// A meeting `title` in progress under a fresh random identifier,
    /// started now.
    pub fn new(title: &str) -> (r: Self)
        ensures
            r.title@ == title@,
            r.participants@.len() == 0,
            r.ended_at_millis is None,
            r.status == MeetingStatus::InProgress,
            r.transcript@.len() == 0,
            r.metadata@.len() == 0,
    {
        Meeting::new_at(new_uuid(), title, utc_now_millis())
    }

    /// The whole minutes the meeting has lasted by `now_millis`, to its end
    /// where it ended, rounded toward zero.
    pub fn duration_minutes_at(&self, now_millis: i64) -> (r: i64)
        ensures
            r == meeting_minutes(*self, now_millis),
    {
        let end: i64 = match self.ended_at_millis {
            Some(e) => e,
            None => now_millis,
        };
        let d: i128 = end as i128 - self.started_at_millis as i128;
        if d >= 0 {
            let q: i128 = d / 60000;
            q as i64
        } else {
            let q: i128 = (-d) / 60000;
            (-q) as i64
        }
    }

    /// The whole minutes the meeting has lasted until now, or until its end.
    pub fn duration_minutes(&self) -> (r: i64)
        ensures
            self.ended_at_millis is Some ==> r == meeting_minutes(*self, 0),
    {
        self.duration_minutes_at(utc_now_millis())
    }

    /// Add `participant`.
    pub fn add_participant(&mut self, participant: Participant)
        ensures
            final(self).participants@ == old(self).participants@.push(participant),
            final(self).id == old(self).id,
            final(self).title == old(self).title,
            final(self).started_at_millis == old(self).started_at_millis,
            final(self).ended_at_millis == old(self).ended_at_millis,
            final(self).status == old(self).status,
            final(self).transcript == old(self).transcript,
            final(self).metadata == old(self).metadata,
    {
        self.participants.push(participant);
    }

    /// A copy of the meeting.
    pub fn duplicate(&self) -> (r: Self)
        ensures
            same_meeting(r, *self),
    {
        let mut participants: Vec<Participant> = Vec::new();
        let mut i: usize = 0;
        while i < self.participants.len()
            invariant
                i <= self.participants@.len(),
                participants@ == self.participants@.take(i as int),
            decreases self.participants@.len() - i,
        {
            participants.push(self.participants[i].duplicate());
            assert(self.participants@.take(i as int + 1) =~= self.participants@.take(i as int).push(self.participants@[i as int]));
            i = i + 1;
        }
        assert(self.participants@.take(i as int) =~= self.participants@);
        let mut transcript: Vec<TranscriptEntry> = Vec::new();
        let mut i: usize = 0;
        while i < self.transcript.len()
            invariant
                i <= self.transcript@.len(),
                transcript@ == self.transcript@.take(i as int),
            decreases self.transcript@.len() - i,
        {
            transcript.push(self.transcript[i].duplicate());
            assert(self.transcript@.take(i as int + 1) =~= self.transcript@.take(i as int).push(self.transcript@[i as int]));
            i = i + 1;
        }
        assert(self.transcript@.take(i as int) =~= self.transcript@);
        let mut metadata: Vec<(String, String)> = Vec::new();
        let mut i: usize = 0;
        while i < self.metadata.len()
            invariant
                i <= self.metadata@.len(),
                metadata@ == self.metadata@.take(i as int),
            decreases self.metadata@.len() - i,
        {
            metadata.push((self.metadata[i].0.clone(), self.metadata[i].1.clone()));
            assert(self.metadata@.take(i as int + 1) =~= self.metadata@.take(i as int).push(self.metadata@[i as int]));
            i = i + 1;
        }
        assert(self.metadata@.take(i as int) =~= self.metadata@);
        Meeting {
            id: self.id,
            title: self.title.clone(),
            participants,
            started_at_millis: self.started_at_millis,
            ended_at_millis: self.ended_at_millis,
            status: self.status,
            transcript,
            metadata,
        }
    }
}

/// The number of words of `s`: maximal runs of characters that are not
/// whitespace.
pub open spec fn word_count(s: Seq<char>) -> nat
    decreases s.len(),
{
    if s.len() == 0 {
        0
    } else {
        let starts = !is_ws(s.last()) && (s.len() == 1 || is_ws(s[s.len() - 2]));
        word_count(s.drop_last()) + if starts { 1nat } else { 0nat }
    }
}

/// The number of words of `s`, as `split_whitespace().count()` gives it.
pub fn count_words(s: &str) -> (r: usize)
    ensures
        r == word_count(s@),
{
    let cs = chars_of(s);
    let mut n: usize = 0;
    let mut i: usize = 0;
    let mut prev_ws = true;
    while i < cs.len()
        invariant
            i <= cs@.len(),
            n == word_count(cs@.take(i as int)),
            n <= i,
            prev_ws == (i == 0 || is_ws(cs@[i - 1])),
        decreases cs@.len() - i,
    {
        assert(cs@.take(i as int + 1).drop_last() =~= cs@.take(i as int));
        let w = char_is_whitespace(cs[i]);
        if !w && prev_ws {
            n = n + 1;
        }
        prev_ws = w;
        i = i + 1;
    }
    assert(cs@.take(i as int) =~= cs@);
    n
}

/// `s`, lowercased, contains `pat`.
pub open spec fn mentions(s: Seq<char>, pat: Seq<char>) -> bool {
    find_seq(unicode_lowercase(s), pat) is Some
}

/// `s` speaks of something to do.
pub open spec fn is_action_text(s: Seq<char>) -> bool {
    mentions(s, "action"@) || mentions(s, "todo"@) || mentions(s, "will do"@)
}

/// `s` speaks of something decided.
pub open spec fn is_decision_text(s: Seq<char>) -> bool {
    mentions(s, "decided"@) || mentions(s, "agreed"@) || mentions(s, "will go with"@)
}

fn contains_text(chars: &Vec<char>, pat: &str) -> (r: bool)
    ensures
        r == (find_seq(chars@, pat@) is Some),
{
    let p = chars_of(pat);
    find_seq_exec(chars, &p).is_some()
}

/// The entries of `t` that speak of something to do, in order.
pub open spec fn action_entries(t: Seq<TranscriptEntry>) -> Seq<TranscriptEntry>
    decreases t.len(),
{
    if t.len() == 0 {
        t
    } else if is_action_text(t.last().text@) {
        action_entries(t.drop_last()).push(t.last())
    } else {
        action_entries(t.drop_last())
    }
}

/// The entries of `t` that speak of something decided, in order.
pub open spec fn decision_entries(t: Seq<TranscriptEntry>) -> Seq<TranscriptEntry>
    decreases t.len(),
{
    if t.len() == 0 {
        t
    } else if is_decision_text(t.last().text@) {
        decision_entries(t.drop_last()).push(t.last())
    } else {
        decision_entries(t.drop_last())
    }
}

/// The entries kept as decisions are exactly those whose lowercased text
/// contains "decided", "agreed" or "will go with": each such entry is kept,
/// and each kept one is an entry of the transcript with such a phrase.
pub proof fn lemma_decision_entries_by_phrase(t: Seq<TranscriptEntry>)
    ensures
        forall|j: int| 0 <= j < t.len() && (mentions((#[trigger] t[j]).text@, "decided"@) || mentions(t[j].text@, "agreed"@)
            || mentions(t[j].text@, "will go with"@)) ==> decision_entries(t).contains(t[j]),
        forall|k: int| 0 <= k < decision_entries(t).len() ==> t.contains(#[trigger] decision_entries(t)[k]) && (mentions(
            decision_entries(t)[k].text@,
            "decided"@,
        ) || mentions(decision_entries(t)[k].text@, "agreed"@) || mentions(decision_entries(t)[k].text@, "will go with"@)),
    decreases t.len(),
{
    if t.len() > 0 {
        let p = t.drop_last();
        lemma_decision_entries_by_phrase(p);
        let d = decision_entries(t);
        let dp = decision_entries(p);
        assert forall|j: int| 0 <= j < t.len() && (mentions((#[trigger] t[j]).text@, "decided"@) || mentions(t[j].text@, "agreed"@)
            || mentions(t[j].text@, "will go with"@)) implies d.contains(t[j]) by {
            if j < t.len() - 1 {
                assert(t[j] == p[j]);
                let k = choose|k: int| 0 <= k < dp.len() && dp[k] == p[j];
                assert(d[k] == dp[k]);
            } else {
                assert(d[d.len() - 1] == t[j]);
            }
        }
        assert forall|k: int| 0 <= k < d.len() implies t.contains(#[trigger] d[k]) && (mentions(d[k].text@, "decided"@)
            || mentions(d[k].text@, "agreed"@) || mentions(d[k].text@, "will go with"@)) by {
            if k < dp.len() {
                assert(d[k] == dp[k]);
                let j = choose|j: int| 0 <= j < p.len() && p[j] == dp[k];
                assert(t[j] == p[j]);
            } else {
                assert(d[k] == t[t.len() - 1]);
            }
        }
    }
}

/// The entries kept as action items are exactly those whose lowercased text
/// contains "action", "todo" or "will do": each such entry is kept, and
/// each kept one is an entry of the transcript with such a phrase.
pub proof fn lemma_action_entries_by_phrase(t: Seq<TranscriptEntry>)
    ensures
        forall|j: int| 0 <= j < t.len() && (mentions((#[trigger] t[j]).text@, "action"@) || mentions(t[j].text@, "todo"@)
            || mentions(t[j].text@, "will do"@)) ==> action_entries(t).contains(t[j]),
        forall|k: int| 0 <= k < action_entries(t).len() ==> t.contains(#[trigger] action_entries(t)[k]) && (mentions(
            action_entries(t)[k].text@,
            "action"@,
        ) || mentions(action_entries(t)[k].text@, "todo"@) || mentions(action_entries(t)[k].text@, "will do"@)),
    decreases t.len(),
{
    if t.len() > 0 {
        let p = t.drop_last();
        lemma_action_entries_by_phrase(p);
        let d = action_entries(t);
        let dp = action_entries(p);
        assert forall|j: int| 0 <= j < t.len() && (mentions((#[trigger] t[j]).text@, "action"@) || mentions(t[j].text@, "todo"@)
            || mentions(t[j].text@, "will do"@)) implies d.contains(t[j]) by {
            if j < t.len() - 1 {
                assert(t[j] == p[j]);
                let k = choose|k: int| 0 <= k < dp.len() && dp[k] == p[j];
                assert(d[k] == dp[k]);
            } else {
                assert(d[d.len() - 1] == t[j]);
            }
        }
        assert forall|k: int| 0 <= k < d.len() implies t.contains(#[trigger] d[k]) && (mentions(d[k].text@, "action"@)
            || mentions(d[k].text@, "todo"@) || mentions(d[k].text@, "will do"@)) by {
            if k < dp.len() {
                assert(d[k] == dp[k]);
                let j = choose|j: int| 0 <= j < p.len() && p[j] == dp[k];
                assert(t[j] == p[j]);
            } else {
                assert(d[k] == t[t.len() - 1]);
            }
        }
    }
}

/// `a` is the open action item of medium priority taken from `e`, for its
/// speaker.
pub open spec fn action_from(a: ActionItem, e: TranscriptEntry) -> bool {
    &&& a.description == e.text
    &&& a.assignee == Some(e.speaker)
    &&& a.due_date_millis is None
    &&& a.priority == Priority::Medium
    &&& a.source_text == e.text
    &&& !a.completed
}

/// `d` is the decision taken from `e`, made by its speaker when it was said.
pub open spec fn decision_from(d: Decision, e: TranscriptEntry) -> bool {
    &&& d.description == e.text
    &&& d.context@ == "From transcript"@
    &&& d.made_by@ == seq![e.speaker]
    &&& d.timestamp_millis == e.timestamp_millis
}

/// The number of words said in all of `t`.
pub open spec fn total_words(t: Seq<TranscriptEntry>) -> nat
    decreases t.len(),
{
    if t.len() == 0 {
        0
    } else {
        total_words(t.drop_last()) + word_count(t.last().text@)
    }
}

/// The number of words said by `name` in `t`.
pub open spec fn words_by(t: Seq<TranscriptEntry>, name: Seq<char>) -> nat
    decreases t.len(),
{
    if t.len() == 0 {
        0
    } else {
        words_by(t.drop_last(), name) + if t.last().speaker@ == name { word_count(t.last().text@) } else { 0nat }
    }
}

/// No participant says more words than are said in all.
pub proof fn lemma_words_by_le(t: Seq<TranscriptEntry>, name: Seq<char>)
    ensures
        words_by(t, name) <= total_words(t),
    decreases t.len(),
{
    if t.len() > 0 {
        lemma_words_by_le(t.drop_last(), name);
    }
}

/// `n`, or the largest `usize` where it is larger.
pub open spec fn capped(n: nat) -> usize {
    if n > usize::MAX { usize::MAX } else { n as usize }
}

/// The share of `words` in `total`, in thousandths, rounded down; zero
/// where nothing was said.
pub open spec fn share_permille(words: nat, total: nat) -> int {
    if total == 0 { 0 } else { ((words * 1000) as int) / (total as int) }
}

/// The statistics of participant `p` over the transcript `t`.
pub open spec fn stats_of(p: Participant, t: Seq<TranscriptEntry>) -> ParticipantStats {
    ParticipantStats {
        name: p.name,
        speaking_time: p.speaking_time,
        speaking_permille: share_permille(capped(words_by(t, p.name@)) as nat, capped(total_words(t)) as nat) as u32,
        word_count: capped(words_by(t, p.name@)),
    }
}

/// The position where `x` goes among `s`, ordered by word count from most
/// to fewest: after every entry with at least as many words.
pub open spec fn insert_position(s: Seq<ParticipantStats>, x: ParticipantStats) -> int
    decreases s.len(),
{
    if s.len() == 0 {
        0
    } else if s.last().word_count >= x.word_count {
        s.len() as int
    } else {
        insert_position(s.drop_last(), x)
    }
}

/// `s` ordered by word count from most to fewest, equals keeping their
/// order.
pub open spec fn by_words(s: Seq<ParticipantStats>) -> Seq<ParticipantStats>
    decreases s.len(),
{
    if s.len() == 0 {
        s
    } else {
        let sorted = by_words(s.drop_last());
        sorted.insert(insert_position(sorted, s.last()), s.last())
    }
}

/// `s` runs from most to fewest words.
pub open spec fn most_words_first(s: Seq<ParticipantStats>) -> bool {
    forall|i: int, j: int| 0 <= i < j < s.len() ==> (#[trigger] s[i]).word_count >= (#[trigger] s[j]).word_count
}

proof fn lemma_insert_position(s: Seq<ParticipantStats>, x: ParticipantStats)
    requires
        most_words_first(s),
    ensures
        0 <= insert_position(s, x) <= s.len(),
        forall|i: int| 0 <= i < insert_position(s, x) ==> (#[trigger] s[i]).word_count >= x.word_count,
        forall|i: int| insert_position(s, x) <= i < s.len() ==> (#[trigger] s[i]).word_count < x.word_count,
    decreases s.len(),
{
    if s.len() > 0 {
        let t = s.drop_last();
        assert(most_words_first(t)) by {
            assert forall|i: int, j: int| 0 <= i < j < t.len() implies (#[trigger] t[i]).word_count >= (#[trigger] t[j]).word_count by {
                assert(t[i] == s[i] && t[j] == s[j]);
            }
        }
        lemma_insert_position(t, x);
        if s.last().word_count >= x.word_count {
            assert forall|i: int| 0 <= i < s.len() implies (#[trigger] s[i]).word_count >= x.word_count by {
                if i < s.len() - 1 {
                    assert(s[i].word_count >= s[s.len() - 1].word_count);
                }
            }
        } else {
            assert forall|i: int| 0 <= i < insert_position(s, x) implies (#[trigger] s[i]).word_count >= x.word_count by {
                assert(t[i] == s[i]);
            }
            assert forall|i: int| insert_position(s, x) <= i < s.len() implies (#[trigger] s[i]).word_count < x.word_count by {
                if i < s.len() - 1 {
                    assert(t[i] == s[i]);
                }
            }
        }
    }
}

/// Participant statistics come ordered from most to fewest words, and none
/// is lost or added.
pub proof fn lemma_by_words_ordered(s: Seq<ParticipantStats>)
    ensures
        most_words_first(by_words(s)),
        by_words(s).len() == s.len(),
    decreases s.len(),
{
    if s.len() > 0 {
        let sorted = by_words(s.drop_last());
        lemma_by_words_ordered(s.drop_last());
        let x = s.last();
        lemma_insert_position(sorted, x);
        let p = insert_position(sorted, x);
        let r = sorted.insert(p, x);
        assert forall|i: int, j: int| 0 <= i < j < r.len() implies (#[trigger] r[i]).word_count >= (#[trigger] r[j]).word_count by {
            if i < p {
                assert(r[i] == sorted[i]);
                if j < p {
                    assert(r[j] == sorted[j]);
                } else if j > p {
                    assert(r[j] == sorted[j - 1]);
                }
            } else if i == p {
                assert(r[j] == sorted[j - 1]);
            } else {
                assert(r[i] == sorted[i - 1]);
                assert(r[j] == sorted[j - 1]);
            }
        }
    }
}

/// Turns audio into transcript entries; the assistant's users implement it.
pub trait Transcriber {
    /// Transcribe `audio`, said by `speaker_hint` where known.
    fn transcribe(&self, audio: &[u8], speaker_hint: Option<&str>) -> Result<TranscriptEntry, MeetingError>;
}

/// Makes sense of meetings; the assistant's users implement it.
pub trait MeetingAnalyzer {
    /// Summarise `meeting`.
    fn summarize(&self, meeting: &Meeting) -> Result<MeetingSummary, MeetingError>;

    /// The action items in `transcript`.
    fn extract_actions(&self, transcript: &[TranscriptEntry]) -> Vec<ActionItem>;

    /// The decisions in `transcript`.
    fn extract_decisions(&self, transcript: &[TranscriptEntry]) -> Vec<Decision>;
}

/// A transcriber that stands in for a real one.
pub struct SimpleTranscriber;

impl Transcriber for SimpleTranscriber {
    fn transcribe(&self, audio: &[u8], speaker_hint: Option<&str>) -> (r: Result<TranscriptEntry, MeetingError>)
        ensures
            r is Ok,
            r->Ok_0.speaker_id is None,
            r->Ok_0.speaker@ == match speaker_hint {
                Some(h) => h@,
                None => "Unknown"@,
            },
            r->Ok_0.text@ == "[Transcribed audio]"@,
            r->Ok_0.confidence_percent == 90,
            r->Ok_0.is_final,
    {
        let speaker = match speaker_hint {
            Some(h) => to_owned_string(h),
            None => to_owned_string("Unknown"),
        };
        Ok(TranscriptEntry {
            id: new_uuid(),
            speaker_id: None,
            speaker,
            text: to_owned_string("[Transcribed audio]"),
            timestamp_millis: utc_now_millis(),
            confidence_percent: 90,
            is_final: true,
        })
    }
}

/// An analyzer that picks out action items and decisions by their wording
/// and counts words.
pub struct SimpleAnalyzer;

impl SimpleAnalyzer {
    /// The summary of `meeting` at `now_millis`: a brief with its title and
    /// duration, one key point, the decisions and action items said, no
    /// topics, and each participant's statistics from most to fewest words.
    pub fn summarize_at(&self, meeting: &Meeting, now_millis: i64) -> (r: MeetingSummary)
        ensures
            r.meeting_id == meeting.id,
            r.brief@ == "Meeting: "@ + meeting.title@ + " ("@ + signed_decimal(meeting_minutes(*meeting, now_millis))
                + " minutes)"@,
            r.key_points@.len() == 1,
            r.key_points@[0]@ == "Meeting conducted"@,
            r.decisions@.len() == decision_entries(meeting.transcript@).len(),
            forall|k: int| 0 <= k < r.decisions@.len() ==> decision_from(#[trigger] r.decisions@[k], decision_entries(meeting.transcript@)[k]),
            r.action_items@.len() == action_entries(meeting.transcript@).len(),
            forall|k: int| 0 <= k < r.action_items@.len() ==> action_from(#[trigger] r.action_items@[k], action_entries(meeting.transcript@)[k]),
            r.topics@.len() == 0,
            r.participant_stats@ == by_words(meeting.participants@.map_values(|p: Participant| stats_of(p, meeting.transcript@))),
            r.generated_at_millis == now_millis,
    {
        let t = &meeting.transcript;
        let mut total: usize = 0;
        let mut i: usize = 0;
        while i < t.len()
            invariant
                i <= t@.len(),
                total == capped(total_words(t@.take(i as int))),
            decreases t@.len() - i,
        {
            assert(t@.take(i as int + 1).drop_last() =~= t@.take(i as int));
            let w = count_words(t[i].text.as_str());
            total = total.saturating_add(w);
            i = i + 1;
        }
        assert(t@.take(i as int) =~= t@);
        let ghost all = meeting.participants@.map_values(|p: Participant| stats_of(p, meeting.transcript@));
        let mut stats: Vec<ParticipantStats> = Vec::new();
        let mut j: usize = 0;
        while j < meeting.participants.len()
            invariant
                j <= meeting.participants@.len(),
                total == capped(total_words(t@)),
                t == &meeting.transcript,
                all == meeting.participants@.map_values(|p: Participant| stats_of(p, meeting.transcript@)),
                stats@ == by_words(all.take(j as int)),
            decreases meeting.participants@.len() - j,
        {
            let p = &meeting.participants[j];
            let mut words: usize = 0;
            let mut k: usize = 0;
            while k < t.len()
                invariant
                    k <= t@.len(),
                    words == capped(words_by(t@.take(k as int), p.name@)),
                decreases t@.len() - k,
            {
                assert(t@.take(k as int + 1).drop_last() =~= t@.take(k as int));
                if str_eq_text(&t[k].speaker, &p.name) {
                    let w = count_words(t[k].text.as_str());
                    words = words.saturating_add(w);
                }
                k = k + 1;
            }
            assert(t@.take(k as int) =~= t@);
            proof {
                lemma_words_by_le(t@, p.name@);
            }
            let permille: u32 = if total > 0 {
                let q: u128 = (words as u128) * 1000 / (total as u128);
                assert(q <= 1000) by (nonlinear_arith)
                    requires
                        q as int == ((words as int) * 1000) / (total as int),
                        words <= total,
                        total > 0,
                ;
                q as u32
            } else {
                0
            };
            let entry = ParticipantStats { name: p.name.clone(), speaking_time: p.speaking_time, speaking_permille: permille, word_count: words };
            let pos = insert_at(&stats, entry.word_count);
            stats.insert(pos, entry);
            assert(all.take(j as int + 1).drop_last() =~= all.take(j as int));
            j = j + 1;
        }
        assert(all.take(j as int) =~= all);
        let mut brief = to_owned_string("Meeting: ");
        string_push_str(&mut brief, meeting.title.as_str());
        string_push_str(&mut brief, " (");
        push_decimal_i64(&mut brief, meeting.duration_minutes_at(now_millis));
        string_push_str(&mut brief, " minutes)");
        let decisions = self.extract_decisions(meeting.transcript.as_slice());
        let action_items = self.extract_actions(meeting.transcript.as_slice());
        MeetingSummary {
            meeting_id: meeting.id,
            brief,
            key_points: vec![to_owned_string("Meeting conducted")],
            decisions,
            action_items,
            topics: Vec::new(),
            participant_stats: stats,
            generated_at_millis: now_millis,
        }
    }
}

fn str_eq_text(a: &String, b: &String) -> (r: bool)
    ensures
        r == (a@ == b@),
{
    crate::text::str_eq(a.as_str(), b.as_str())
}

fn insert_at(s: &Vec<ParticipantStats>, words: usize) -> (r: usize)
    ensures
        r <= s@.len(),
        forall|x: ParticipantStats| x.word_count == words ==> r == insert_position(s@, x),
{
    let mut i: usize = s.len();
    assert(s@.take(i as int) =~= s@);
    while i > 0 && s[i - 1].word_count < words
        invariant
            i <= s@.len(),
            forall|x: ParticipantStats| x.word_count == words ==> insert_position(s@, x) == insert_position(s@.take(i as int), x),
        decreases i,
    {
        proof {
            assert forall|x: ParticipantStats| x.word_count == words implies insert_position(s@.take(i as int), x)
                == insert_position(s@.take(i - 1), x) by {
                assert(s@.take(i as int).drop_last() =~= s@.take(i - 1));
            }
        }
        i = i - 1;
    }
    proof {
        assert forall|x: ParticipantStats| x.word_count == words implies insert_position(s@.take(i as int), x) == i by {
            if i > 0 {
                assert(s@.take(i as int).last() == s@[i - 1]);
            }
        }
    }
    i
}

impl MeetingAnalyzer for SimpleAnalyzer {
    fn summarize(&self, meeting: &Meeting) -> (r: Result<MeetingSummary, MeetingError>)
        ensures
            r is Ok,
            r->Ok_0.meeting_id == meeting.id,
            r->Ok_0.key_points@.len() == 1,
            r->Ok_0.decisions@.len() == decision_entries(meeting.transcript@).len(),
            r->Ok_0.action_items@.len() == action_entries(meeting.transcript@).len(),
            r->Ok_0.participant_stats@ == by_words(meeting.participants@.map_values(|p: Participant| stats_of(p, meeting.transcript@))),
    {
        Ok(self.summarize_at(meeting, utc_now_millis()))
    }

    fn extract_actions(&self, transcript: &[TranscriptEntry]) -> (r: Vec<ActionItem>)
        ensures
            r@.len() == action_entries(transcript@).len(),
            forall|k: int| 0 <= k < r@.len() ==> action_from(#[trigger] r@[k], action_entries(transcript@)[k]),
    {
        let mut out: Vec<ActionItem> = Vec::new();
        let mut i: usize = 0;
        while i < transcript.len()
            invariant
                i <= transcript@.len(),
                out@.len() == action_entries(transcript@.take(i as int)).len(),
                forall|k: int| 0 <= k < out@.len() ==> action_from(#[trigger] out@[k], action_entries(transcript@.take(i as int))[k]),
            decreases transcript@.len() - i,
        {
            assert(transcript@.take(i as int + 1).drop_last() =~= transcript@.take(i as int));
            let e = &transcript[i];
            let lower = chars_of(str_to_lowercase(e.text.as_str()).as_str());
            if contains_text(&lower, "action") || contains_text(&lower, "todo") || contains_text(&lower, "will do") {
                out.push(ActionItem {
                    id: new_uuid(),
                    description: e.text.clone(),
                    assignee: Some(e.speaker.clone()),
                    due_date_millis: None,
                    priority: Priority::Medium,
                    source_text: e.text.clone(),
                    created_at_millis: utc_now_millis(),
                    completed: false,
                });
            }
            i = i + 1;
        }
        assert(transcript@.take(i as int) =~= transcript@);
        out
    }

    fn extract_decisions(&self, transcript: &[TranscriptEntry]) -> (r: Vec<Decision>)
        ensures
            r@.len() == decision_entries(transcript@).len(),
            forall|k: int| 0 <= k < r@.len() ==> decision_from(#[trigger] r@[k], decision_entries(transcript@)[k]),
    {
        let mut out: Vec<Decision> = Vec::new();
        let mut i: usize = 0;
        while i < transcript.len()
            invariant
                i <= transcript@.len(),
                out@.len() == decision_entries(transcript@.take(i as int)).len(),
                forall|k: int| 0 <= k < out@.len() ==> decision_from(#[trigger] out@[k], decision_entries(transcript@.take(i as int))[k]),
            decreases transcript@.len() - i,
        {
            assert(transcript@.take(i as int + 1).drop_last() =~= transcript@.take(i as int));
            let e = &transcript[i];
            let lower = chars_of(str_to_lowercase(e.text.as_str()).as_str());
            if contains_text(&lower, "decided") || contains_text(&lower, "agreed") || contains_text(&lower, "will go with") {
                let made_by = vec![e.speaker.clone()];
                assert(made_by@ =~= seq![e.speaker]);
                out.push(Decision {
                    id: new_uuid(),
                    description: e.text.clone(),
                    context: to_owned_string("From transcript"),
                    made_by,
                    timestamp_millis: e.timestamp_millis,
                });
            }
            i = i + 1;
        }
        assert(transcript@.take(i as int) =~= transcript@);
        out
    }
}

/// What happens in meetings, as reported to listeners.
#[derive(Debug)]
pub enum MeetingEvent {
    Started(uuid::Uuid),
    Ended(uuid::Uuid),
    ParticipantJoined { meeting_id: uuid::Uuid, participant: Participant },
    ParticipantLeft { meeting_id: uuid::Uuid, participant_id: uuid::Uuid },
    Transcript { meeting_id: uuid::Uuid, entry: TranscriptEntry },
    ActionDetected { meeting_id: uuid::Uuid, action: ActionItem },
    DecisionMade { meeting_id: uuid::Uuid, decision: Decision },
}

/// What the assistant does by itself.
#[derive(Debug)]
pub struct MeetingConfig {
    pub live_transcription: bool,
    pub detect_actions: bool,
    pub track_decisions: bool,
    pub auto_summary: bool,
    pub language: String,
}

impl Default for MeetingConfig {
    fn default() -> (r: Self)
        ensures
            r.live_transcription,
            r.detect_actions,
            r.track_decisions,
            r.auto_summary,
            r.language@ == "en"@,
    {
        MeetingConfig {
            live_transcription: true,
            detect_actions: true,
            track_decisions: true,
            auto_summary: true,
            language: to_owned_string("en"),
        }
    }
}

/// Counts over all meetings.
#[derive(Debug, Clone, Copy, PartialEq, Eq, Structural)]
pub struct MeetingStats {
    pub total_meetings: usize,
    pub active_meetings: usize,
    pub total_duration_minutes: i64,
}

/// The position of the meeting with identifier `id`.
pub open spec fn find_meeting(ms: Seq<Meeting>, id: uuid::Uuid) -> Option<int>
    decreases ms.len(),
{
    if ms.len() == 0 {
        None
    } else {
        match find_meeting(ms.drop_last(), id) {
            Some(i) => Some(i),
            None => if ms.last().id == id { Some(ms.len() - 1) } else { None },
        }
    }
}

proof fn lemma_find_meeting(ms: Seq<Meeting>, id: uuid::Uuid)
    ensures
        match find_meeting(ms, id) {
            Some(i) => 0 <= i < ms.len() && ms[i].id == id && forall|j: int| 0 <= j < i ==> (#[trigger] ms[j]).id != id,
            None => forall|j: int| 0 <= j < ms.len() ==> (#[trigger] ms[j]).id != id,
        },
    decreases ms.len(),
{
    if ms.len() > 0 {
        let t = ms.drop_last();
        lemma_find_meeting(t, id);
        assert forall|j: int| 0 <= j < t.len() implies #[trigger] t[j] == ms[j] by {}
        match find_meeting(t, id) {
            Some(i) => {
                assert(t[i] == ms[i]);
                assert forall|j: int| 0 <= j < i implies (#[trigger] ms[j]).id != id by {
                    assert(t[j] == ms[j]);
                }
            },
            None => {
                assert forall|j: int| 0 <= j < ms.len() - 1 implies (#[trigger] ms[j]).id != id by {
                    assert(t[j] == ms[j]);
                }
            },
        }
    }
}

fn meeting_index(ms: &Vec<Meeting>, id: &uuid::Uuid) -> (r: Option<usize>)
    ensures
        match r {
            Some(i) => i < ms@.len() && find_meeting(ms@, *id) == Some(i as int),
            None => find_meeting(ms@, *id) is None,
        },
{
    proof {
        lemma_find_meeting(ms@, *id);
    }
    let mut i: usize = 0;
    while i < ms.len()
        invariant
            i <= ms@.len(),
            forall|j: int| 0 <= j < i ==> (#[trigger] ms@[j]).id != *id,
            match find_meeting(ms@, *id) {
                Some(k) => 0 <= k < ms@.len() && ms@[k].id == *id && forall|j: int| 0 <= j < k ==> (#[trigger] ms@[j]).id != *id,
                None => forall|j: int| 0 <= j < ms@.len() ==> (#[trigger] ms@[j]).id != *id,
            },
        decreases ms@.len() - i,
    {
        if uuid_eq(&ms[i].id, id) {
            return Some(i);
        }
        i = i + 1;
    }
    None
}

/// The summary stored for meeting `id`.
pub open spec fn find_summary(ss: Seq<(uuid::Uuid, MeetingSummary)>, id: uuid::Uuid) -> Option<int>
    decreases ss.len(),
{
    if ss.len() == 0 {
        None
    } else {
        match find_summary(ss.drop_last(), id) {
            Some(i) => Some(i),
            None => if ss.last().0 == id { Some(ss.len() - 1) } else { None },
        }
    }
}

proof fn lemma_find_summary(ss: Seq<(uuid::Uuid, MeetingSummary)>, id: uuid::Uuid)
    ensures
        match find_summary(ss, id) {
            Some(i) => 0 <= i < ss.len() && ss[i].0 == id && forall|j: int| 0 <= j < i ==> (#[trigger] ss[j]).0 != id,
            None => forall|j: int| 0 <= j < ss.len() ==> (#[trigger] ss[j]).0 != id,
        },
    decreases ss.len(),
{
    if ss.len() > 0 {
        let t = ss.drop_last();
        lemma_find_summary(t, id);
        assert forall|j: int| 0 <= j < t.len() implies #[trigger] t[j] == ss[j] by {}
        match find_summary(t, id) {
            Some(i) => {
                assert(t[i] == ss[i]);
                assert forall|j: int| 0 <= j < i implies (#[trigger] ss[j]).0 != id by {
                    assert(t[j] == ss[j]);
                }
            },
            None => {
                assert forall|j: int| 0 <= j < ss.len() - 1 implies (#[trigger] ss[j]).0 != id by {
                    assert(t[j] == ss[j]);
                }
            },
        }
    }
}

fn summary_index(ss: &Vec<(uuid::Uuid, MeetingSummary)>, id: &uuid::Uuid) -> (r: Option<usize>)
    ensures
        match r {
            Some(i) => i < ss@.len() && find_summary(ss@, *id) == Some(i as int),
            None => find_summary(ss@, *id) is None,
        },
{
    proof {
        lemma_find_summary(ss@, *id);
    }
    let mut i: usize = 0;
    while i < ss.len()
        invariant
            i <= ss@.len(),
            forall|j: int| 0 <= j < i ==> (#[trigger] ss@[j]).0 != *id,
            match find_summary(ss@, *id) {
                Some(k) => 0 <= k < ss@.len() && ss@[k].0 == *id && forall|j: int| 0 <= j < k ==> (#[trigger] ss@[j]).0 != *id,
                None => forall|j: int| 0 <= j < ss@.len() ==> (#[trigger] ss@[j]).0 != *id,
            },
        decreases ss@.len() - i,
    {
        if uuid_eq(&ss[i].0, id) {
            return Some(i);
        }
        i = i + 1;
    }
    None
}

/// `m` is a meeting just started as `title` under `id` at `now`.
pub open spec fn fresh_meeting(m: Meeting, id: uuid::Uuid, title: Seq<char>, now: i64) -> bool {
    &&& m.id == id
    &&& m.title@ == title
    &&& m.participants@.len() == 0
    &&& m.started_at_millis == now
    &&& m.ended_at_millis is None
    &&& m.status == MeetingStatus::InProgress
    &&& m.transcript@.len() == 0
    &&& m.metadata@.len() == 0
}

/// `after` is `before` with the meeting at `i` replaced by `m`, where a
/// meeting with `m`'s identifier was stored, else with `m` added last.
pub open spec fn meeting_put(after: Seq<Meeting>, before: Seq<Meeting>, m: Meeting) -> bool {
    match find_meeting(before, m.id) {
        Some(i) => after == before.update(i, m),
        None => after == before.push(m),
    }
}

/// The number of meetings in progress.
pub open spec fn active_count(ms: Seq<Meeting>) -> nat
    decreases ms.len(),
{
    if ms.len() == 0 {
        0
    } else {
        active_count(ms.drop_last()) + if ms.last().status == MeetingStatus::InProgress { 1nat } else { 0nat }
    }
}

/// The sum of the meetings' durations by `now`, in whole minutes, held
/// within the range of `i64`.
pub open spec fn total_minutes(ms: Seq<Meeting>, now: i64) -> int
    decreases ms.len(),
{
    if ms.len() == 0 {
        0
    } else {
        clamp_i64(total_minutes(ms.drop_last(), now) + meeting_minutes(ms.last(), now))
    }
}

/// `n` held within the range of `i64`.
pub open spec fn clamp_i64(n: int) -> int {
    if n > i64::MAX { i64::MAX as int } else if n < i64::MIN { i64::MIN as int } else { n }
}

/// `after` is `before` with `summary` stored under `id`: in place of the
/// summary stored under it, else last.
pub open spec fn summary_put(after: Seq<(uuid::Uuid, MeetingSummary)>, before: Seq<(uuid::Uuid, MeetingSummary)>, id: uuid::Uuid, summary: MeetingSummary) -> bool {
    match find_summary(before, id) {
        Some(i) => after.len() == before.len() && after[i].0 == id && same_summary(after[i].1, summary)
            && forall|j: int| 0 <= j < before.len() && j != i ==> #[trigger] after[j] == before[j],
        None => after.drop_last() == before && after.len() == before.len() + 1 && after.last().0 == id
            && same_summary(after.last().1, summary),
    }
}

/// The meeting assistant.
pub struct MeetingAIEngine<T: Transcriber, A: MeetingAnalyzer> {
    config: MeetingConfig,
    transcriber: T,
    analyzer: A,
    meetings: Vec<Meeting>,
    summaries: Vec<(uuid::Uuid, MeetingSummary)>,
    events: Vec<MeetingEvent>,
}

impl<T: Transcriber, A: MeetingAnalyzer> MeetingAIEngine<T, A> {
    /// The configuration.
    pub closed spec fn config_view(&self) -> MeetingConfig {
        self.config
    }

    /// The meetings, in the order they were first stored.
    pub closed spec fn meetings_view(&self) -> Seq<Meeting> {
        self.meetings@
    }

    /// The summaries, by meeting.
    pub closed spec fn summaries_view(&self) -> Seq<(uuid::Uuid, MeetingSummary)> {
        self.summaries@
    }

    /// The events reported and not yet taken, oldest first.
    pub closed spec fn events_view(&self) -> Seq<MeetingEvent> {
        self.events@
    }

    /// An assistant with `config`, working through `transcriber` and
    /// `analyzer`, with no meeting yet.
    pub fn new(config: MeetingConfig, transcriber: T, analyzer: A) -> (r: Self)
        ensures
            r.config_view() == config,
            r.meetings_view().len() == 0,
            r.summaries_view().len() == 0,
            r.events_view().len() == 0,
    {
        MeetingAIEngine { config, transcriber, analyzer, meetings: Vec::new(), summaries: Vec::new(), events: Vec::new() }
    }

    /// Take the events reported so far, oldest first.
    pub fn take_events(&mut self) -> (r: Vec<MeetingEvent>)
        ensures
            r@ == old(self).events_view(),
            final(self).events_view().len() == 0,
            final(self).meetings_view() == old(self).meetings_view(),
            final(self).summaries_view() == old(self).summaries_view(),
            final(self).config_view() == old(self).config_view(),
    {
        let mut taken: Vec<MeetingEvent> = Vec::new();
        std::mem::swap(&mut taken, &mut self.events);
        taken
    }

    /// Start a meeting `title` under the identifier `id` at `now_millis`,
    /// replacing a meeting with that identifier, and report it started.
    pub fn start_meeting_at(&mut self, id: uuid::Uuid, title: &str, now_millis: i64) -> (r: Meeting)
        ensures
            fresh_meeting(r, id, title@, now_millis),
            exists|m: Meeting| fresh_meeting(m, id, title@, now_millis) && meeting_put(final(self).meetings_view(), old(self).meetings_view(), m),
            final(self).events_view() == old(self).events_view().push(MeetingEvent::Started(id)),
            final(self).summaries_view() == old(self).summaries_view(),
            final(self).config_view() == old(self).config_view(),
    {
        let stored = Meeting::new_at(id, title, now_millis);
        let copy = Meeting::new_at(id, title, now_millis);
        let ghost m = stored;
        match meeting_index(&self.meetings, &id) {
            Some(i) => {
                self.meetings.set(i, stored);
            },
            None => {
                self.meetings.push(stored);
            },
        }
        assert(meeting_put(self.meetings@, old(self).meetings@, m));
        self.events.push(MeetingEvent::Started(id));
        assert(fresh_meeting(m, id, title@, now_millis) && meeting_put(self.meetings@, old(self).meetings@, m));
        copy
    }

    /// Start a meeting `title` under a fresh random identifier, now.
    pub fn start_meeting(&mut self, title: &str) -> (r: Meeting)
        ensures
            fresh_meeting(r, r.id, title@, r.started_at_millis),
            exists|m: Meeting| fresh_meeting(m, r.id, title@, r.started_at_millis) && meeting_put(final(self).meetings_view(), old(self).meetings_view(), m),
            final(self).events_view() == old(self).events_view().push(MeetingEvent::Started(r.id)),
            final(self).summaries_view() == old(self).summaries_view(),
            final(self).config_view() == old(self).config_view(),
    {
        self.start_meeting_at(new_uuid(), title, utc_now_millis())
    }

    /// Add `participant` to the meeting `meeting_id` and report it joined.
    pub fn add_participant(&mut self, meeting_id: uuid::Uuid, participant: Participant) -> (r: Result<(), MeetingError>)
        ensures
            r is Ok <==> find_meeting(old(self).meetings_view(), meeting_id) is Some,
            r is Err ==> (r->Err_0 matches MeetingError::NotFound(s) && s@.len() == 36)
                && final(self).meetings_view() == old(self).meetings_view()
                && final(self).events_view() == old(self).events_view(),
            r is Ok ==> ({
                let i = find_meeting(old(self).meetings_view(), meeting_id)->0;
                let before = old(self).meetings_view()[i];
                &&& final(self).meetings_view() == old(self).meetings_view().update(i, Meeting {
                        participants: final(self).meetings_view()[i].participants,
                        ..before
                    })
                &&& final(self).meetings_view()[i].participants@ == before.participants@.push(participant)
                &&& final(self).events_view() == old(self).events_view().push(MeetingEvent::ParticipantJoined {
                        meeting_id,
                        participant,
                    })
            }),
            final(self).summaries_view() == old(self).summaries_view(),
            final(self).config_view() == old(self).config_view(),
    {
        match meeting_index(&self.meetings, &meeting_id) {
            Some(i) => {
                let copy = participant.duplicate();
                self.meetings[i].participants.push(participant);
                self.events.push(MeetingEvent::ParticipantJoined { meeting_id, participant: copy });
                proof {
                    let before = old(self).meetings@[i as int];
                    assert(self.meetings@ =~= old(self).meetings@.update(i as int, Meeting {
                        participants: self.meetings@[i as int].participants,
                        ..before
                    }));
                }
                Ok(())
            },
            None => Err(MeetingError::NotFound(uuid_text(&meeting_id))),
        }
    }

    fn push_entry(&mut self, meeting_id: uuid::Uuid, entry: TranscriptEntry)
        ensures
            match find_meeting(old(self).meetings_view(), meeting_id) {
                Some(i) => final(self).meetings_view() == old(self).meetings_view().update(i, Meeting {
                    transcript: final(self).meetings_view()[i].transcript,
                    ..old(self).meetings_view()[i]
                }) && final(self).meetings_view()[i].transcript@ == old(self).meetings_view()[i].transcript@.push(entry),
                None => final(self).meetings_view() == old(self).meetings_view(),
            },
            final(self).events_view() == old(self).events_view(),
            final(self).summaries_view() == old(self).summaries_view(),
            final(self).config_view() == old(self).config_view(),
    {
        match meeting_index(&self.meetings, &meeting_id) {
            Some(i) => {
                self.meetings[i].transcript.push(entry);
                proof {
                    let before = old(self).meetings@[i as int];
                    assert(self.meetings@ =~= old(self).meetings@.update(i as int, Meeting {
                        transcript: self.meetings@[i as int].transcript,
                        ..before
                    }));
                }
            },
            None => {},
        }
    }

    /// Transcribe `audio` said in the meeting `meeting_id`: the entry joins
    /// the meeting's transcript where the meeting is known; the action
    /// items the analyzer finds in it and the entry are reported. Nothing
    /// happens while live transcription is off.
    pub fn process_audio(&mut self, meeting_id: uuid::Uuid, audio: &[u8], speaker_hint: Option<&str>) -> (r: Result<TranscriptEntry, MeetingError>)
        ensures
            !old(self).config_view().live_transcription ==> r is Err
                && (r->Err_0 matches MeetingError::TranscriptionFailed(s) && s@ == "Transcription disabled"@)
                && final(self).meetings_view() == old(self).meetings_view()
                && final(self).events_view() == old(self).events_view(),
            r is Err ==> final(self).meetings_view() == old(self).meetings_view()
                && final(self).events_view() == old(self).events_view(),
            r is Ok ==> match find_meeting(old(self).meetings_view(), meeting_id) {
                Some(i) => final(self).meetings_view() == old(self).meetings_view().update(i, Meeting {
                    transcript: final(self).meetings_view()[i].transcript,
                    ..old(self).meetings_view()[i]
                }) && final(self).meetings_view()[i].transcript@ == old(self).meetings_view()[i].transcript@.push(r->Ok_0),
                None => final(self).meetings_view() == old(self).meetings_view(),
            },
            r is Ok ==> final(self).events_view().len() > old(self).events_view().len()
                && final(self).events_view().take(old(self).events_view().len() as int) == old(self).events_view()
                && final(self).events_view().last() == (MeetingEvent::Transcript { meeting_id, entry: r->Ok_0 })
                && (!old(self).config_view().detect_actions ==> final(self).events_view().len() == old(self).events_view().len() + 1),
            final(self).summaries_view() == old(self).summaries_view(),
            final(self).config_view() == old(self).config_view(),
    {
        if !self.config.live_transcription {
            return Err(MeetingError::TranscriptionFailed(to_owned_string("Transcription disabled")));
        }
        let entry = match self.transcriber.transcribe(audio, speaker_hint) {
            Ok(e) => e,
            Err(e) => {
                return Err(e);
            },
        };
        self.push_entry(meeting_id, entry.duplicate());
        let ghost before_events = self.events@;
        let ghost meetings_after = self.meetings@;
        if self.config.detect_actions {
            let one = vec![entry.duplicate()];
            let actions = self.analyzer.extract_actions(one.as_slice());
            let mut actions = actions;
            let mut k: usize = 0;
            let n = actions.len();
            let mut pending: Vec<ActionItem> = Vec::new();
            std::mem::swap(&mut pending, &mut actions);
            while k < n
                invariant
                    k <= n,
                    n == pending@.len(),
                    self.events@.len() == before_events.len() + k,
                    self.events@.take(before_events.len() as int) == before_events,
                    self.meetings@ == meetings_after,
                    self.summaries@ == old(self).summaries@,
                    self.config == old(self).config,
                decreases n - k,
            {
                let a = pending[k].duplicate();
                self.events.push(MeetingEvent::ActionDetected { meeting_id, action: a });
                assert(self.events@.take(before_events.len() as int) =~= before_events);
                k = k + 1;
            }
        }
        let copy = entry.duplicate();
        self.events.push(MeetingEvent::Transcript { meeting_id, entry: copy });
        assert(self.events@.take(old(self).events@.len() as int) =~= old(self).events@);
        Ok(entry)
    }

    /// Add what `speaker` said, `text`, to the meeting `meeting_id` as a
    /// final entry of full confidence under the identifier `entry_id` at
    /// `now_millis` (where the meeting is known), report it, and hand it
    /// back.
    pub fn add_transcript_at(&mut self, meeting_id: uuid::Uuid, speaker: &str, text: &str, entry_id: uuid::Uuid, now_millis: i64) -> (r: Result<TranscriptEntry, MeetingError>)
        ensures
            r is Ok,
            r->Ok_0.id == entry_id,
            r->Ok_0.speaker_id is None,
            r->Ok_0.speaker@ == speaker@,
            r->Ok_0.text@ == text@,
            r->Ok_0.timestamp_millis == now_millis,
            r->Ok_0.confidence_percent == 100,
            r->Ok_0.is_final,
            match find_meeting(old(self).meetings_view(), meeting_id) {
                Some(i) => final(self).meetings_view() == old(self).meetings_view().update(i, Meeting {
                    transcript: final(self).meetings_view()[i].transcript,
                    ..old(self).meetings_view()[i]
                }) && final(self).meetings_view()[i].transcript@ == old(self).meetings_view()[i].transcript@.push(r->Ok_0),
                None => final(self).meetings_view() == old(self).meetings_view(),
            },
            final(self).events_view() == old(self).events_view().push(MeetingEvent::Transcript { meeting_id, entry: r->Ok_0 }),
            final(self).summaries_view() == old(self).summaries_view(),
            final(self).config_view() == old(self).config_view(),
    {
        let entry = TranscriptEntry {
            id: entry_id,
            speaker_id: None,
            speaker: to_owned_string(speaker),
            text: to_owned_string(text),
            timestamp_millis: now_millis,
            confidence_percent: 100,
            is_final: true,
        };
        self.push_entry(meeting_id, entry.duplicate());
        let copy = entry.duplicate();
        self.events.push(MeetingEvent::Transcript { meeting_id, entry: copy });
        Ok(entry)
    }

    /// `add_transcript_at` under a fresh random identifier, now.
    pub fn add_transcript(&mut self, meeting_id: uuid::Uuid, speaker: &str, text: &str) -> (r: Result<TranscriptEntry, MeetingError>)
        ensures
            r is Ok,
            r->Ok_0.speaker_id is None,
            r->Ok_0.speaker@ == speaker@,
            r->Ok_0.text@ == text@,
            r->Ok_0.confidence_percent == 100,
            r->Ok_0.is_final,
            match find_meeting(old(self).meetings_view(), meeting_id) {
                Some(i) => final(self).meetings_view() == old(self).meetings_view().update(i, Meeting {
                    transcript: final(self).meetings_view()[i].transcript,
                    ..old(self).meetings_view()[i]
                }) && final(self).meetings_view()[i].transcript@ == old(self).meetings_view()[i].transcript@.push(r->Ok_0),
                None => final(self).meetings_view() == old(self).meetings_view(),
            },
            final(self).events_view() == old(self).events_view().push(MeetingEvent::Transcript { meeting_id, entry: r->Ok_0 }),
            final(self).summaries_view() == old(self).summaries_view(),
            final(self).config_view() == old(self).config_view(),
    {
        self.add_transcript_at(meeting_id, speaker, text, new_uuid(), utc_now_millis())
    }

    /// Have the analyzer summarise the meeting `meeting_id`, store the
    /// summary under the meeting (replacing an earlier one), and hand it
    /// back.
    pub fn generate_summary(&mut self, meeting_id: uuid::Uuid) -> (r: Result<MeetingSummary, MeetingError>)
        ensures
            find_meeting(old(self).meetings_view(), meeting_id) is None ==> r is Err
                && (r->Err_0 matches MeetingError::NotFound(s) && s@.len() == 36),
            r is Err ==> final(self).summaries_view() == old(self).summaries_view(),
            r is Ok ==> find_meeting(old(self).meetings_view(), meeting_id) is Some
                && summary_put(final(self).summaries_view(), old(self).summaries_view(), meeting_id, r->Ok_0),
            final(self).meetings_view() == old(self).meetings_view(),
            final(self).events_view() == old(self).events_view(),
            final(self).config_view() == old(self).config_view(),
    {
        let i = match meeting_index(&self.meetings, &meeting_id) {
            Some(i) => i,
            None => {
                return Err(MeetingError::NotFound(uuid_text(&meeting_id)));
            },
        };
        let summary = match self.analyzer.summarize(&self.meetings[i]) {
            Ok(s) => s,
            Err(e) => {
                return Err(e);
            },
        };
        let copy = summary.duplicate();
        let ghost stored = summary;
        match summary_index(&self.summaries, &meeting_id) {
            Some(j) => {
                self.summaries.set(j, (meeting_id, summary));
            },
            None => {
                self.summaries.push((meeting_id, summary));
                assert(self.summaries@.drop_last() =~= old(self).summaries@);
            },
        }
        proof {
            assert(same_summary(stored, copy));
        }
        Ok(copy)
    }

    /// End the meeting `meeting_id` at `now_millis` (where it is known) and
    /// report it ended; then, where summaries are automatic, summarise it,
    /// else answer that there is no summary.
    pub fn end_meeting_at(&mut self, meeting_id: uuid::Uuid, now_millis: i64) -> (r: Result<MeetingSummary, MeetingError>)
        ensures
            match find_meeting(old(self).meetings_view(), meeting_id) {
                Some(i) => final(self).meetings_view() == old(self).meetings_view().update(i, Meeting {
                    status: MeetingStatus::Ended,
                    ended_at_millis: Some(now_millis),
                    ..old(self).meetings_view()[i]
                }),
                None => final(self).meetings_view() == old(self).meetings_view(),
            },
            final(self).events_view() == old(self).events_view().push(MeetingEvent::Ended(meeting_id)),
            !old(self).config_view().auto_summary ==> r is Err && (r->Err_0 matches MeetingError::NotFound(s) && s@.len() == 36)
                && final(self).summaries_view() == old(self).summaries_view(),
            find_meeting(old(self).meetings_view(), meeting_id) is None ==> r is Err
                && final(self).summaries_view() == old(self).summaries_view(),
            r is Err ==> final(self).summaries_view() == old(self).summaries_view(),
            r is Ok ==> summary_put(final(self).summaries_view(), old(self).summaries_view(), meeting_id, r->Ok_0),
            final(self).config_view() == old(self).config_view(),
    {
        match meeting_index(&self.meetings, &meeting_id) {
            Some(i) => {
                self.meetings[i].status = MeetingStatus::Ended;
                self.meetings[i].ended_at_millis = Some(now_millis);
                proof {
                    assert(self.meetings@ =~= old(self).meetings@.update(i as int, Meeting {
                        status: MeetingStatus::Ended,
                        ended_at_millis: Some(now_millis),
                        ..old(self).meetings@[i as int]
                    }));
                }
            },
            None => {},
        }
        self.events.push(MeetingEvent::Ended(meeting_id));
        if self.config.auto_summary {
            proof {
                lemma_find_meeting(old(self).meetings@, meeting_id);
                lemma_find_meeting(self.meetings@, meeting_id);
                if find_meeting(old(self).meetings@, meeting_id) is None {
                    assert(self.meetings@ == old(self).meetings@);
                } else {
                    let i = find_meeting(old(self).meetings@, meeting_id)->0;
                    assert(self.meetings@[i].id == meeting_id);
                    assert forall|j: int| 0 <= j < i implies (#[trigger] self.meetings@[j]).id != meeting_id by {
                        assert(self.meetings@[j] == old(self).meetings@[j]);
                    }
                    assert(find_meeting(self.meetings@, meeting_id) is Some);
                }
            }
            self.generate_summary(meeting_id)
        } else {
            Err(MeetingError::NotFound(uuid_text(&meeting_id)))
        }
    }

    /// `end_meeting_at` now.
    pub fn end_meeting(&mut self, meeting_id: uuid::Uuid) -> (r: Result<MeetingSummary, MeetingError>)
        ensures
            match find_meeting(old(self).meetings_view(), meeting_id) {
                Some(i) => final(self).meetings_view()[i].status == MeetingStatus::Ended
                    && final(self).meetings_view()[i].ended_at_millis is Some
                    && final(self).meetings_view().len() == old(self).meetings_view().len(),
                None => final(self).meetings_view() == old(self).meetings_view(),
            },
            final(self).events_view() == old(self).events_view().push(MeetingEvent::Ended(meeting_id)),
            !old(self).config_view().auto_summary ==> r is Err && (r->Err_0 matches MeetingError::NotFound(s) && s@.len() == 36),
            find_meeting(old(self).meetings_view(), meeting_id) is None ==> r is Err,
            r is Err ==> final(self).summaries_view() == old(self).summaries_view(),
            r is Ok ==> summary_put(final(self).summaries_view(), old(self).summaries_view(), meeting_id, r->Ok_0),
            final(self).config_view() == old(self).config_view(),
    {
        proof {
            lemma_find_meeting(self.meetings@, meeting_id);
        }
        self.end_meeting_at(meeting_id, utc_now_millis())
    }

    /// The meeting `id`.
    pub fn get_meeting(&self, id: uuid::Uuid) -> (r: Option<Meeting>)
        ensures
            match find_meeting(self.meetings_view(), id) {
                Some(i) => r is Some && same_meeting(r->0, self.meetings_view()[i]),
                None => r is None,
            },
    {
        match meeting_index(&self.meetings, &id) {
            Some(i) => Some(self.meetings[i].duplicate()),
            None => None,
        }
    }

    /// The summary stored for the meeting `meeting_id`.
    pub fn get_summary(&self, meeting_id: uuid::Uuid) -> (r: Option<MeetingSummary>)
        ensures
            match find_summary(self.summaries_view(), meeting_id) {
                Some(i) => r is Some && same_summary(r->0, self.summaries_view()[i].1),
                None => r is None,
            },
    {
        match summary_index(&self.summaries, &meeting_id) {
            Some(i) => Some(self.summaries[i].1.duplicate()),
            None => None,
        }
    }

    /// The meetings, in the order they were first stored.
    pub fn list_meetings(&self) -> (r: Vec<Meeting>)
        ensures
            same_meetings(r@, self.meetings_view()),
    {
        let mut out: Vec<Meeting> = Vec::new();
        let mut i: usize = 0;
        while i < self.meetings.len()
            invariant
                i <= self.meetings@.len(),
                same_meetings(out@, self.meetings@.take(i as int)),
            decreases self.meetings@.len() - i,
        {
            out.push(self.meetings[i].duplicate());
            i = i + 1;
        }
        assert(self.meetings@.take(i as int) =~= self.meetings@);
        out
    }

    /// How many meetings there are, how many are in progress, and how long
    /// they have lasted by `now_millis` in all.
    pub fn stats_at(&self, now_millis: i64) -> (r: MeetingStats)
        ensures
            r.total_meetings == self.meetings_view().len(),
            r.active_meetings == active_count(self.meetings_view()),
            r.total_duration_minutes == total_minutes(self.meetings_view(), now_millis),
    {
        let mut active: usize = 0;
        let mut total: i64 = 0;
        let mut i: usize = 0;
        while i < self.meetings.len()
            invariant
                i <= self.meetings@.len(),
                active == active_count(self.meetings@.take(i as int)),
                active <= i,
                total == total_minutes(self.meetings@.take(i as int), now_millis),
            decreases self.meetings@.len() - i,
        {
            assert(self.meetings@.take(i as int + 1).drop_last() =~= self.meetings@.take(i as int));
            if self.meetings[i].status == MeetingStatus::InProgress {
                active = active + 1;
            }
            let m = self.meetings[i].duration_minutes_at(now_millis);
            let sum: i128 = total as i128 + m as i128;
            total = if sum > i64::MAX as i128 {
                i64::MAX
            } else if sum < i64::MIN as i128 {
                i64::MIN
            } else {
                sum as i64
            };
            i = i + 1;
        }
        assert(self.meetings@.take(i as int) =~= self.meetings@);
        MeetingStats { total_meetings: self.meetings.len(), active_meetings: active, total_duration_minutes: total }
    }

    /// `stats_at` now.
    pub fn stats(&self) -> (r: MeetingStats)
        ensures
            r.total_meetings == self.meetings_view().len(),
            r.active_meetings == active_count(self.meetings_view()),
    {
        self.stats_at(utc_now_millis())
    }
}

} // verus!
