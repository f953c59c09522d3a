//! Multi-device mesh: the devices a user owns, conversation sessions that
//! move between them, collaborative sessions, and the record of changes to
//! synchronise. The engine keeps the state and decides; the transport that
//! finds devices and carries messages answers it, and the engine takes the
//! answers as arguments.

use vstd::prelude::*;
use crate::clock::unix_millis;
use crate::json::json_clone;
use crate::mediator::{entry_names, find_name, names_of, put_name, put_named};
use crate::memory_graph::{lemma_put_others, value_of};
use crate::multimap::{distinct_keys, has_key, key_index, lemma_key_index_unique};
use crate::text::{decimal, push_decimal_u64, str_eq, string_push_str, to_owned_string};

verus! {

/// Errors of the mesh.
#[derive(Debug, Clone, PartialEq, Eq)]
pub enum MeshError {
    DeviceNotFound(String),
    ConnectionFailed(String),
    HandoffFailed(String),
    SyncFailed(String),
    NotAuthorized(String),
    ProviderError(String),
}

impl MeshError {
    /// The error's description.
    pub fn message(&self) -> (r: String)
        ensures
            r@ == match self {
                MeshError::DeviceNotFound(s) => "Device not found: "@ + s@,
                MeshError::ConnectionFailed(s) => "Connection failed: "@ + s@,
                MeshError::HandoffFailed(s) => "Handoff failed: "@ + s@,
                MeshError::SyncFailed(s) => "Sync failed: "@ + s@,
                MeshError::NotAuthorized(s) => "Not authorized: "@ + s@,
                MeshError::ProviderError(s) => "Provider error: "@ + s@,
            },
    {
        let (head, s) = match self {
            MeshError::DeviceNotFound(s) => ("Device not found: ", s),
            MeshError::ConnectionFailed(s) => ("Connection failed: ", s),
            MeshError::HandoffFailed(s) => ("Handoff failed: ", s),
            MeshError::SyncFailed(s) => ("Sync failed: ", s),
            MeshError::NotAuthorized(s) => ("Not authorized: ", s),
            MeshError::ProviderError(s) => ("Provider error: ", s),
        };
        let mut out = to_owned_string(head);
        string_push_str(&mut out, s.as_str());
        out
    }
}

/// The kind of a device.
#[derive(Debug, Clone, PartialEq, Eq)]
pub enum DeviceType {
    Desktop,
    Laptop,
    Phone,
    Tablet,
    Watch,
    Speaker,
    TV,
    Server,
    Custom(String),
}

/// `a` and `b` are the same kind of device.
pub open spec fn same_type(a: DeviceType, b: DeviceType) -> bool {
    match a {
        DeviceType::Custom(s) => b matches DeviceType::Custom(t) && s@ == t@,
        _ => a == b,
    }
}

impl DeviceType {
    /// A copy of the kind.
    pub fn duplicate(&self) -> (r: Self)
        ensures
            same_type(r, *self),
    {
        match self {
            DeviceType::Desktop => DeviceType::Desktop,
            DeviceType::Laptop => DeviceType::Laptop,
            DeviceType::Phone => DeviceType::Phone,
            DeviceType::Tablet => DeviceType::Tablet,
            DeviceType::Watch => DeviceType::Watch,
            DeviceType::Speaker => DeviceType::Speaker,
            DeviceType::TV => DeviceType::TV,
            DeviceType::Server => DeviceType::Server,
            DeviceType::Custom(s) => DeviceType::Custom(s.clone()),
        }
    }
}

/// The operating system of a device.
#[allow(non_camel_case_types)]
#[derive(Debug, Clone, Copy, PartialEq, Eq, Structural)]
pub enum Platform {
    MacOS,
    iOS,
    Windows,
    Linux,
    Android,
    Web,
    Unknown,
}

/// What a device can do.
#[derive(Debug, Clone, Copy, PartialEq, Eq, Structural)]
pub enum DeviceCapability {
    Display,
    Audio,
    Microphone,
    Camera,
    Keyboard,
    Touch,
    Notifications,
    BackgroundProcessing,
    LocalInference,
    FileAccess,
}

/// Whether a device can be reached.
#[derive(Debug, Clone, Copy, PartialEq, Eq, Structural)]
pub enum DeviceStatus {
    Online,
    Away,
    Busy,
    Offline,
    Unreachable,
}

/// A device of the mesh.
#[derive(Debug)]
pub struct Device {
    pub id: String,
    pub name: String,
    pub device_type: DeviceType,
    pub platform: Platform,
    pub capabilities: Vec<DeviceCapability>,
    pub status: DeviceStatus,
    /// When it was last seen, in seconds since the Unix epoch.
    pub last_seen: u64,
    pub ip_address: Option<String>,
    pub owner_id: String,
}

/// The text of an optional string.
pub open spec fn opt_text(o: Option<String>) -> Option<Seq<char>> {
    match o {
        Some(s) => Some(s@),
        None => None,
    }
}

fn dup_opt(o: &Option<String>) -> (r: Option<String>)
    ensures
        opt_text(r) == opt_text(*o),
{
    match o {
        Some(s) => Some(s.clone()),
        None => None,
    }
}

/// `a` and `b` hold the same values.
pub open spec fn same_device(a: Device, b: Device) -> bool {
    &&& a.id@ == b.id@
    &&& a.name@ == b.name@
    &&& same_type(a.device_type, b.device_type)
    &&& a.platform == b.platform
    &&& a.capabilities@ == b.capabilities@
    &&& a.status == b.status
    &&& a.last_seen == b.last_seen
    &&& opt_text(a.ip_address) == opt_text(b.ip_address)
    &&& a.owner_id@ == b.owner_id@
}

/// `a` and `b` hold devices that are the same, one by one.
pub open spec fn same_devices(a: Seq<Device>, b: Seq<Device>) -> bool {
    &&& a.len() == b.len()
    &&& forall|i: int| 0 <= i < a.len() ==> same_device(#[trigger] a[i], b[i])
}

fn dup_capabilities(v: &Vec<DeviceCapability>) -> (r: Vec<DeviceCapability>)
    ensures
        r@ == v@,
{
    let mut out: Vec<DeviceCapability> = Vec::new();
    let mut i: usize = 0;
    while i < v.len()
        invariant
            i <= v@.len(),
            out@ == v@.take(i as int),
        decreases v@.len() - i,
    {
        out.push(v[i]);
        assert(v@.take(i as int + 1) =~= v@.take(i as int).push(v@[i as int]));
        i = i + 1;
    }
    assert(v@.take(i as int) =~= v@);
    out
}

/// `caps` holds `c`.
fn has_capability(caps: &Vec<DeviceCapability>, c: DeviceCapability) -> (r: bool)
    ensures
        r == caps@.contains(c),
{
    let mut i: usize = 0;
    while i < caps.len()
        invariant
            i <= caps@.len(),
            forall|j: int| 0 <= j < i ==> caps@[j] != c,
        decreases caps@.len() - i,
    {
        if caps[i] == c {
            assert(caps@[i as int] == c);
            return true;
        }
        i = i + 1;
    }
    false
}

impl Device {
    /// A copy of the device.
    pub fn duplicate(&self) -> (r: Self)
        ensures
            same_device(r, *self),
    {
        Device {
            id: self.id.clone(),
            name: self.name.clone(),
            device_type: self.device_type.duplicate(),
            platform: self.platform,
            capabilities: dup_capabilities(&self.capabilities),
            status: self.status,
            last_seen: self.last_seen,
            ip_address: dup_opt(&self.ip_address),
            owner_id: self.owner_id.clone(),
        }
    }
}

/// What a device gives to join the mesh.
#[derive(Debug)]
pub struct DeviceRegistration {
    pub name: String,
    pub device_type: DeviceType,
    pub platform: Platform,
    pub capabilities: Vec<DeviceCapability>,
    pub push_token: Option<String>,
}

/// Who wrote a message.
#[derive(Debug, Clone, Copy, PartialEq, Eq, Structural)]
pub enum MessageRole {
    User,
    Assistant,
    System,
}

/// A message of a session.
#[derive(Debug)]
pub struct Message {
    pub id: String,
    pub role: MessageRole,
    pub content: String,
    /// When it was written, in seconds since the Unix epoch.
    pub timestamp: u64,
}

/// `a` and `b` hold the same values.
pub open spec fn same_message(a: Message, b: Message) -> bool {
    &&& a.id@ == b.id@
    &&& a.role == b.role
    &&& a.content@ == b.content@
    &&& a.timestamp == b.timestamp
}

/// `a` and `b` hold messages that are the same, one by one.
pub open spec fn same_messages(a: Seq<Message>, b: Seq<Message>) -> bool {
    &&& a.len() == b.len()
    &&& forall|i: int| 0 <= i < a.len() ==> same_message(#[trigger] a[i], b[i])
}

impl Message {
    /// A copy of the message.
    pub fn duplicate(&self) -> (r: Self)
        ensures
            same_message(r, *self),
    {
        Message { id: self.id.clone(), role: self.role, content: self.content.clone(), timestamp: self.timestamp }
    }
}

fn dup_messages(v: &Vec<Message>) -> (r: Vec<Message>)
    ensures
        same_messages(r@, v@),
{
    let mut out: Vec<Message> = Vec::new();
    let mut i: usize = 0;
    while i < v.len()
        invariant
            i <= v@.len(),
            same_messages(out@, v@.take(i as int)),
        decreases v@.len() - i,
    {
        out.push(v[i].duplicate());
        i = i + 1;
    }
    assert(v@.take(i as int) =~= v@);
    out
}

/// A stretch of a session on one device.
#[derive(Debug)]
pub struct SessionHistoryEntry {
    pub device_id: String,
    pub device_name: String,
    /// In seconds since the Unix epoch.
    pub started_at: u64,
    /// In seconds since the Unix epoch; `None` while it lasts.
    pub ended_at: Option<u64>,
}

/// `a` and `b` hold the same values.
pub open spec fn same_entry(a: SessionHistoryEntry, b: SessionHistoryEntry) -> bool {
    &&& a.device_id@ == b.device_id@
    &&& a.device_name@ == b.device_name@
    &&& a.started_at == b.started_at
    &&& a.ended_at == b.ended_at
}

/// `a` and `b` hold entries that are the same, one by one.
pub open spec fn same_entries(a: Seq<SessionHistoryEntry>, b: Seq<SessionHistoryEntry>) -> bool {
    &&& a.len() == b.len()
    &&& forall|i: int| 0 <= i < a.len() ==> same_entry(#[trigger] a[i], b[i])
}

fn dup_entries(v: &Vec<SessionHistoryEntry>) -> (r: Vec<SessionHistoryEntry>)
    ensures
        same_entries(r@, v@),
{
    let mut out: Vec<SessionHistoryEntry> = Vec::new();
    let mut i: usize = 0;
    while i < v.len()
        invariant
            i <= v@.len(),
            same_entries(out@, v@.take(i as int)),
        decreases v@.len() - i,
    {
        let e = &v[i];
        out.push(SessionHistoryEntry {
            device_id: e.device_id.clone(),
            device_name: e.device_name.clone(),
            started_at: e.started_at,
            ended_at: e.ended_at,
        });
        i = i + 1;
    }
    assert(v@.take(i as int) =~= v@);
    out
}

/// What a session carries along.
#[derive(Debug)]
pub struct SessionContext {
    pub messages: Vec<Message>,
    pub current_task: Option<String>,
    pub workspace: Option<String>,
    /// Named JSON values, no name twice.
    pub metadata: Vec<(String, serde_json::Value)>,
}

/// The names and values of named JSON values.
pub open spec fn metadata_view(m: Seq<(String, serde_json::Value)>) -> Seq<(Seq<char>, serde_json::Value)> {
    m.map_values(|e: (String, serde_json::Value)| (e.0@, e.1))
}

fn dup_metadata(v: &Vec<(String, serde_json::Value)>) -> (r: Vec<(String, serde_json::Value)>)
    ensures
        metadata_view(r@) == metadata_view(v@),
{
    let mut out: Vec<(String, serde_json::Value)> = Vec::new();
    let mut i: usize = 0;
    while i < v.len()
        invariant
            i <= v@.len(),
            metadata_view(out@) == metadata_view(v@.take(i as int)),
        decreases v@.len() - i,
    {
        out.push((v[i].0.clone(), json_clone(&v[i].1)));
        assert(metadata_view(v@.take(i as int + 1)) =~= metadata_view(v@.take(i as int)).push(
            (v@[i as int].0@, v@[i as int].1),
        ));
        assert(metadata_view(out@) =~= metadata_view(v@.take(i as int + 1)));
        i = i + 1;
    }
    assert(v@.take(i as int) =~= v@);
    out
}

/// `a` and `b` hold the same values.
pub open spec fn same_context(a: SessionContext, b: SessionContext) -> bool {
    &&& same_messages(a.messages@, b.messages@)
    &&& opt_text(a.current_task) == opt_text(b.current_task)
    &&& opt_text(a.workspace) == opt_text(b.workspace)
    &&& metadata_view(a.metadata@) == metadata_view(b.metadata@)
}

/// A conversation that can move from device to device.
#[derive(Debug)]
pub struct Session {
    pub id: String,
    pub user_id: String,
    pub active_device_id: String,
    pub context: SessionContext,
    /// In seconds since the Unix epoch.
    pub created_at: u64,
    /// In seconds since the Unix epoch.
    pub updated_at: u64,
    pub history: Vec<SessionHistoryEntry>,
}

/// `a` and `b` hold the same values.
pub open spec fn same_session(a: Session, b: Session) -> bool {
    &&& a.id@ == b.id@
    &&& a.user_id@ == b.user_id@
    &&& a.active_device_id@ == b.active_device_id@
    &&& same_context(a.context, b.context)
    &&& a.created_at == b.created_at
    &&& a.updated_at == b.updated_at
    &&& same_entries(a.history@, b.history@)
}

impl Session {
    /// A copy of the session.
    pub fn duplicate(&self) -> (r: Self)
        ensures
            same_session(r, *self),
    {
        Session {
            id: self.id.clone(),
            user_id: self.user_id.clone(),
            active_device_id: self.active_device_id.clone(),
            context: SessionContext {
                messages: dup_messages(&self.context.messages),
                current_task: dup_opt(&self.context.current_task),
                workspace: dup_opt(&self.context.workspace),
                metadata: dup_metadata(&self.context.metadata),
            },
            created_at: self.created_at,
            updated_at: self.updated_at,
            history: dup_entries(&self.history),
        }
    }
}

/// What is asked of the transport to move a session.
#[derive(Debug)]
pub struct HandoffRequest {
    pub session_id: String,
    pub from_device_id: String,
    pub to_device_id: String,
    pub preserve_context: bool,
    pub notify_user: bool,
}

/// What the transport answers a handoff.
#[derive(Debug)]
pub struct HandoffResult {
    pub success: bool,
    pub session_id: String,
    pub new_device_id: String,
    pub context_transferred: bool,
    pub error: Option<String>,
}

/// The part a user plays in a collaborative session.
#[derive(Debug, Clone, Copy, PartialEq, Eq, Structural)]
pub enum ParticipantRole {
    Owner,
    Editor,
    Viewer,
}

/// A user in a collaborative session.
#[derive(Debug)]
pub struct Participant {
    pub user_id: String,
    pub device_id: String,
    pub role: ParticipantRole,
    /// In seconds since the Unix epoch.
    pub joined_at: u64,
    pub active: bool,
}

/// A document shared in a collaborative session.
#[derive(Debug)]
pub struct SharedDocument {
    pub id: String,
    pub name: String,
    pub content: String,
    pub last_modified_by: String,
    /// In seconds since the Unix epoch.
    pub last_modified_at: u64,
}

/// Where a user's cursor stands.
#[derive(Debug)]
pub struct CursorPosition {
    pub document_id: String,
    pub line: u32,
    pub column: u32,
}

/// What the participants of a collaborative session share.
#[derive(Debug)]
pub struct SharedContext {
    pub messages: Vec<Message>,
    pub documents: Vec<SharedDocument>,
    /// Cursor positions by user, no user twice.
    pub cursor_positions: Vec<(String, CursorPosition)>,
}

/// What participants may do.
#[derive(Debug, Clone, Copy, PartialEq, Eq, Structural)]
pub struct SessionPermissions {
    pub can_edit: bool,
    pub can_invite: bool,
    pub can_remove_participants: bool,
    pub can_share_documents: bool,
}

/// A session several users work in.
#[derive(Debug)]
pub struct CollaborativeSession {
    pub id: String,
    pub name: String,
    pub owner_id: String,
    pub participants: Vec<Participant>,
    pub shared_context: SharedContext,
    pub permissions: SessionPermissions,
    /// In seconds since the Unix epoch.
    pub created_at: u64,
}

/// What a change does.
#[derive(Debug, Clone, Copy, PartialEq, Eq, Structural)]
pub enum ChangeType {
    Create,
    Update,
    Delete,
}

/// A change to synchronise.
#[derive(Debug)]
pub struct Change {
    pub id: String,
    pub change_type: ChangeType,
    pub entity_type: String,
    pub entity_id: String,
    pub data: serde_json::Value,
    /// In seconds since the Unix epoch.
    pub timestamp: u64,
    pub device_id: String,
}

/// `a` and `b` hold the same values.
pub open spec fn same_change(a: Change, b: Change) -> bool {
    &&& a.id@ == b.id@
    &&& a.change_type == b.change_type
    &&& a.entity_type@ == b.entity_type@
    &&& a.entity_id@ == b.entity_id@
    &&& a.data == b.data
    &&& a.timestamp == b.timestamp
    &&& a.device_id@ == b.device_id@
}

/// `a` and `b` hold changes that are the same, one by one.
pub open spec fn same_changes(a: Seq<Change>, b: Seq<Change>) -> bool {
    &&& a.len() == b.len()
    &&& forall|i: int| 0 <= i < a.len() ==> same_change(#[trigger] a[i], b[i])
}

impl Change {
    /// A copy of the change.
    pub fn duplicate(&self) -> (r: Self)
        ensures
            same_change(r, *self),
    {
        Change {
            id: self.id.clone(),
            change_type: self.change_type,
            entity_type: self.entity_type.clone(),
            entity_id: self.entity_id.clone(),
            data: json_clone(&self.data),
            timestamp: self.timestamp,
            device_id: self.device_id.clone(),
        }
    }
}

/// How a conflict was settled.
#[derive(Debug, Clone, Copy, PartialEq, Eq, Structural)]
pub enum ConflictResolution {
    UseLocal,
    UseRemote,
    Merge,
    Manual,
}

/// Two changes to one entity that disagree.
#[derive(Debug)]
pub struct Conflict {
    pub id: String,
    pub entity_type: String,
    pub entity_id: String,
    pub local_change: Change,
    pub remote_change: Change,
    pub resolution: Option<ConflictResolution>,
}

/// What this device has to synchronise.
#[derive(Debug)]
pub struct SyncState {
    pub device_id: String,
    /// In seconds since the Unix epoch.
    pub last_sync: u64,
    pub sync_version: u64,
    pub pending_changes: Vec<Change>,
    pub conflicts: Vec<Conflict>,
}

/// `e` reports that nothing is known under `text`.
pub open spec fn not_found(e: MeshError, text: Seq<char>) -> bool {
    e matches MeshError::DeviceNotFound(s) && s@ == text
}

/// `e` reports a failed synchronisation with `text`.
pub open spec fn sync_failed(e: MeshError, text: Seq<char>) -> bool {
    e matches MeshError::SyncFailed(s) && s@ == text
}

/// The identifiers after storing the devices `ds` one after another: a
/// known identifier keeps its place, a new one goes last.
pub open spec fn put_ids(ns: Seq<Seq<char>>, ds: Seq<Device>) -> Seq<Seq<char>>
    decreases ds.len(),
{
    if ds.len() == 0 {
        ns
    } else {
        put_name(put_ids(ns, ds.drop_last()), ds.last().id@)
    }
}

/// The last device among `ds` with identifier `id`.
pub open spec fn last_reported(ds: Seq<Device>, id: Seq<char>) -> Option<Device>
    decreases ds.len(),
{
    if ds.len() == 0 {
        None
    } else if ds.last().id@ == id {
        Some(ds.last())
    } else {
        last_reported(ds.drop_last(), id)
    }
}

/// `after` is `before` with the devices `ds` stored by identifier: each
/// identifier of `ds` holds the last device reported under it, every other
/// entry is as it was.
pub open spec fn discovered(after: Seq<(String, Device)>, before: Seq<(String, Device)>, ds: Seq<Device>) -> bool {
    forall|k: Seq<char>|
        match #[trigger] last_reported(ds, k) {
            Some(d) => value_of(after, k) is Some && same_device(value_of(after, k)->0, d),
            None => value_of(after, k) == value_of(before, k),
        }
}

/// The online devices among the entries, in order.
pub open spec fn online_of(es: Seq<(String, Device)>) -> Seq<Device>
    decreases es.len(),
{
    if es.len() == 0 {
        Seq::empty()
    } else if es.last().1.status == DeviceStatus::Online {
        online_of(es.drop_last()).push(es.last().1)
    } else {
        online_of(es.drop_last())
    }
}

/// The devices among the entries that have `c`, in order.
pub open spec fn capable_of(es: Seq<(String, Device)>, c: DeviceCapability) -> Seq<Device>
    decreases es.len(),
{
    if es.len() == 0 {
        Seq::empty()
    } else if es.last().1.capabilities@.contains(c) {
        capable_of(es.drop_last(), c).push(es.last().1)
    } else {
        capable_of(es.drop_last(), c)
    }
}

/// The device `d` with status `status`, last seen at `last_seen`.
pub open spec fn with_status(d: Device, status: DeviceStatus, last_seen: u64) -> Device {
    Device { status, last_seen, ..d }
}

/// `after` differs from `before` at most in the value under `id`.
pub open spec fn only_at<A>(after: Seq<(String, A)>, before: Seq<(String, A)>, id: Seq<char>) -> bool {
    &&& names_of(after) == names_of(before)
    &&& forall|k: Seq<char>| k != id ==> #[trigger] value_of(after, k) == value_of(before, k)
}


/// The identifier `prefix` followed by the decimal notation of `now`.
pub open spec fn stamped_id(prefix: Seq<char>, now: u64) -> Seq<char> {
    prefix + decimal(now as nat)
}

fn stamped(prefix: &str, now: u64) -> (r: String)
    ensures
        r@ == stamped_id(prefix@, now),
{
    let mut out = to_owned_string(prefix);
    push_decimal_u64(&mut out, now);
    out
}

/// `s` is a session just opened by `user` on `local` at `now`: no message,
/// no task, no workspace, no metadata, and one stretch of history on the
/// local device.
pub open spec fn fresh_session(s: Session, user: Seq<char>, local: Seq<char>, now: u64) -> bool {
    &&& s.id@ == stamped_id("session-"@, now)
    &&& s.user_id@ == user
    &&& s.active_device_id@ == local
    &&& s.context.messages@.len() == 0
    &&& s.context.current_task is None
    &&& s.context.workspace is None
    &&& s.context.metadata@.len() == 0
    &&& s.created_at == now
    &&& s.updated_at == now
    &&& s.history@.len() == 1
    &&& s.history@[0].device_id@ == local
    &&& s.history@[0].device_name@ == "Local"@
    &&& s.history@[0].started_at == now
    &&& s.history@[0].ended_at is None
}

fn fresh(user_id: &str, local: &str, now: u64) -> (r: Session)
    ensures
        fresh_session(r, user_id@, local@, now),
{
    Session {
        id: stamped("session-", now),
        user_id: to_owned_string(user_id),
        active_device_id: to_owned_string(local),
        context: SessionContext { messages: Vec::new(), current_task: None, workspace: None, metadata: Vec::new() },
        created_at: now,
        updated_at: now,
        history: vec![
            SessionHistoryEntry {
                device_id: to_owned_string(local),
                device_name: to_owned_string("Local"),
                started_at: now,
                ended_at: None,
            },
        ],
    }
}

proof fn lemma_fresh_same(a: Session, b: Session, user: Seq<char>, local: Seq<char>, now: u64)
    requires
        fresh_session(a, user, local, now),
        fresh_session(b, user, local, now),
    ensures
        same_session(a, b),
{
    assert(metadata_view(a.context.metadata@) =~= metadata_view(b.context.metadata@));
    assert(same_entry(a.history@[0], b.history@[0]));
}

/// `after` is `before` with one more message, by `role` with `content` at
/// `now`, and updated then.
pub open spec fn with_message(after: Session, before: Session, role: MessageRole, content: Seq<char>, now: u64) -> bool {
    &&& after.context.messages@.drop_last() == before.context.messages@
    &&& after.context.messages@.len() == before.context.messages@.len() + 1
    &&& after.context.messages@.last().id@ == stamped_id("msg-"@, now)
    &&& after.context.messages@.last().role == role
    &&& after.context.messages@.last().content@ == content
    &&& after.context.messages@.last().timestamp == now
    &&& after.context.current_task == before.context.current_task
    &&& after.context.workspace == before.context.workspace
    &&& after.context.metadata == before.context.metadata
    &&& after.id == before.id
    &&& after.user_id == before.user_id
    &&& after.active_device_id == before.active_device_id
    &&& after.created_at == before.created_at
    &&& after.updated_at == now
    &&& after.history == before.history
}

/// The history with its last stretch, if any, ended at `now`.
pub open spec fn ended_history(h: Seq<SessionHistoryEntry>, now: u64) -> Seq<SessionHistoryEntry> {
    if h.len() == 0 {
        h
    } else {
        h.update(h.len() - 1, SessionHistoryEntry { ended_at: Some(now), ..h.last() })
    }
}

/// The name of the device `target` as known, else `Unknown`.
pub open spec fn device_name_or_unknown(devices: Seq<(String, Device)>, target: Seq<char>) -> Seq<char> {
    match value_of(devices, target) {
        Some(d) => d.name@,
        None => "Unknown"@,
    }
}

/// `after` is `before` moved to the device `target`, named `name`, at
/// `now`: the last stretch ends then and a new one starts on `target`.
pub open spec fn handed_off(after: Session, before: Session, target: Seq<char>, name: Seq<char>, now: u64) -> bool {
    &&& after.history@.drop_last() == ended_history(before.history@, now)
    &&& after.history@.len() == before.history@.len() + 1
    &&& after.history@.last().device_id@ == target
    &&& after.history@.last().device_name@ == name
    &&& after.history@.last().started_at == now
    &&& after.history@.last().ended_at is None
    &&& after.active_device_id@ == target
    &&& after.updated_at == now
    &&& after.id == before.id
    &&& after.user_id == before.user_id
    &&& after.context == before.context
    &&& after.created_at == before.created_at
}

/// What a device scores as the target of a handoff: a display counts ten,
/// a keyboard five, local inference three.
pub open spec fn handoff_score(caps: Seq<DeviceCapability>) -> int {
    (if caps.contains(DeviceCapability::Display) { 10int } else { 0int })
        + (if caps.contains(DeviceCapability::Keyboard) { 5int } else { 0int })
        + (if caps.contains(DeviceCapability::LocalInference) { 3int } else { 0int })
}

/// `d` is online and not the device `active`.
pub open spec fn handoff_candidate(d: Device, active: Seq<char>) -> bool {
    d.status == DeviceStatus::Online && d.id@ != active
}

/// The candidate with the highest score among the entries, the last of
/// equals.
pub open spec fn best_target(es: Seq<(String, Device)>, active: Seq<char>) -> Option<Device>
    decreases es.len(),
{
    if es.len() == 0 {
        None
    } else {
        let prev = best_target(es.drop_last(), active);
        let d = es.last().1;
        if handoff_candidate(d, active) {
            match prev {
                Some(b) => if handoff_score(d.capabilities@) >= handoff_score(b.capabilities@) {
                    Some(d)
                } else {
                    prev
                },
                None => Some(d),
            }
        } else {
            prev
        }
    }
}

/// The target chosen for a handoff is a candidate that no candidate
/// outscores, and there is one whenever there is a candidate.
pub proof fn lemma_best_target(es: Seq<(String, Device)>, active: Seq<char>)
    ensures
        match best_target(es, active) {
            Some(b) => handoff_candidate(b, active)
                && (exists|i: int| 0 <= i < es.len() && es[i].1 == b)
                && forall|i: int| 0 <= i < es.len() && handoff_candidate(#[trigger] es[i].1, active)
                    ==> handoff_score(es[i].1.capabilities@) <= handoff_score(b.capabilities@),
            None => forall|i: int| 0 <= i < es.len() ==> !handoff_candidate(#[trigger] es[i].1, active),
        },
    decreases es.len(),
{
    if es.len() > 0 {
        let t = es.drop_last();
        let n = es.len() - 1;
        let d = es.last().1;
        lemma_best_target(t, active);
        assert forall|i: int| 0 <= i < t.len() implies #[trigger] t[i] == es[i] by {}
        assert(es[n] == es.last());
        match best_target(es, active) {
            Some(b) => {
                if b == d && handoff_candidate(d, active) {
                    assert(es[n].1 == b);
                } else {
                    let i0 = choose|i: int| 0 <= i < t.len() && t[i].1 == b;
                    assert(es[i0].1 == b);
                }
                assert forall|i: int| 0 <= i < es.len() && handoff_candidate(#[trigger] es[i].1, active) implies
                    handoff_score(es[i].1.capabilities@) <= handoff_score(b.capabilities@) by {
                    if i < n {
                        assert(t[i] == es[i]);
                    }
                }
            },
            None => {
                assert forall|i: int| 0 <= i < es.len() implies !handoff_candidate(#[trigger] es[i].1, active) by {
                    if i < n {
                        assert(t[i] == es[i]);
                    }
                }
            },
        }
    }
}


/// `c` is a collaborative session just opened as `name` by `owner` on
/// `local` at `now`: the owner its one participant, nothing shared yet,
/// every permission granted.
pub open spec fn fresh_collab(c: CollaborativeSession, name: Seq<char>, owner: Seq<char>, local: Seq<char>, now: u64) -> bool {
    &&& c.id@ == stamped_id("collab-"@, now)
    &&& c.name@ == name
    &&& c.owner_id@ == owner
    &&& c.participants@.len() == 1
    &&& c.participants@[0].user_id@ == owner
    &&& c.participants@[0].device_id@ == local
    &&& c.participants@[0].role == ParticipantRole::Owner
    &&& c.participants@[0].joined_at == now
    &&& c.participants@[0].active
    &&& c.shared_context.messages@.len() == 0
    &&& c.shared_context.documents@.len() == 0
    &&& c.shared_context.cursor_positions@.len() == 0
    &&& c.permissions == (SessionPermissions { can_edit: true, can_invite: true, can_remove_participants: true, can_share_documents: true })
    &&& c.created_at == now
}

fn fresh_collaboration(name: &str, owner_id: &str, local: &str, now: u64) -> (r: CollaborativeSession)
    ensures
        fresh_collab(r, name@, owner_id@, local@, now),
{
    CollaborativeSession {
        id: stamped("collab-", now),
        name: to_owned_string(name),
        owner_id: to_owned_string(owner_id),
        participants: vec![
            Participant {
                user_id: to_owned_string(owner_id),
                device_id: to_owned_string(local),
                role: ParticipantRole::Owner,
                joined_at: now,
                active: true,
            },
        ],
        shared_context: SharedContext { messages: Vec::new(), documents: Vec::new(), cursor_positions: Vec::new() },
        permissions: SessionPermissions { can_edit: true, can_invite: true, can_remove_participants: true, can_share_documents: true },
        created_at: now,
    }
}

/// Some participant among `ps` is the user `user`.
pub open spec fn has_participant(ps: Seq<Participant>, user: Seq<char>) -> bool {
    exists|i: int| 0 <= i < ps.len() && (#[trigger] ps[i]).user_id@ == user
}

/// `after` is `before` once `user` joined as `role` from `local` at `now`:
/// unchanged where the user already takes part.
pub open spec fn joined(after: CollaborativeSession, before: CollaborativeSession, user: Seq<char>, local: Seq<char>, role: ParticipantRole, now: u64) -> bool {
    if has_participant(before.participants@, user) {
        after == before
    } else {
        &&& after.participants@.drop_last() == before.participants@
        &&& after.participants@.len() == before.participants@.len() + 1
        &&& after.participants@.last().user_id@ == user
        &&& after.participants@.last().device_id@ == local
        &&& after.participants@.last().role == role
        &&& after.participants@.last().joined_at == now
        &&& after.participants@.last().active
        &&& after.id == before.id
        &&& after.name == before.name
        &&& after.owner_id == before.owner_id
        &&& after.shared_context == before.shared_context
        &&& after.permissions == before.permissions
        &&& after.created_at == before.created_at
    }
}

/// `a` and `b` hold the same values.
pub open spec fn same_participant(a: Participant, b: Participant) -> bool {
    &&& a.user_id@ == b.user_id@
    &&& a.device_id@ == b.device_id@
    &&& a.role == b.role
    &&& a.joined_at == b.joined_at
    &&& a.active == b.active
}

/// The participants other than `user`, in order.
pub open spec fn without_user(ps: Seq<Participant>, user: Seq<char>) -> Seq<Participant>
    decreases ps.len(),
{
    if ps.len() == 0 {
        ps
    } else if ps.last().user_id@ != user {
        without_user(ps.drop_last(), user).push(ps.last())
    } else {
        without_user(ps.drop_last(), user)
    }
}

/// `after` is `before` once `user` left.
pub open spec fn left(after: CollaborativeSession, before: CollaborativeSession, user: Seq<char>) -> bool {
    &&& after.participants@.len() == without_user(before.participants@, user).len()
    &&& forall|i: int| 0 <= i < after.participants@.len()
        ==> same_participant(#[trigger] after.participants@[i], without_user(before.participants@, user)[i])
    &&& after.id == before.id
    &&& after.name == before.name
    &&& after.owner_id == before.owner_id
    &&& after.shared_context == before.shared_context
    &&& after.permissions == before.permissions
    &&& after.created_at == before.created_at
}

/// `d` is a document just shared as `name` with `content` from `local` at
/// `now`.
pub open spec fn fresh_document(d: SharedDocument, name: Seq<char>, content: Seq<char>, local: Seq<char>, now: u64) -> bool {
    &&& d.id@ == stamped_id("doc-"@, now)
    &&& d.name@ == name
    &&& d.content@ == content
    &&& d.last_modified_by@ == local
    &&& d.last_modified_at == now
}

fn new_document(name: &str, content: &str, local: &str, now: u64) -> (r: SharedDocument)
    ensures
        fresh_document(r, name@, content@, local@, now),
{
    SharedDocument {
        id: stamped("doc-", now),
        name: to_owned_string(name),
        content: to_owned_string(content),
        last_modified_by: to_owned_string(local),
        last_modified_at: now,
    }
}

/// `after` is `before` with one more document, shared as `name` with
/// `content` from `local` at `now`.
pub open spec fn with_document(after: CollaborativeSession, before: CollaborativeSession, name: Seq<char>, content: Seq<char>, local: Seq<char>, now: u64) -> bool {
    &&& after.shared_context.documents@.drop_last() == before.shared_context.documents@
    &&& after.shared_context.documents@.len() == before.shared_context.documents@.len() + 1
    &&& fresh_document(after.shared_context.documents@.last(), name, content, local, now)
    &&& after.shared_context.messages == before.shared_context.messages
    &&& after.shared_context.cursor_positions == before.shared_context.cursor_positions
    &&& after.id == before.id
    &&& after.name == before.name
    &&& after.owner_id == before.owner_id
    &&& after.participants == before.participants
    &&& after.permissions == before.permissions
    &&& after.created_at == before.created_at
}

/// `s` is the synchronisation state of `local` just initialised at `now`.
pub open spec fn fresh_sync(s: SyncState, local: Seq<char>, now: u64) -> bool {
    &&& s.device_id@ == local
    &&& s.last_sync == now
    &&& s.sync_version == 0
    &&& s.pending_changes@.len() == 0
    &&& s.conflicts@.len() == 0
}

fn new_sync_state(local: &str, now: u64) -> (r: SyncState)
    ensures
        fresh_sync(r, local@, now),
{
    SyncState { device_id: to_owned_string(local), last_sync: now, sync_version: 0, pending_changes: Vec::new(), conflicts: Vec::new() }
}

/// The position of the first conflict with identifier `id`.
pub open spec fn first_conflict(cs: Seq<Conflict>, id: Seq<char>) -> Option<int>
    decreases cs.len(),
{
    if cs.len() == 0 {
        None
    } else {
        match first_conflict(cs.drop_last(), id) {
            Some(i) => Some(i),
            None => if cs.last().id@ == id { Some(cs.len() - 1) } else { None },
        }
    }
}

proof fn lemma_first_conflict(cs: Seq<Conflict>, id: Seq<char>)
    ensures
        match first_conflict(cs, id) {
            Some(i) => 0 <= i < cs.len() && cs[i].id@ == id && forall|j: int| 0 <= j < i ==> (#[trigger] cs[j]).id@ != id,
            None => forall|j: int| 0 <= j < cs.len() ==> (#[trigger] cs[j]).id@ != id,
        },
    decreases cs.len(),
{
    if cs.len() > 0 {
        let t = cs.drop_last();
        lemma_first_conflict(t, id);
        assert forall|j: int| 0 <= j < t.len() implies #[trigger] t[j] == cs[j] by {}
        match first_conflict(t, id) {
            Some(i) => {
                assert(t[i] == cs[i]);
                assert forall|j: int| 0 <= j < i implies (#[trigger] cs[j]).id@ != id by {
                    assert(t[j] == cs[j]);
                }
            },
            None => {
                assert forall|j: int| 0 <= j < cs.len() - 1 implies (#[trigger] cs[j]).id@ != id by {
                    assert(t[j] == cs[j]);
                }
            },
        }
    }
}

fn conflict_index(cs: &Vec<Conflict>, id: &str) -> (r: Option<usize>)
    ensures
        match r {
            Some(i) => i < cs@.len() && first_conflict(cs@, id@) == Some(i as int),
            None => first_conflict(cs@, id@) is None,
        },
{
    proof {
        lemma_first_conflict(cs@, id@);
    }
    let mut i: usize = 0;
    while i < cs.len()
        invariant
            i <= cs@.len(),
            forall|j: int| 0 <= j < i ==> (#[trigger] cs@[j]).id@ != id@,
            match first_conflict(cs@, id@) {
                Some(k) => 0 <= k < cs@.len() && cs@[k].id@ == id@ && forall|j: int| 0 <= j < k ==> (#[trigger] cs@[j]).id@ != id@,
                None => forall|j: int| 0 <= j < cs@.len() ==> (#[trigger] cs@[j]).id@ != id@,
            },
        decreases cs@.len() - i,
    {
        if str_eq(cs[i].id.as_str(), id) {
            return Some(i);
        }
        i = i + 1;
    }
    None
}

fn has_participant_exec(ps: &Vec<Participant>, user: &str) -> (r: bool)
    ensures
        r == has_participant(ps@, user@),
{
    let mut i: usize = 0;
    while i < ps.len()
        invariant
            i <= ps@.len(),
            forall|j: int| 0 <= j < i ==> (#[trigger] ps@[j]).user_id@ != user@,
        decreases ps@.len() - i,
    {
        if str_eq(ps[i].user_id.as_str(), user) {
            return true;
        }
        i = i + 1;
    }
    false
}

/// The conflicts once the first with identifier `id`, if any, is settled
/// by `resolution`.
pub open spec fn resolved(cs: Seq<Conflict>, id: Seq<char>, resolution: ConflictResolution) -> Seq<Conflict> {
    match first_conflict(cs, id) {
        Some(i) => cs.update(i, Conflict { resolution: Some(resolution), ..cs[i] }),
        None => cs,
    }
}

/// The state of the mesh on this device.
pub struct MeshEngine {
    local_device_id: String,
    devices: Vec<(String, Device)>,
    sessions: Vec<(String, Session)>,
    collaborative_sessions: Vec<(String, CollaborativeSession)>,
    sync_state: Option<SyncState>,
}

/// The seconds since the Unix epoch, now.
fn now_secs() -> u64 {
    unix_millis() / 1000
}

proof fn lemma_only_at<A>(before: Seq<(String, A)>, after: Seq<(String, A)>, i: int)
    requires
        distinct_keys(entry_names(before)),
        0 <= i < before.len(),
        after.len() == before.len(),
        forall|j: int| 0 <= j < before.len() && j != i ==> after[j] == before[j],
        after[i].0@ == before[i].0@,
    ensures
        distinct_keys(entry_names(after)),
        only_at(after, before, before[i].0@),
        has_key(entry_names(after), before[i].0@),
        key_index(entry_names(after), before[i].0@) == i,
        value_of(after, before[i].0@) == Some(after[i].1),
{
    assert(entry_names(after) =~= entry_names(before));
    assert(names_of(after) =~= names_of(before));
    assert(entry_names(before)[i].0 == before[i].0@);
    lemma_key_index_unique(entry_names(before), i);
    assert forall|k: Seq<char>| k != before[i].0@ implies #[trigger] value_of(after, k) == value_of(before, k) by {
        if has_key(entry_names(before), k) {
            let j = key_index(entry_names(before), k);
            assert(entry_names(before)[j].0 == k);
        }
    }
}

impl MeshEngine {
    /// The identifier of this device.
    pub closed spec fn local_view(&self) -> Seq<char> {
        self.local_device_id@
    }

    /// The devices known, by identifier.
    pub closed spec fn devices_view(&self) -> Seq<(String, Device)> {
        self.devices@
    }

    /// The sessions, by identifier.
    pub closed spec fn sessions_view(&self) -> Seq<(String, Session)> {
        self.sessions@
    }

    /// The collaborative sessions, by identifier.
    pub closed spec fn collab_view(&self) -> Seq<(String, CollaborativeSession)> {
        self.collaborative_sessions@
    }

    /// This device's synchronisation state, once initialised.
    pub closed spec fn sync_view(&self) -> Option<SyncState> {
        self.sync_state
    }

    /// No identifier is stored twice.
    pub open spec fn wf(&self) -> bool {
        &&& distinct_keys(entry_names(self.devices_view()))
        &&& distinct_keys(entry_names(self.sessions_view()))
        &&& distinct_keys(entry_names(self.collab_view()))
    }

    /// An engine for the device `local_device_id`, knowing nothing yet.
    pub fn new(local_device_id: String) -> (r: Self)
        ensures
            r.wf(),
            r.local_view() == local_device_id@,
            r.devices_view().len() == 0,
            r.sessions_view().len() == 0,
            r.collab_view().len() == 0,
            r.sync_view() is None,
    {
        MeshEngine {
            local_device_id,
            devices: Vec::new(),
            sessions: Vec::new(),
            collaborative_sessions: Vec::new(),
            sync_state: None,
        }
    }

    /// The identifier of this device.
    pub fn local_device_id(&self) -> (r: &str)
        ensures
            r@ == self.local_view(),
    {
        self.local_device_id.as_str()
    }

    /// Take what discovery found: on success store each device under its
    /// identifier, a later one replacing an earlier, and hand the devices
    /// back; a failure is handed back with nothing changed.
    pub fn discover_devices(&mut self, found: Result<Vec<Device>, MeshError>) -> (r: Result<Vec<Device>, MeshError>)
        requires
            old(self).wf(),
        ensures
            final(self).wf(),
            r == found,
            match found {
                Ok(ds) => names_of(final(self).devices_view()) == put_ids(names_of(old(self).devices_view()), ds@)
                    && discovered(final(self).devices_view(), old(self).devices_view(), ds@),
                Err(_) => final(self).devices_view() == old(self).devices_view(),
            },
            final(self).local_view() == old(self).local_view(),
            final(self).sessions_view() == old(self).sessions_view(),
            final(self).collab_view() == old(self).collab_view(),
            final(self).sync_view() == old(self).sync_view(),
    {
        match found {
            Err(e) => Err(e),
            Ok(ds) => {
                let ghost before = self.devices@;
                let mut i: usize = 0;
                while i < ds.len()
                    invariant
                        i <= ds@.len(),
                        distinct_keys(entry_names(self.devices@)),
                        names_of(self.devices@) == put_ids(names_of(before), ds@.take(i as int)),
                        discovered(self.devices@, before, ds@.take(i as int)),
                        self.local_device_id == old(self).local_device_id,
                        self.sessions == old(self).sessions,
                        self.collaborative_sessions == old(self).collaborative_sessions,
                        self.sync_state == old(self).sync_state,
                    decreases ds@.len() - i,
                {
                    let ghost prev = self.devices@;
                    let ghost t = ds@.take(i as int);
                    let ghost x = ds@[i as int];
                    let d = ds[i].duplicate();
                    put_named(&mut self.devices, ds[i].id.as_str(), d);
                    proof {
                        let t2 = ds@.take(i as int + 1);
                        assert(t2.drop_last() =~= t);
                        assert(t2.last() == x);
                        lemma_put_others(prev, self.devices@, x.id@);
                        assert forall|k: Seq<char>|
                            match #[trigger] last_reported(t2, k) {
                                Some(d) => value_of(self.devices@, k) is Some && same_device(value_of(self.devices@, k)->0, d),
                                None => value_of(self.devices@, k) == value_of(before, k),
                            } by {
                            if k != x.id@ {
                                assert(last_reported(t2, k) == last_reported(t, k));
                                assert(value_of(self.devices@, k) == value_of(prev, k));
                            }
                        }
                    }
                    i = i + 1;
                }
                assert(ds@.take(i as int) =~= ds@);
                Ok(ds)
            },
        }
    }

    /// The device with identifier `device_id`.
    pub fn get_device(&self, device_id: &str) -> (r: Result<Device, MeshError>)
        requires
            self.wf(),
        ensures
            r is Ok <==> value_of(self.devices_view(), device_id@) is Some,
            r is Ok ==> same_device(r->Ok_0, value_of(self.devices_view(), device_id@)->0),
            r is Err ==> not_found(r->Err_0, device_id@),
    {
        match find_name(&self.devices, device_id) {
            Some(i) => Ok(self.devices[i].1.duplicate()),
            None => Err(MeshError::DeviceNotFound(to_owned_string(device_id))),
        }
    }

    /// The online devices, in the order they were first stored.
    pub fn get_online_devices(&self) -> (r: Vec<Device>)
        ensures
            same_devices(r@, online_of(self.devices_view())),
    {
        let mut out: Vec<Device> = Vec::new();
        let mut i: usize = 0;
        while i < self.devices.len()
            invariant
                i <= self.devices@.len(),
                same_devices(out@, online_of(self.devices@.take(i as int))),
            decreases self.devices@.len() - i,
        {
            assert(self.devices@.take(i as int + 1).drop_last() =~= self.devices@.take(i as int));
            if self.devices[i].1.status == DeviceStatus::Online {
                out.push(self.devices[i].1.duplicate());
            }
            i = i + 1;
        }
        assert(self.devices@.take(i as int) =~= self.devices@);
        out
    }

    /// The devices that have `capability`, in the order they were first
    /// stored.
    pub fn get_devices_by_capability(&self, capability: DeviceCapability) -> (r: Vec<Device>)
        ensures
            same_devices(r@, capable_of(self.devices_view(), capability)),
    {
        let mut out: Vec<Device> = Vec::new();
        let mut i: usize = 0;
        while i < self.devices.len()
            invariant
                i <= self.devices@.len(),
                same_devices(out@, capable_of(self.devices@.take(i as int), capability)),
            decreases self.devices@.len() - i,
        {
            assert(self.devices@.take(i as int + 1).drop_last() =~= self.devices@.take(i as int));
            if has_capability(&self.devices[i].1.capabilities, capability) {
                out.push(self.devices[i].1.duplicate());
            }
            i = i + 1;
        }
        assert(self.devices@.take(i as int) =~= self.devices@);
        out
    }

    fn set_status(&mut self, device_id: &str, status: DeviceStatus, last_seen: Option<u64>)
        requires
            old(self).wf(),
        ensures
            final(self).wf(),
            only_at(final(self).devices_view(), old(self).devices_view(), device_id@),
            value_of(final(self).devices_view(), device_id@) == match value_of(old(self).devices_view(), device_id@) {
                Some(d) => Some(with_status(d, status, match last_seen { Some(t) => t, None => d.last_seen })),
                None => None,
            },
            final(self).local_view() == old(self).local_view(),
            final(self).sessions_view() == old(self).sessions_view(),
            final(self).collab_view() == old(self).collab_view(),
            final(self).sync_view() == old(self).sync_view(),
    {
        match find_name(&self.devices, device_id) {
            Some(i) => {
                let ghost before = self.devices@;
                self.devices[i].1.status = status;
                match last_seen {
                    Some(t) => {
                        self.devices[i].1.last_seen = t;
                    },
                    None => {},
                }
                proof {
                    lemma_only_at(before, self.devices@, i as int);
                }
            },
            None => {
                assert(names_of(self.devices@) =~= names_of(self.devices@));
            },
        }
    }

    /// Take the transport's answer to connecting `device_id` at `now_secs`:
    /// on success the device, where known, is online and last seen then;
    /// a failure is handed back with nothing changed.
    pub fn connect_to_device_at(&mut self, device_id: &str, outcome: Result<(), MeshError>, now_secs: u64) -> (r: Result<(), MeshError>)
        requires
            old(self).wf(),
        ensures
            final(self).wf(),
            r == outcome,
            outcome is Ok ==> only_at(final(self).devices_view(), old(self).devices_view(), device_id@)
                && value_of(final(self).devices_view(), device_id@) == match value_of(old(self).devices_view(), device_id@) {
                    Some(d) => Some(with_status(d, DeviceStatus::Online, now_secs)),
                    None => None,
                },
            outcome is Err ==> final(self).devices_view() == old(self).devices_view(),
            final(self).local_view() == old(self).local_view(),
            final(self).sessions_view() == old(self).sessions_view(),
            final(self).collab_view() == old(self).collab_view(),
            final(self).sync_view() == old(self).sync_view(),
    {
        if outcome.is_ok() {
            self.set_status(device_id, DeviceStatus::Online, Some(now_secs));
        }
        outcome
    }

    /// `connect_to_device_at` with the current time.
    pub fn connect_to_device(&mut self, device_id: &str, outcome: Result<(), MeshError>) -> (r: Result<(), MeshError>)
        requires
            old(self).wf(),
        ensures
            final(self).wf(),
            r == outcome,
            outcome is Ok ==> only_at(final(self).devices_view(), old(self).devices_view(), device_id@)
                && value_of(final(self).devices_view(), device_id@) is Some == value_of(old(self).devices_view(), device_id@) is Some
                && (value_of(final(self).devices_view(), device_id@) is Some ==> value_of(final(self).devices_view(), device_id@)->0.status == DeviceStatus::Online),
            outcome is Err ==> final(self).devices_view() == old(self).devices_view(),
            final(self).local_view() == old(self).local_view(),
            final(self).sessions_view() == old(self).sessions_view(),
            final(self).collab_view() == old(self).collab_view(),
            final(self).sync_view() == old(self).sync_view(),
    {
        self.connect_to_device_at(device_id, outcome, now_secs())
    }

    /// Take the transport's answer to disconnecting `device_id`: on success
    /// the device, where known, is offline; a failure is handed back with
    /// nothing changed.
    pub fn disconnect_from_device(&mut self, device_id: &str, outcome: Result<(), MeshError>) -> (r: Result<(), MeshError>)
        requires
            old(self).wf(),
        ensures
            final(self).wf(),
            r == outcome,
            outcome is Ok ==> only_at(final(self).devices_view(), old(self).devices_view(), device_id@)
                && value_of(final(self).devices_view(), device_id@) == match value_of(old(self).devices_view(), device_id@) {
                    Some(d) => Some(with_status(d, DeviceStatus::Offline, d.last_seen)),
                    None => None,
                },
            outcome is Err ==> final(self).devices_view() == old(self).devices_view(),
            final(self).local_view() == old(self).local_view(),
            final(self).sessions_view() == old(self).sessions_view(),
            final(self).collab_view() == old(self).collab_view(),
            final(self).sync_view() == old(self).sync_view(),
    {
        if outcome.is_ok() {
            self.set_status(device_id, DeviceStatus::Offline, None);
        }
        outcome
    }
    /// Open a session for `user_id` on this device at `now_secs`, stored
    /// under its identifier (replacing one opened in the same second).
    pub fn create_session_at(&mut self, user_id: &str, now_secs: u64) -> (r: Result<Session, MeshError>)
        requires
            old(self).wf(),
        ensures
            final(self).wf(),
            r is Ok,
            fresh_session(r->Ok_0, user_id@, old(self).local_view(), now_secs),
            names_of(final(self).sessions_view()) == put_name(names_of(old(self).sessions_view()), stamped_id("session-"@, now_secs)),
            value_of(final(self).sessions_view(), stamped_id("session-"@, now_secs)) is Some,
            fresh_session(value_of(final(self).sessions_view(), stamped_id("session-"@, now_secs))->0, user_id@, old(self).local_view(), now_secs),
            same_session(value_of(final(self).sessions_view(), r->Ok_0.id@)->0, r->Ok_0),
            forall|k: Seq<char>| k != stamped_id("session-"@, now_secs)
                ==> #[trigger] value_of(final(self).sessions_view(), k) == value_of(old(self).sessions_view(), k),
            final(self).local_view() == old(self).local_view(),
            final(self).devices_view() == old(self).devices_view(),
            final(self).collab_view() == old(self).collab_view(),
            final(self).sync_view() == old(self).sync_view(),
    {
        let stored = fresh(user_id, self.local_device_id.as_str(), now_secs);
        let copy = fresh(user_id, self.local_device_id.as_str(), now_secs);
        let key = stamped("session-", now_secs);
        let ghost before = self.sessions@;
        put_named(&mut self.sessions, key.as_str(), stored);
        proof {
            lemma_put_others(before, self.sessions@, key@);
            lemma_fresh_same(self.sessions@[key_index(entry_names(self.sessions@), key@)].1, copy, user_id@, self.local_device_id@, now_secs);
        }
        Ok(copy)
    }

    /// `create_session_at` with the current time.
    pub fn create_session(&mut self, user_id: &str) -> (r: Result<Session, MeshError>)
        requires
            old(self).wf(),
        ensures
            final(self).wf(),
            r is Ok,
            value_of(final(self).sessions_view(), r->Ok_0.id@) is Some,
            same_session(value_of(final(self).sessions_view(), r->Ok_0.id@)->0, r->Ok_0),
            r->Ok_0.user_id@ == user_id@,
            r->Ok_0.active_device_id@ == old(self).local_view(),
            r->Ok_0.history@.len() == 1,
            r->Ok_0.context.messages@.len() == 0,
            final(self).local_view() == old(self).local_view(),
            final(self).devices_view() == old(self).devices_view(),
            final(self).collab_view() == old(self).collab_view(),
            final(self).sync_view() == old(self).sync_view(),
    {
        let now = now_secs();
        self.create_session_at(user_id, now)
    }

    /// The session with identifier `session_id`.
    pub fn get_session(&self, session_id: &str) -> (r: Result<Session, MeshError>)
        requires
            self.wf(),
        ensures
            r is Ok <==> value_of(self.sessions_view(), session_id@) is Some,
            r is Ok ==> same_session(r->Ok_0, value_of(self.sessions_view(), session_id@)->0),
            r is Err ==> not_found(r->Err_0, "Session "@ + session_id@),
    {
        match find_name(&self.sessions, session_id) {
            Some(i) => Ok(self.sessions[i].1.duplicate()),
            None => {
                let mut text = to_owned_string("Session ");
                string_push_str(&mut text, session_id);
                Err(MeshError::DeviceNotFound(text))
            },
        }
    }

    /// Add a message by `role` with `content` to the session `session_id`
    /// at `now_secs`.
    pub fn add_message_to_session_at(&mut self, session_id: &str, role: MessageRole, content: &str, now_secs: u64) -> (r: Result<(), MeshError>)
        requires
            old(self).wf(),
        ensures
            final(self).wf(),
            r is Ok <==> value_of(old(self).sessions_view(), session_id@) is Some,
            r is Ok ==> only_at(final(self).sessions_view(), old(self).sessions_view(), session_id@)
                && value_of(final(self).sessions_view(), session_id@) is Some
                && with_message(value_of(final(self).sessions_view(), session_id@)->0,
                    value_of(old(self).sessions_view(), session_id@)->0, role, content@, now_secs),
            r is Err ==> not_found(r->Err_0, "Session "@ + session_id@)
                && final(self).sessions_view() == old(self).sessions_view(),
            final(self).local_view() == old(self).local_view(),
            final(self).devices_view() == old(self).devices_view(),
            final(self).collab_view() == old(self).collab_view(),
            final(self).sync_view() == old(self).sync_view(),
    {
        match find_name(&self.sessions, session_id) {
            Some(i) => {
                let ghost before = self.sessions@;
                let m = Message { id: stamped("msg-", now_secs), role, content: to_owned_string(content), timestamp: now_secs };
                self.sessions[i].1.context.messages.push(m);
                self.sessions[i].1.updated_at = now_secs;
                proof {
                    lemma_only_at(before, self.sessions@, i as int);
                    assert(self.sessions@[i as int].1.context.messages@.drop_last() =~= before[i as int].1.context.messages@);
                }
                Ok(())
            },
            None => {
                let mut text = to_owned_string("Session ");
                string_push_str(&mut text, session_id);
                Err(MeshError::DeviceNotFound(text))
            },
        }
    }

    /// `add_message_to_session_at` with the current time.
    pub fn add_message_to_session(&mut self, session_id: &str, role: MessageRole, content: &str) -> (r: Result<(), MeshError>)
        requires
            old(self).wf(),
        ensures
            final(self).wf(),
            r is Ok <==> value_of(old(self).sessions_view(), session_id@) is Some,
            r is Ok ==> only_at(final(self).sessions_view(), old(self).sessions_view(), session_id@)
                && value_of(final(self).sessions_view(), session_id@) is Some
                && exists|now: u64| with_message(value_of(final(self).sessions_view(), session_id@)->0,
                    value_of(old(self).sessions_view(), session_id@)->0, role, content@, now),
            r is Err ==> not_found(r->Err_0, "Session "@ + session_id@)
                && final(self).sessions_view() == old(self).sessions_view(),
            final(self).local_view() == old(self).local_view(),
            final(self).devices_view() == old(self).devices_view(),
            final(self).collab_view() == old(self).collab_view(),
            final(self).sync_view() == old(self).sync_view(),
    {
        let now = now_secs();
        self.add_message_to_session_at(session_id, role, content, now)
    }

    /// What to ask of the transport to move the session `session_id` to the
    /// device `target_device_id`, keeping its context and telling the user.
    pub fn handoff_request(&self, session_id: &str, target_device_id: &str) -> (r: Result<HandoffRequest, MeshError>)
        requires
            self.wf(),
        ensures
            r is Ok <==> value_of(self.sessions_view(), session_id@) is Some,
            r is Ok ==> r->Ok_0.session_id@ == session_id@
                && r->Ok_0.from_device_id@ == value_of(self.sessions_view(), session_id@)->0.active_device_id@
                && r->Ok_0.to_device_id@ == target_device_id@
                && r->Ok_0.preserve_context
                && r->Ok_0.notify_user,
            r is Err ==> not_found(r->Err_0, "Session "@ + session_id@),
    {
        match find_name(&self.sessions, session_id) {
            Some(i) => Ok(HandoffRequest {
                session_id: to_owned_string(session_id),
                from_device_id: self.sessions[i].1.active_device_id.clone(),
                to_device_id: to_owned_string(target_device_id),
                preserve_context: true,
                notify_user: true,
            }),
            None => {
                let mut text = to_owned_string("Session ");
                string_push_str(&mut text, session_id);
                Err(MeshError::DeviceNotFound(text))
            },
        }
    }

    /// Take the transport's answer to moving the session `session_id` to
    /// `target_device_id`, at `now_secs`: where it succeeded and the session
    /// is known, the session's last stretch ends, a new one starts on the
    /// target under its known name (else `Unknown`), and the target becomes
    /// the active device. The answer is handed back.
    pub fn handoff_to_device_at(&mut self, session_id: &str, target_device_id: &str, outcome: Result<HandoffResult, MeshError>, now_secs: u64) -> (r: Result<HandoffResult, MeshError>)
        requires
            old(self).wf(),
        ensures
            final(self).wf(),
            r == outcome,
            (outcome is Ok && outcome->Ok_0.success && value_of(old(self).sessions_view(), session_id@) is Some)
                ==> only_at(final(self).sessions_view(), old(self).sessions_view(), session_id@)
                && value_of(final(self).sessions_view(), session_id@) is Some
                && handed_off(value_of(final(self).sessions_view(), session_id@)->0,
                    value_of(old(self).sessions_view(), session_id@)->0, target_device_id@,
                    device_name_or_unknown(old(self).devices_view(), target_device_id@), now_secs),
            !(outcome is Ok && outcome->Ok_0.success && value_of(old(self).sessions_view(), session_id@) is Some)
                ==> final(self).sessions_view() == old(self).sessions_view(),
            final(self).local_view() == old(self).local_view(),
            final(self).devices_view() == old(self).devices_view(),
            final(self).collab_view() == old(self).collab_view(),
            final(self).sync_view() == old(self).sync_view(),
    {
        let succeeded = match &outcome {
            Ok(res) => res.success,
            Err(_) => false,
        };
        if succeeded {
            match find_name(&self.sessions, session_id) {
                Some(i) => {
                    let ghost before = self.sessions@;
                    let name = match find_name(&self.devices, target_device_id) {
                        Some(j) => self.devices[j].1.name.clone(),
                        None => to_owned_string("Unknown"),
                    };
                    let n = self.sessions[i].1.history.len();
                    if n > 0 {
                        self.sessions[i].1.history[n - 1].ended_at = Some(now_secs);
                    }
                    let ghost ended = self.sessions@[i as int].1.history@;
                    self.sessions[i].1.history.push(SessionHistoryEntry {
                        device_id: to_owned_string(target_device_id),
                        device_name: name,
                        started_at: now_secs,
                        ended_at: None,
                    });
                    self.sessions[i].1.active_device_id = to_owned_string(target_device_id);
                    self.sessions[i].1.updated_at = now_secs;
                    proof {
                        lemma_only_at(before, self.sessions@, i as int);
                        assert(ended =~= ended_history(before[i as int].1.history@, now_secs));
                        assert(self.sessions@[i as int].1.history@.drop_last() =~= ended);
                    }
                },
                None => {},
            }
        }
        outcome
    }

    /// `handoff_to_device_at` with the current time.
    pub fn handoff_to_device(&mut self, session_id: &str, target_device_id: &str, outcome: Result<HandoffResult, MeshError>) -> (r: Result<HandoffResult, MeshError>)
        requires
            old(self).wf(),
        ensures
            final(self).wf(),
            r == outcome,
            (outcome is Ok && outcome->Ok_0.success && value_of(old(self).sessions_view(), session_id@) is Some)
                ==> only_at(final(self).sessions_view(), old(self).sessions_view(), session_id@)
                && value_of(final(self).sessions_view(), session_id@) is Some
                && exists|now: u64| handed_off(value_of(final(self).sessions_view(), session_id@)->0,
                    value_of(old(self).sessions_view(), session_id@)->0, target_device_id@,
                    device_name_or_unknown(old(self).devices_view(), target_device_id@), now),
            !(outcome is Ok && outcome->Ok_0.success && value_of(old(self).sessions_view(), session_id@) is Some)
                ==> final(self).sessions_view() == old(self).sessions_view(),
            final(self).local_view() == old(self).local_view(),
            final(self).devices_view() == old(self).devices_view(),
            final(self).collab_view() == old(self).collab_view(),
            final(self).sync_view() == old(self).sync_view(),
    {
        let now = now_secs();
        self.handoff_to_device_at(session_id, target_device_id, outcome, now)
    }

    /// `handoff_to_device_at` with this device as the target.
    pub fn request_handoff_here_at(&mut self, session_id: &str, outcome: Result<HandoffResult, MeshError>, now_secs: u64) -> (r: Result<HandoffResult, MeshError>)
        requires
            old(self).wf(),
        ensures
            final(self).wf(),
            r == outcome,
            (outcome is Ok && outcome->Ok_0.success && value_of(old(self).sessions_view(), session_id@) is Some)
                ==> only_at(final(self).sessions_view(), old(self).sessions_view(), session_id@)
                && value_of(final(self).sessions_view(), session_id@) is Some
                && handed_off(value_of(final(self).sessions_view(), session_id@)->0,
                    value_of(old(self).sessions_view(), session_id@)->0, old(self).local_view(),
                    device_name_or_unknown(old(self).devices_view(), old(self).local_view()), now_secs),
            !(outcome is Ok && outcome->Ok_0.success && value_of(old(self).sessions_view(), session_id@) is Some)
                ==> final(self).sessions_view() == old(self).sessions_view(),
            final(self).local_view() == old(self).local_view(),
            final(self).devices_view() == old(self).devices_view(),
            final(self).collab_view() == old(self).collab_view(),
            final(self).sync_view() == old(self).sync_view(),
    {
        let local = self.local_device_id.clone();
        self.handoff_to_device_at(session_id, local.as_str(), outcome, now_secs)
    }

    /// `request_handoff_here_at` with the current time.
    pub fn request_handoff_here(&mut self, session_id: &str, outcome: Result<HandoffResult, MeshError>) -> (r: Result<HandoffResult, MeshError>)
        requires
            old(self).wf(),
        ensures
            final(self).wf(),
            r == outcome,
            (outcome is Ok && outcome->Ok_0.success && value_of(old(self).sessions_view(), session_id@) is Some)
                ==> value_of(final(self).sessions_view(), session_id@) is Some
                && value_of(final(self).sessions_view(), session_id@)->0.active_device_id@ == old(self).local_view(),
            !(outcome is Ok && outcome->Ok_0.success && value_of(old(self).sessions_view(), session_id@) is Some)
                ==> final(self).sessions_view() == old(self).sessions_view(),
            final(self).local_view() == old(self).local_view(),
            final(self).devices_view() == old(self).devices_view(),
            final(self).collab_view() == old(self).collab_view(),
            final(self).sync_view() == old(self).sync_view(),
    {
        let now = now_secs();
        self.request_handoff_here_at(session_id, outcome, now)
    }

    /// The best device to move the session `session_id` to: among the
    /// online devices other than the session's active one, the one with the
    /// highest handoff score, the last of equals.
    pub fn find_best_handoff_target(&self, session_id: &str) -> (r: Result<Option<Device>, MeshError>)
        requires
            self.wf(),
        ensures
            r is Ok <==> value_of(self.sessions_view(), session_id@) is Some,
            r is Ok ==> match best_target(self.devices_view(), value_of(self.sessions_view(), session_id@)->0.active_device_id@) {
                Some(b) => r->Ok_0 is Some && same_device(r->Ok_0->0, b),
                None => r->Ok_0 is None,
            },
            r is Err ==> not_found(r->Err_0, "Session "@ + session_id@),
    {
        match find_name(&self.sessions, session_id) {
            Some(si) => {
                let active = self.sessions[si].1.active_device_id.as_str();
                let mut best: Option<usize> = None;
                let mut best_score: u64 = 0;
                let mut i: usize = 0;
                while i < self.devices.len()
                    invariant
                        i <= self.devices@.len(),
                        active@ == self.sessions@[si as int].1.active_device_id@,
                        match best_target(self.devices@.take(i as int), active@) {
                            Some(b) => best is Some && best->0 < i && self.devices@[best->0 as int].1 == b
                                && best_score == handoff_score(b.capabilities@),
                            None => best is None,
                        },
                    decreases self.devices@.len() - i,
                {
                    assert(self.devices@.take(i as int + 1).drop_last() =~= self.devices@.take(i as int));
                    let d = &self.devices[i].1;
                    if d.status == DeviceStatus::Online && !str_eq(d.id.as_str(), active) {
                        let mut score: u64 = 0;
                        if has_capability(&d.capabilities, DeviceCapability::Display) {
                            score = score + 10;
                        }
                        if has_capability(&d.capabilities, DeviceCapability::Keyboard) {
                            score = score + 5;
                        }
                        if has_capability(&d.capabilities, DeviceCapability::LocalInference) {
                            score = score + 3;
                        }
                        match best {
                            Some(_) => {
                                if score >= best_score {
                                    best = Some(i);
                                    best_score = score;
                                }
                            },
                            None => {
                                best = Some(i);
                                best_score = score;
                            },
                        }
                    }
                    i = i + 1;
                }
                assert(self.devices@.take(i as int) =~= self.devices@);
                match best {
                    Some(b) => Ok(Some(self.devices[b].1.duplicate())),
                    None => Ok(None),
                }
            },
            None => {
                let mut text = to_owned_string("Session ");
                string_push_str(&mut text, session_id);
                Err(MeshError::DeviceNotFound(text))
            },
        }
    }

    /// Open a collaborative session `name` owned by `owner_id` on this
    /// device at `now_secs`, stored under its identifier (replacing one
    /// opened in the same second).
    pub fn create_collaborative_session_at(&mut self, name: &str, owner_id: &str, now_secs: u64) -> (r: Result<CollaborativeSession, MeshError>)
        requires
            old(self).wf(),
        ensures
            final(self).wf(),
            r is Ok,
            fresh_collab(r->Ok_0, name@, owner_id@, old(self).local_view(), now_secs),
            names_of(final(self).collab_view()) == put_name(names_of(old(self).collab_view()), stamped_id("collab-"@, now_secs)),
            value_of(final(self).collab_view(), stamped_id("collab-"@, now_secs)) is Some,
            fresh_collab(value_of(final(self).collab_view(), stamped_id("collab-"@, now_secs))->0, name@, owner_id@, old(self).local_view(), now_secs),
            forall|k: Seq<char>| k != stamped_id("collab-"@, now_secs)
                ==> #[trigger] value_of(final(self).collab_view(), k) == value_of(old(self).collab_view(), k),
            final(self).local_view() == old(self).local_view(),
            final(self).devices_view() == old(self).devices_view(),
            final(self).sessions_view() == old(self).sessions_view(),
            final(self).sync_view() == old(self).sync_view(),
    {
        let stored = fresh_collaboration(name, owner_id, self.local_device_id.as_str(), now_secs);
        let copy = fresh_collaboration(name, owner_id, self.local_device_id.as_str(), now_secs);
        let key = stamped("collab-", now_secs);
        let ghost before = self.collaborative_sessions@;
        put_named(&mut self.collaborative_sessions, key.as_str(), stored);
        proof {
            lemma_put_others(before, self.collaborative_sessions@, key@);
        }
        Ok(copy)
    }

    /// `create_collaborative_session_at` with the current time.
    pub fn create_collaborative_session(&mut self, name: &str, owner_id: &str) -> (r: Result<CollaborativeSession, MeshError>)
        requires
            old(self).wf(),
        ensures
            final(self).wf(),
            r is Ok,
            fresh_collab(r->Ok_0, name@, owner_id@, old(self).local_view(), r->Ok_0.created_at),
            value_of(final(self).collab_view(), r->Ok_0.id@) is Some,
            fresh_collab(value_of(final(self).collab_view(), r->Ok_0.id@)->0, name@, owner_id@, old(self).local_view(), r->Ok_0.created_at),
            final(self).local_view() == old(self).local_view(),
            final(self).devices_view() == old(self).devices_view(),
            final(self).sessions_view() == old(self).sessions_view(),
            final(self).sync_view() == old(self).sync_view(),
    {
        let now = now_secs();
        self.create_collaborative_session_at(name, owner_id, now)
    }

    /// The collaborative session with identifier `session_id`.
    pub fn collaborative_session(&self, session_id: &str) -> (r: Option<&CollaborativeSession>)
        requires
            self.wf(),
        ensures
            match r {
                Some(c) => value_of(self.collab_view(), session_id@) == Some(*c),
                None => value_of(self.collab_view(), session_id@) is None,
            },
    {
        match find_name(&self.collaborative_sessions, session_id) {
            Some(i) => Some(&self.collaborative_sessions[i].1),
            None => None,
        }
    }

    /// Let `user_id` join the collaborative session `session_id` as `role`
    /// from this device at `now_secs`; nothing changes where the user takes
    /// part already.
    pub fn join_collaborative_session_at(&mut self, session_id: &str, user_id: &str, role: ParticipantRole, now_secs: u64) -> (r: Result<(), MeshError>)
        requires
            old(self).wf(),
        ensures
            final(self).wf(),
            r is Ok <==> value_of(old(self).collab_view(), session_id@) is Some,
            r is Ok ==> only_at(final(self).collab_view(), old(self).collab_view(), session_id@)
                && value_of(final(self).collab_view(), session_id@) is Some
                && joined(value_of(final(self).collab_view(), session_id@)->0,
                    value_of(old(self).collab_view(), session_id@)->0, user_id@, old(self).local_view(), role, now_secs),
            r is Err ==> not_found(r->Err_0, "Session "@ + session_id@)
                && final(self).collab_view() == old(self).collab_view(),
            final(self).local_view() == old(self).local_view(),
            final(self).devices_view() == old(self).devices_view(),
            final(self).sessions_view() == old(self).sessions_view(),
            final(self).sync_view() == old(self).sync_view(),
    {
        match find_name(&self.collaborative_sessions, session_id) {
            Some(i) => {
                let ghost before = self.collaborative_sessions@;
                let found = has_participant_exec(&self.collaborative_sessions[i].1.participants, user_id);
                if !found {
                    let local = self.local_device_id.clone();
                    self.collaborative_sessions[i].1.participants.push(Participant {
                        user_id: to_owned_string(user_id),
                        device_id: local,
                        role,
                        joined_at: now_secs,
                        active: true,
                    });
                    proof {
                        assert(!has_participant(before[i as int].1.participants@, user_id@));
                        assert(self.collaborative_sessions@[i as int].1.participants@.drop_last() =~= before[i as int].1.participants@);
                    }
                }
                proof {
                    lemma_only_at(before, self.collaborative_sessions@, i as int);
                }
                Ok(())
            },
            None => {
                let mut text = to_owned_string("Session ");
                string_push_str(&mut text, session_id);
                Err(MeshError::DeviceNotFound(text))
            },
        }
    }

    /// `join_collaborative_session_at` with the current time.
    pub fn join_collaborative_session(&mut self, session_id: &str, user_id: &str, role: ParticipantRole) -> (r: Result<(), MeshError>)
        requires
            old(self).wf(),
        ensures
            final(self).wf(),
            r is Ok <==> value_of(old(self).collab_view(), session_id@) is Some,
            r is Ok ==> only_at(final(self).collab_view(), old(self).collab_view(), session_id@)
                && value_of(final(self).collab_view(), session_id@) is Some
                && exists|now: u64| joined(value_of(final(self).collab_view(), session_id@)->0,
                    value_of(old(self).collab_view(), session_id@)->0, user_id@, old(self).local_view(), role, now),
            r is Err ==> not_found(r->Err_0, "Session "@ + session_id@)
                && final(self).collab_view() == old(self).collab_view(),
            final(self).local_view() == old(self).local_view(),
            final(self).devices_view() == old(self).devices_view(),
            final(self).sessions_view() == old(self).sessions_view(),
            final(self).sync_view() == old(self).sync_view(),
    {
        let now = now_secs();
        self.join_collaborative_session_at(session_id, user_id, role, now)
    }

    /// Let `user_id` leave the collaborative session `session_id`.
    pub fn leave_collaborative_session(&mut self, session_id: &str, user_id: &str) -> (r: Result<(), MeshError>)
        requires
            old(self).wf(),
        ensures
            final(self).wf(),
            r is Ok <==> value_of(old(self).collab_view(), session_id@) is Some,
            r is Ok ==> only_at(final(self).collab_view(), old(self).collab_view(), session_id@)
                && value_of(final(self).collab_view(), session_id@) is Some
                && left(value_of(final(self).collab_view(), session_id@)->0,
                    value_of(old(self).collab_view(), session_id@)->0, user_id@),
            r is Err ==> not_found(r->Err_0, "Session "@ + session_id@)
                && final(self).collab_view() == old(self).collab_view(),
            final(self).local_view() == old(self).local_view(),
            final(self).devices_view() == old(self).devices_view(),
            final(self).sessions_view() == old(self).sessions_view(),
            final(self).sync_view() == old(self).sync_view(),
    {
        match find_name(&self.collaborative_sessions, session_id) {
            Some(i) => {
                let ghost before = self.collaborative_sessions@;
                let ghost ps = before[i as int].1.participants@;
                let mut kept: Vec<Participant> = Vec::new();
                let mut j: usize = 0;
                let n = self.collaborative_sessions[i].1.participants.len();
                while j < n
                    invariant
                        j <= n,
                        n == ps.len(),
                        i < self.collaborative_sessions@.len(),
                        self.collaborative_sessions@ == before,
                        ps == before[i as int].1.participants@,
                        kept@.len() == without_user(ps.take(j as int), user_id@).len(),
                        forall|k: int| 0 <= k < kept@.len()
                            ==> same_participant(#[trigger] kept@[k], without_user(ps.take(j as int), user_id@)[k]),
                    decreases n - j,
                {
                    assert(ps.take(j as int + 1).drop_last() =~= ps.take(j as int));
                    let p = &self.collaborative_sessions[i].1.participants[j];
                    if !str_eq(p.user_id.as_str(), user_id) {
                        kept.push(Participant {
                            user_id: p.user_id.clone(),
                            device_id: p.device_id.clone(),
                            role: p.role,
                            joined_at: p.joined_at,
                            active: p.active,
                        });
                    }
                    j = j + 1;
                }
                assert(ps.take(n as int) =~= ps);
                self.collaborative_sessions[i].1.participants = kept;
                proof {
                    lemma_only_at(before, self.collaborative_sessions@, i as int);
                }
                Ok(())
            },
            None => {
                let mut text = to_owned_string("Session ");
                string_push_str(&mut text, session_id);
                Err(MeshError::DeviceNotFound(text))
            },
        }
    }

    /// Share a document `name` with `content` in the collaborative session
    /// `session_id`, from this device at `now_secs`, and hand it back.
    pub fn share_document_at(&mut self, session_id: &str, name: &str, content: &str, now_secs: u64) -> (r: Result<SharedDocument, MeshError>)
        requires
            old(self).wf(),
        ensures
            final(self).wf(),
            r is Ok <==> value_of(old(self).collab_view(), session_id@) is Some,
            r is Ok ==> fresh_document(r->Ok_0, name@, content@, old(self).local_view(), now_secs)
                && only_at(final(self).collab_view(), old(self).collab_view(), session_id@)
                && value_of(final(self).collab_view(), session_id@) is Some
                && with_document(value_of(final(self).collab_view(), session_id@)->0,
                    value_of(old(self).collab_view(), session_id@)->0, name@, content@, old(self).local_view(), now_secs),
            r is Err ==> not_found(r->Err_0, "Session "@ + session_id@)
                && final(self).collab_view() == old(self).collab_view(),
            final(self).local_view() == old(self).local_view(),
            final(self).devices_view() == old(self).devices_view(),
            final(self).sessions_view() == old(self).sessions_view(),
            final(self).sync_view() == old(self).sync_view(),
    {
        match find_name(&self.collaborative_sessions, session_id) {
            Some(i) => {
                let ghost before = self.collaborative_sessions@;
                let stored = new_document(name, content, self.local_device_id.as_str(), now_secs);
                let copy = new_document(name, content, self.local_device_id.as_str(), now_secs);
                self.collaborative_sessions[i].1.shared_context.documents.push(stored);
                proof {
                    lemma_only_at(before, self.collaborative_sessions@, i as int);
                    assert(self.collaborative_sessions@[i as int].1.shared_context.documents@.drop_last()
                        =~= before[i as int].1.shared_context.documents@);
                }
                Ok(copy)
            },
            None => {
                let mut text = to_owned_string("Session ");
                string_push_str(&mut text, session_id);
                Err(MeshError::DeviceNotFound(text))
            },
        }
    }

    /// `share_document_at` with the current time.
    pub fn share_document(&mut self, session_id: &str, name: &str, content: &str) -> (r: Result<SharedDocument, MeshError>)
        requires
            old(self).wf(),
        ensures
            final(self).wf(),
            r is Ok <==> value_of(old(self).collab_view(), session_id@) is Some,
            r is Ok ==> fresh_document(r->Ok_0, name@, content@, old(self).local_view(), r->Ok_0.last_modified_at)
                && only_at(final(self).collab_view(), old(self).collab_view(), session_id@)
                && value_of(final(self).collab_view(), session_id@) is Some
                && with_document(value_of(final(self).collab_view(), session_id@)->0,
                    value_of(old(self).collab_view(), session_id@)->0, name@, content@, old(self).local_view(), r->Ok_0.last_modified_at),
            r is Err ==> not_found(r->Err_0, "Session "@ + session_id@)
                && final(self).collab_view() == old(self).collab_view(),
            final(self).local_view() == old(self).local_view(),
            final(self).devices_view() == old(self).devices_view(),
            final(self).sessions_view() == old(self).sessions_view(),
            final(self).sync_view() == old(self).sync_view(),
    {
        let now = now_secs();
        self.share_document_at(session_id, name, content, now)
    }

    /// Start synchronising this device at `now_secs`, with nothing pending,
    /// replacing any earlier state, and hand the state back.
    pub fn initialize_sync_at(&mut self, now_secs: u64) -> (r: Result<SyncState, MeshError>)
        requires
            old(self).wf(),
        ensures
            final(self).wf(),
            r is Ok,
            fresh_sync(r->Ok_0, old(self).local_view(), now_secs),
            final(self).sync_view() is Some,
            fresh_sync(final(self).sync_view()->0, old(self).local_view(), now_secs),
            final(self).local_view() == old(self).local_view(),
            final(self).devices_view() == old(self).devices_view(),
            final(self).sessions_view() == old(self).sessions_view(),
            final(self).collab_view() == old(self).collab_view(),
    {
        self.sync_state = Some(new_sync_state(self.local_device_id.as_str(), now_secs));
        Ok(new_sync_state(self.local_device_id.as_str(), now_secs))
    }

    /// `initialize_sync_at` with the current time.
    pub fn initialize_sync(&mut self) -> (r: Result<SyncState, MeshError>)
        requires
            old(self).wf(),
        ensures
            final(self).wf(),
            r is Ok,
            fresh_sync(r->Ok_0, old(self).local_view(), r->Ok_0.last_sync),
            final(self).sync_view() is Some,
            fresh_sync(final(self).sync_view()->0, old(self).local_view(), r->Ok_0.last_sync),
            final(self).local_view() == old(self).local_view(),
            final(self).devices_view() == old(self).devices_view(),
            final(self).sessions_view() == old(self).sessions_view(),
            final(self).collab_view() == old(self).collab_view(),
    {
        let now = now_secs();
        self.initialize_sync_at(now)
    }

    /// Record `change` as pending.
    pub fn record_change(&mut self, change: Change) -> (r: Result<(), MeshError>)
        requires
            old(self).wf(),
        ensures
            final(self).wf(),
            r is Ok <==> old(self).sync_view() is Some,
            r is Ok ==> final(self).sync_view() is Some
                && final(self).sync_view()->0 == (SyncState {
                    pending_changes: final(self).sync_view()->0.pending_changes,
                    ..old(self).sync_view()->0
                })
                && final(self).sync_view()->0.pending_changes@ == old(self).sync_view()->0.pending_changes@.push(change),
            r is Err ==> sync_failed(r->Err_0, "Sync not initialized"@) && final(self).sync_view() == old(self).sync_view(),
            final(self).local_view() == old(self).local_view(),
            final(self).devices_view() == old(self).devices_view(),
            final(self).sessions_view() == old(self).sessions_view(),
            final(self).collab_view() == old(self).collab_view(),
    {
        match &mut self.sync_state {
            Some(state) => {
                state.pending_changes.push(change);
                Ok(())
            },
            None => Err(MeshError::SyncFailed(to_owned_string("Sync not initialized"))),
        }
    }

    /// What to hand the transport to synchronise.
    pub fn sync_state(&self) -> (r: Result<&SyncState, MeshError>)
        ensures
            r is Ok <==> self.sync_view() is Some,
            r is Ok ==> *r->Ok_0 == self.sync_view()->0,
            r is Err ==> sync_failed(r->Err_0, "Sync not initialized"@),
    {
        match &self.sync_state {
            Some(state) => Ok(state),
            None => Err(MeshError::SyncFailed(to_owned_string("Sync not initialized"))),
        }
    }

    /// Take the transport's answer to synchronising, at `now_secs`: on
    /// success the state is synchronised then, one version further, with
    /// nothing pending, and the remote changes are handed back; a failure is
    /// handed back with nothing changed.
    pub fn sync_at(&mut self, remote: Result<Vec<Change>, MeshError>, now_secs: u64) -> (r: Result<Vec<Change>, MeshError>)
        requires
            old(self).wf(),
            old(self).sync_view() is Some ==> old(self).sync_view()->0.sync_version < u64::MAX,
        ensures
            final(self).wf(),
            old(self).sync_view() is None ==> sync_failed(r->Err_0, "Sync not initialized"@) && r is Err
                && final(self).sync_view() == old(self).sync_view(),
            old(self).sync_view() is Some ==> r == remote,
            (old(self).sync_view() is Some && remote is Ok) ==> final(self).sync_view() is Some
                && final(self).sync_view()->0.device_id == old(self).sync_view()->0.device_id
                && final(self).sync_view()->0.last_sync == now_secs
                && final(self).sync_view()->0.sync_version == old(self).sync_view()->0.sync_version + 1
                && final(self).sync_view()->0.pending_changes@.len() == 0
                && final(self).sync_view()->0.conflicts == old(self).sync_view()->0.conflicts,
            (old(self).sync_view() is Some && remote is Err) ==> final(self).sync_view() == old(self).sync_view(),
            final(self).local_view() == old(self).local_view(),
            final(self).devices_view() == old(self).devices_view(),
            final(self).sessions_view() == old(self).sessions_view(),
            final(self).collab_view() == old(self).collab_view(),
    {
        match &mut self.sync_state {
            Some(state) => {
                if remote.is_ok() {
                    state.last_sync = now_secs;
                    state.sync_version = state.sync_version + 1;
                    state.pending_changes = Vec::new();
                }
                remote
            },
            None => Err(MeshError::SyncFailed(to_owned_string("Sync not initialized"))),
        }
    }

    /// `sync_at` with the current time.
    pub fn sync(&mut self, remote: Result<Vec<Change>, MeshError>) -> (r: Result<Vec<Change>, MeshError>)
        requires
            old(self).wf(),
            old(self).sync_view() is Some ==> old(self).sync_view()->0.sync_version < u64::MAX,
        ensures
            final(self).wf(),
            old(self).sync_view() is None ==> sync_failed(r->Err_0, "Sync not initialized"@) && r is Err
                && final(self).sync_view() == old(self).sync_view(),
            old(self).sync_view() is Some ==> r == remote,
            (old(self).sync_view() is Some && remote is Ok) ==> final(self).sync_view() is Some
                && final(self).sync_view()->0.device_id == old(self).sync_view()->0.device_id
                && final(self).sync_view()->0.sync_version == old(self).sync_view()->0.sync_version + 1
                && final(self).sync_view()->0.pending_changes@.len() == 0
                && final(self).sync_view()->0.conflicts == old(self).sync_view()->0.conflicts,
            (old(self).sync_view() is Some && remote is Err) ==> final(self).sync_view() == old(self).sync_view(),
            final(self).local_view() == old(self).local_view(),
            final(self).devices_view() == old(self).devices_view(),
            final(self).sessions_view() == old(self).sessions_view(),
            final(self).collab_view() == old(self).collab_view(),
    {
        let now = now_secs();
        self.sync_at(remote, now)
    }

    /// The changes pending, none before synchronisation starts.
    pub fn get_pending_changes(&self) -> (r: Vec<Change>)
        ensures
            same_changes(r@, match self.sync_view() {
                Some(s) => s.pending_changes@,
                None => Seq::empty(),
            }),
    {
        let mut out: Vec<Change> = Vec::new();
        match &self.sync_state {
            Some(state) => {
                let mut i: usize = 0;
                while i < state.pending_changes.len()
                    invariant
                        i <= state.pending_changes@.len(),
                        same_changes(out@, state.pending_changes@.take(i as int)),
                    decreases state.pending_changes@.len() - i,
                {
                    out.push(state.pending_changes[i].duplicate());
                    i = i + 1;
                }
                assert(state.pending_changes@.take(i as int) =~= state.pending_changes@);
            },
            None => {},
        }
        out
    }

    /// Settle the first conflict with identifier `conflict_id`, if any, by
    /// `resolution`.
    pub fn resolve_conflict(&mut self, conflict_id: &str, resolution: ConflictResolution) -> (r: Result<(), MeshError>)
        requires
            old(self).wf(),
        ensures
            final(self).wf(),
            r is Ok <==> old(self).sync_view() is Some,
            r is Ok ==> final(self).sync_view() is Some
                && final(self).sync_view()->0 == (SyncState {
                    conflicts: final(self).sync_view()->0.conflicts,
                    ..old(self).sync_view()->0
                })
                && final(self).sync_view()->0.conflicts@ == resolved(old(self).sync_view()->0.conflicts@, conflict_id@, resolution),
            r is Err ==> sync_failed(r->Err_0, "Sync not initialized"@) && final(self).sync_view() == old(self).sync_view(),
            final(self).local_view() == old(self).local_view(),
            final(self).devices_view() == old(self).devices_view(),
            final(self).sessions_view() == old(self).sessions_view(),
            final(self).collab_view() == old(self).collab_view(),
    {
        match &mut self.sync_state {
            Some(state) => {
                match conflict_index(&state.conflicts, conflict_id) {
                    Some(i) => {
                        state.conflicts[i].resolution = Some(resolution);
                    },
                    None => {},
                }
                Ok(())
            },
            None => Err(MeshError::SyncFailed(to_owned_string("Sync not initialized"))),
        }
    }
}

} // verus!
