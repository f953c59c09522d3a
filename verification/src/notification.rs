//! Notifications: recipients, notifications and templates, an in-app
//! channel, and a service that renders templates and delivers to each
//! recipient through the channels asked for, keeping a history.

use vstd::prelude::*;
use crate::ids::{new_uuid, uuid_eq};
use crate::chars::replace_all;
use crate::chars::replace_all_exec;
use crate::clock::utc_now_millis;
use crate::mediator::{entry_names, find_name, lemma_names_contains, names_of, put_name, put_named};
use crate::multimap::{distinct_keys, has_key, key_index};
use crate::pairs::{param_views, put_param, put_param_exec};
use crate::text::{chars_of, string_push_str, to_owned_string};

verus! {

/// Errors of notification delivery.
#[derive(Debug, Clone, PartialEq, Eq)]
pub enum NotificationError {
    ChannelNotFound(String),
    TemplateNotFound(String),
    DeliveryFailed(String),
    InvalidRecipient(String),
}

impl NotificationError {
    /// The error's description.
    pub fn message(&self) -> (r: String)
        ensures
            r@ == match self {
                NotificationError::ChannelNotFound(s) => "Channel not found: "@ + s@,
                NotificationError::TemplateNotFound(s) => "Template not found: "@ + s@,
                NotificationError::DeliveryFailed(s) => "Delivery failed: "@ + s@,
                NotificationError::InvalidRecipient(s) => "Invalid recipient: "@ + s@,
            },
    {
        let (prefix, detail): (&str, &String) = match self {
            NotificationError::ChannelNotFound(s) => ("Channel not found: ", s),
            NotificationError::TemplateNotFound(s) => ("Template not found: ", s),
            NotificationError::DeliveryFailed(s) => ("Delivery failed: ", s),
            NotificationError::InvalidRecipient(s) => ("Invalid recipient: ", s),
        };
        let mut out = to_owned_string(prefix);
        string_push_str(&mut out, detail.as_str());
        out
    }
}

/// How urgent a notification is.
#[derive(Debug, Clone, Copy, PartialEq, Eq, Structural)]
pub enum Priority {
    Low,
    Normal,
    High,
    Urgent,
}

/// Where a delivery stands.
#[derive(Debug, Clone, Copy, PartialEq, Eq, Structural)]
pub enum DeliveryStatus {
    Pending,
    Sent,
    Delivered,
    Failed,
    /// Read by the recipient.
    Read,
}

/// A way of reaching a recipient.
#[derive(Debug, Clone, PartialEq, Eq)]
pub enum ChannelType {
    Email,
    Sms,
    Push,
    Webhook,
    InApp,
    Slack,
    Discord,
    /// A channel registered under this name.
    Custom(String),
}

/// The name a channel of type `ct` is registered under.
pub open spec fn channel_name(ct: ChannelType) -> Seq<char> {
    match ct {
        ChannelType::Email => "email"@,
        ChannelType::Sms => "sms"@,
        ChannelType::Push => "push"@,
        ChannelType::Webhook => "webhook"@,
        ChannelType::InApp => "inapp"@,
        ChannelType::Slack => "slack"@,
        ChannelType::Discord => "discord"@,
        ChannelType::Custom(n) => n@,
    }
}

impl ChannelType {
    /// The name a channel of this type is registered under.
    pub fn name(&self) -> (r: &str)
        ensures
            r@ == channel_name(*self),
    {
        match self {
            ChannelType::Email => "email",
            ChannelType::Sms => "sms",
            ChannelType::Push => "push",
            ChannelType::Webhook => "webhook",
            ChannelType::InApp => "inapp",
            ChannelType::Slack => "slack",
            ChannelType::Discord => "discord",
            ChannelType::Custom(n) => n.as_str(),
        }
    }

    /// A copy.
    pub fn duplicate(&self) -> (r: Self)
        ensures
            r == *self,
    {
        match self {
            ChannelType::Email => ChannelType::Email,
            ChannelType::Sms => ChannelType::Sms,
            ChannelType::Push => ChannelType::Push,
            ChannelType::Webhook => ChannelType::Webhook,
            ChannelType::InApp => ChannelType::InApp,
            ChannelType::Slack => ChannelType::Slack,
            ChannelType::Discord => ChannelType::Discord,
            ChannelType::Custom(n) => ChannelType::Custom(n.clone()),
        }
    }
}

fn copy_opt(o: &Option<String>) -> (r: Option<String>)
    ensures
        r == *o,
{
    match o {
        Some(s) => Some(s.clone()),
        None => None,
    }
}

fn copy_strings(v: &Vec<String>) -> (r: Vec<String>)
    ensures
        r@ == v@,
{
    let mut out: Vec<String> = Vec::new();
    let mut i: usize = 0;
    while i < v.len()
        invariant
            i <= v@.len(),
            out@ == v@.take(i as int),
        decreases v@.len() - i,
    {
        out.push(v[i].clone());
        assert(v@.take(i as int + 1) =~= v@.take(i as int).push(v@[i as int]));
        i = i + 1;
    }
    assert(v@.take(i as int) =~= v@);
    out
}

fn copy_pairs(v: &Vec<(String, String)>) -> (r: Vec<(String, String)>)
    ensures
        r@ == v@,
{
    let mut out: Vec<(String, String)> = Vec::new();
    let mut i: usize = 0;
    while i < v.len()
        invariant
            i <= v@.len(),
            out@ == v@.take(i as int),
        decreases v@.len() - i,
    {
        out.push((v[i].0.clone(), v[i].1.clone()));
        assert(v@.take(i as int + 1) =~= v@.take(i as int).push(v@[i as int]));
        i = i + 1;
    }
    assert(v@.take(i as int) =~= v@);
    out
}

fn copy_channels(v: &Vec<ChannelType>) -> (r: Vec<ChannelType>)
    ensures
        r@ == v@,
{
    let mut out: Vec<ChannelType> = Vec::new();
    let mut i: usize = 0;
    while i < v.len()
        invariant
            i <= v@.len(),
            out@ == v@.take(i as int),
        decreases v@.len() - i,
    {
        out.push(v[i].duplicate());
        assert(v@.take(i as int + 1) =~= v@.take(i as int).push(v@[i as int]));
        i = i + 1;
    }
    assert(v@.take(i as int) =~= v@);
    out
}

/// Someone notifications are delivered to.
#[derive(Debug, Clone)]
pub struct Recipient {
    pub id: String,
    pub email: Option<String>,
    pub phone: Option<String>,
    pub push_token: Option<String>,
    pub webhook_url: Option<String>,
    /// The channels used where a notification names none, in order.
    pub preferred_channels: Vec<ChannelType>,
    /// Whether each kind of notification is wanted; no name twice.
    pub preferences: Vec<(String, bool)>,
}

impl Recipient {
    /// The recipient `id`, nothing else known.
    pub fn new(id: &str) -> (r: Self)
        ensures
            r.id@ == id@,
            r.email is None,
            r.phone is None,
            r.push_token is None,
            r.webhook_url is None,
            r.preferred_channels@.len() == 0,
            r.preferences@.len() == 0,
    {
        Recipient {
            id: to_owned_string(id),
            email: None,
            phone: None,
            push_token: None,
            webhook_url: None,
            preferred_channels: Vec::new(),
            preferences: Vec::new(),
        }
    }

    /// The same recipient with email address `email`.
    pub fn with_email(self, email: &str) -> (r: Self)
        ensures
            r.email matches Some(e) && e@ == email@,
            r.id == self.id,
            r.phone == self.phone,
            r.preferred_channels == self.preferred_channels,
    {
        Recipient { email: Some(to_owned_string(email)), ..self }
    }

    /// The same recipient with phone number `phone`.
    pub fn with_phone(self, phone: &str) -> (r: Self)
        ensures
            r.phone matches Some(p) && p@ == phone@,
            r.id == self.id,
            r.email == self.email,
            r.preferred_channels == self.preferred_channels,
    {
        Recipient { phone: Some(to_owned_string(phone)), ..self }
    }

    /// The same recipient preferring `channel` too, after the others.
    pub fn prefers(self, channel: ChannelType) -> (r: Self)
        ensures
            r.preferred_channels@ == self.preferred_channels@.push(channel),
            r.id == self.id,
            r.email == self.email,
            r.phone == self.phone,
    {
        let mut r = self;
        r.preferred_channels.push(channel);
        r
    }

    /// A copy.
    pub fn duplicate(&self) -> (r: Self)
        ensures
            r.id == self.id,
            r.email == self.email,
            r.phone == self.phone,
            r.push_token == self.push_token,
            r.webhook_url == self.webhook_url,
            r.preferred_channels@ == self.preferred_channels@,
    {
        let mut preferences: Vec<(String, bool)> = Vec::new();
        let mut i: usize = 0;
        while i < self.preferences.len()
            invariant
                i <= self.preferences@.len(),
            decreases self.preferences@.len() - i,
        {
            preferences.push((self.preferences[i].0.clone(), self.preferences[i].1));
            i = i + 1;
        }
        Recipient {
            id: self.id.clone(),
            email: copy_opt(&self.email),
            phone: copy_opt(&self.phone),
            push_token: copy_opt(&self.push_token),
            webhook_url: copy_opt(&self.webhook_url),
            preferred_channels: copy_channels(&self.preferred_channels),
            preferences,
        }
    }
}

/// `serde_json::Value` as template text: a string as itself, anything else
/// as its JSON text (`to_string`). Nothing is stated of the text: JSON
/// values are not inspected by the library.
#[verifier::external_body]
fn json_template_text(value: serde_json::Value) -> String {
    match value {
        serde_json::Value::String(s) => s,
        other => other.to_string(),
    }
}

/// A notification.
#[derive(Debug)]
pub struct Notification {
    pub id: uuid::Uuid,
    pub notification_type: String,
    /// Subject or title.
    pub subject: String,
    pub body: String,
    /// The template rendered into subject and body, if any.
    pub template_id: Option<String>,
    /// Template variables and their text; no name twice.
    pub variables: Vec<(String, String)>,
    /// Recipient identifiers, in order.
    pub recipients: Vec<String>,
    pub priority: Priority,
    /// The channels to use; none for each recipient's preferred ones.
    pub channels: Vec<ChannelType>,
    /// In milliseconds since the Unix epoch.
    pub created_at_millis: i64,
    /// In milliseconds since the Unix epoch.
    pub scheduled_at_millis: Option<i64>,
    /// In milliseconds since the Unix epoch.
    pub expires_at_millis: Option<i64>,
    /// No name twice.
    pub metadata: Vec<(String, String)>,
}

/// `a` and `b` carry the same notification.
pub open spec fn same_notification(a: Notification, b: Notification) -> bool {
    &&& a.id == b.id
    &&& a.notification_type == b.notification_type
    &&& a.subject == b.subject
    &&& a.body == b.body
    &&& a.template_id == b.template_id
    &&& a.variables@ == b.variables@
    &&& a.recipients@ == b.recipients@
    &&& a.priority == b.priority
    &&& a.channels@ == b.channels@
    &&& a.created_at_millis == b.created_at_millis
    &&& a.scheduled_at_millis == b.scheduled_at_millis
    &&& a.expires_at_millis == b.expires_at_millis
    &&& a.metadata@ == b.metadata@
}

impl Notification {
    /// A notification of type `notification_type` made now, normal
    /// priority, no recipient, channel or template.
    pub fn new(notification_type: &str, subject: &str, body: &str) -> (r: Self)
        ensures
            r.notification_type@ == notification_type@,
            r.subject@ == subject@,
            r.body@ == body@,
            r.template_id is None,
            r.variables@.len() == 0,
            r.recipients@.len() == 0,
            r.priority == Priority::Normal,
            r.channels@.len() == 0,
            r.scheduled_at_millis is None,
            r.expires_at_millis is None,
            r.metadata@.len() == 0,
    {
        Notification {
            id: new_uuid(),
            notification_type: to_owned_string(notification_type),
            subject: to_owned_string(subject),
            body: to_owned_string(body),
            template_id: None,
            variables: Vec::new(),
            recipients: Vec::new(),
            priority: Priority::Normal,
            channels: Vec::new(),
            created_at_millis: utc_now_millis(),
            scheduled_at_millis: None,
            expires_at_millis: None,
            metadata: Vec::new(),
        }
    }

    /// The same notification also for `recipient_id`.
    pub fn to(self, recipient_id: &str) -> (r: Self)
        ensures
            r.recipients@.len() == self.recipients@.len() + 1,
            r.recipients@.drop_last() == self.recipients@,
            r.recipients@.last()@ == recipient_id@,
            r.id == self.id,
            r.subject == self.subject,
            r.body == self.body,
            r.channels == self.channels,
            r.priority == self.priority,
            r.template_id == self.template_id,
            r.variables == self.variables,
    {
        let mut r = self;
        r.recipients.push(to_owned_string(recipient_id));
        assert(r.recipients@.drop_last() =~= self.recipients@);
        r
    }

    /// The same notification with `priority`.
    pub fn with_priority(self, priority: Priority) -> (r: Self)
        ensures
            r.priority == priority,
            r.id == self.id,
            r.recipients == self.recipients,
            r.channels == self.channels,
            r.subject == self.subject,
    {
        Notification { priority, ..self }
    }

    /// The same notification also through `channel`.
    pub fn via(self, channel: ChannelType) -> (r: Self)
        ensures
            r.channels@ == self.channels@.push(channel),
            r.id == self.id,
            r.recipients == self.recipients,
            r.priority == self.priority,
            r.subject == self.subject,
            r.body == self.body,
            r.template_id == self.template_id,
            r.variables == self.variables,
    {
        let mut r = self;
        r.channels.push(channel);
        r
    }

    /// The same notification rendered from template `template_id`.
    pub fn from_template(self, template_id: &str) -> (r: Self)
        ensures
            r.template_id matches Some(t) && t@ == template_id@,
            r.id == self.id,
            r.recipients == self.recipients,
            r.channels == self.channels,
            r.variables == self.variables,
    {
        Notification { template_id: Some(to_owned_string(template_id)), ..self }
    }

    /// The same notification with template variable `key` set to the text
    /// of `value`.
    pub fn with_variable(self, key: &str, value: serde_json::Value) -> (r: Self)
        requires
            distinct_keys(param_views(self.variables@)),
        ensures
            distinct_keys(param_views(r.variables@)),
            exists|t: Seq<char>| param_views(r.variables@) == put_param(param_views(self.variables@), key@, t),
            r.id == self.id,
            r.recipients == self.recipients,
            r.channels == self.channels,
            r.template_id == self.template_id,
    {
        let text = json_template_text(value);
        let ghost t = text@;
        let mut r = self;
        put_param_exec(&mut r.variables, to_owned_string(key), text);
        assert(param_views(r.variables@) == put_param(param_views(self.variables@), key@, t));
        r
    }

    /// The same notification with template variable `key` set to `text`.
    pub fn with_text_variable(self, key: &str, text: &str) -> (r: Self)
        requires
            distinct_keys(param_views(self.variables@)),
        ensures
            distinct_keys(param_views(r.variables@)),
            param_views(r.variables@) == put_param(param_views(self.variables@), key@, text@),
            r.id == self.id,
            r.recipients == self.recipients,
            r.channels == self.channels,
            r.template_id == self.template_id,
    {
        let mut r = self;
        put_param_exec(&mut r.variables, to_owned_string(key), to_owned_string(text));
        r
    }

    /// The same notification scheduled for `time_millis`.
    pub fn schedule_at(self, time_millis: i64) -> (r: Self)
        ensures
            r.scheduled_at_millis == Some(time_millis),
            r.id == self.id,
            r.recipients == self.recipients,
            r.channels == self.channels,
    {
        Notification { scheduled_at_millis: Some(time_millis), ..self }
    }

    /// A copy.
    pub fn duplicate(&self) -> (r: Self)
        ensures
            same_notification(r, *self),
    {
        Notification {
            id: self.id,
            notification_type: self.notification_type.clone(),
            subject: self.subject.clone(),
            body: self.body.clone(),
            template_id: copy_opt(&self.template_id),
            variables: copy_pairs(&self.variables),
            recipients: copy_strings(&self.recipients),
            priority: self.priority,
            channels: copy_channels(&self.channels),
            created_at_millis: self.created_at_millis,
            scheduled_at_millis: self.scheduled_at_millis,
            expires_at_millis: self.expires_at_millis,
            metadata: copy_pairs(&self.metadata),
        }
    }
}

/// `{{` and `}}` around `key`.
pub open spec fn placeholder(key: Seq<char>) -> Seq<char> {
    "{{"@ + key + "}}"@
}

/// `t` with the placeholder of each variable replaced by its text, one
/// variable after the other in order.
pub open spec fn render_text(t: Seq<char>, vars: Seq<(Seq<char>, Seq<char>)>) -> Seq<char>
    decreases vars.len(),
{
    if vars.len() == 0 {
        t
    } else {
        replace_all(render_text(t, vars.drop_last()), placeholder(vars.last().0), vars.last().1)
    }
}

/// A notification template.
#[derive(Debug, Clone)]
pub struct Template {
    pub id: String,
    pub name: String,
    /// Subject with `{{name}}` placeholders.
    pub subject: String,
    /// Body with `{{name}}` placeholders.
    pub body: String,
    pub html_body: Option<String>,
    pub channels: Vec<ChannelType>,
}

fn replace_in(text: &String, pat: &Vec<char>, rep: &str) -> (r: String)
    ensures
        r@ == replace_all(text@, pat@, rep@),
{
    let chars = chars_of(text.as_str());
    replace_all_exec(&chars, pat, rep)
}

impl Template {
    /// The template `id` named `name`, empty.
    pub fn new(id: &str, name: &str) -> (r: Self)
        ensures
            r.id@ == id@,
            r.name@ == name@,
            r.subject@.len() == 0,
            r.body@.len() == 0,
            r.html_body is None,
            r.channels@.len() == 0,
    {
        Template {
            id: to_owned_string(id),
            name: to_owned_string(name),
            subject: String::new(),
            body: String::new(),
            html_body: None,
            channels: Vec::new(),
        }
    }

    /// The same template with subject `subject`.
    pub fn with_subject(self, subject: &str) -> (r: Self)
        ensures
            r.subject@ == subject@,
            r.id == self.id,
            r.name == self.name,
            r.body == self.body,
    {
        Template { subject: to_owned_string(subject), ..self }
    }

    /// The same template with body `body`.
    pub fn with_body(self, body: &str) -> (r: Self)
        ensures
            r.body@ == body@,
            r.id == self.id,
            r.name == self.name,
            r.subject == self.subject,
    {
        Template { body: to_owned_string(body), ..self }
    }

    /// Subject and body with each `{{key}}` replaced by the variable's text.
    pub fn render(&self, variables: &Vec<(String, String)>) -> (r: (String, String))
        ensures
            r.0@ == render_text(self.subject@, param_views(variables@)),
            r.1@ == render_text(self.body@, param_views(variables@)),
    {
        let ghost vs = param_views(variables@);
        let mut subject = self.subject.clone();
        let mut body = self.body.clone();
        let mut i: usize = 0;
        while i < variables.len()
            invariant
                i <= variables@.len(),
                vs == param_views(variables@),
                subject@ == render_text(self.subject@, vs.take(i as int)),
                body@ == render_text(self.body@, vs.take(i as int)),
            decreases variables@.len() - i,
        {
            let mut p = to_owned_string("{{");
            string_push_str(&mut p, variables[i].0.as_str());
            string_push_str(&mut p, "}}");
            let pat = chars_of(p.as_str());
            proof {
                assert(vs.take(i as int + 1).drop_last() =~= vs.take(i as int));
                assert(vs.take(i as int + 1).last() == (variables@[i as int].0@, variables@[i as int].1@));
            }
            subject = replace_in(&subject, &pat, variables[i].1.as_str());
            body = replace_in(&body, &pat, variables[i].1.as_str());
            i = i + 1;
        }
        assert(vs.take(i as int) =~= vs);
        (subject, body)
    }
}

/// The outcome of one delivery.
#[derive(Debug)]
pub struct DeliveryResult {
    pub notification_id: uuid::Uuid,
    pub recipient_id: String,
    pub channel: ChannelType,
    pub status: DeliveryStatus,
    /// In milliseconds since the Unix epoch.
    pub sent_at_millis: Option<i64>,
    /// In milliseconds since the Unix epoch.
    pub delivered_at_millis: Option<i64>,
    pub error: Option<String>,
}

impl DeliveryResult {
    /// A copy.
    pub fn duplicate(&self) -> (r: Self)
        ensures
            r == *self,
    {
        DeliveryResult {
            notification_id: self.notification_id,
            recipient_id: self.recipient_id.clone(),
            channel: self.channel.duplicate(),
            status: self.status,
            sent_at_millis: self.sent_at_millis,
            delivered_at_millis: self.delivered_at_millis,
            error: copy_opt(&self.error),
        }
    }
}

/// A way of delivering notifications.
pub trait NotificationChannel {
    /// The kind of channel.
    fn channel_type(&self) -> ChannelType;

    /// Deliver `notification` to `recipient`.
    fn send(&mut self, notification: &Notification, recipient: &Recipient) -> Result<DeliveryResult, NotificationError>;

    /// Whether `recipient` can be reached this way.
    fn can_deliver_to(&self, recipient: &Recipient) -> bool;
}


/// The notifications of `s` other than `id`, in order.
pub open spec fn without_id(s: Seq<Notification>, id: uuid::Uuid) -> Seq<Notification>
    decreases s.len(),
{
    if s.len() == 0 {
        s
    } else if s.last().id == id {
        without_id(s.drop_last(), id)
    } else {
        without_id(s.drop_last(), id).push(s.last())
    }
}

/// The entry of `user` in `s`, or nothing.
pub open spec fn inbox_of(s: Seq<(String, Vec<Notification>)>, user: Seq<char>) -> Seq<Notification> {
    if has_key(entry_names(s), user) {
        s[key_index(entry_names(s), user)].1@
    } else {
        Seq::empty()
    }
}

/// Notifications kept in the application, per user, until read.
pub struct InAppChannel {
    notifications: Vec<(String, Vec<Notification>)>,
}

/// The entries with `user`'s list replaced by `list`, or a new entry for
/// `user` added last.
proof fn lemma_put_list(
    before: Seq<(String, Vec<Notification>)>,
    after: Seq<(String, Vec<Notification>)>,
    user: Seq<char>,
)
    requires
        distinct_keys(entry_names(before)),
        entry_names(after) == entry_names(before) || entry_names(after) == entry_names(before).push((user, ())),
        has_key(entry_names(before), user) ==> entry_names(after) == entry_names(before),
        !has_key(entry_names(before), user) ==> entry_names(after) == entry_names(before).push((user, ())),
        forall|j: int| 0 <= j < before.len() && before[j].0@ != user ==> after[j] == before[j],
    ensures
        distinct_keys(entry_names(after)),
        has_key(entry_names(after), user),
        forall|u: Seq<char>| u != user ==> #[trigger] inbox_of(after, u) == inbox_of(before, u),
{
    let ns = entry_names(before);
    let t = entry_names(after);
    assert forall|a: int, b: int| 0 <= a < t.len() && 0 <= b < t.len() && a != b implies t[a].0 != t[b].0 by {
        if a < ns.len() {
            assert(t[a] == ns[a]);
        }
        if b < ns.len() {
            assert(t[b] == ns[b]);
        }
    }
    if has_key(ns, user) {
        let j = key_index(ns, user);
        assert(t[j] == ns[j]);
    } else {
        assert(t[ns.len() as int].0 == user);
    }
    assert forall|u: Seq<char>| u != user implies #[trigger] inbox_of(after, u) == inbox_of(before, u) by {
        if has_key(ns, u) {
            let j = key_index(ns, u);
            assert(t[j] == ns[j]);
            crate::multimap::lemma_key_index_unique(t, j);
            assert(before[j].0@ == u);
            assert(after[j] == before[j]);
        }
        if has_key(t, u) {
            let j = key_index(t, u);
            if j < ns.len() {
                assert(t[j] == ns[j]);
            } else {
                assert(t[j].0 == user);
            }
        }
    }
}

impl InAppChannel {
    #[verifier::type_invariant]
    spec fn inv(&self) -> bool {
        distinct_keys(entry_names(self.notifications@))
    }

    /// The unread notifications of `user`, oldest first.
    pub closed spec fn inbox(&self, user: Seq<char>) -> Seq<Notification> {
        inbox_of(self.notifications@, user)
    }

    /// An empty channel.
    pub fn new() -> (r: Self)
        ensures
            forall|u: Seq<char>| #[trigger] r.inbox(u).len() == 0,
    {
        let v: Vec<(String, Vec<Notification>)> = Vec::new();
        assert(entry_names(v@) =~= Seq::<(Seq<char>, ())>::empty());
        InAppChannel { notifications: v }
    }

    /// Copies of the unread notifications of `user_id`.
    pub fn get_unread(&self, user_id: &str) -> (r: Vec<Notification>)
        ensures
            r@.len() == self.inbox(user_id@).len(),
            forall|i: int| 0 <= i < r@.len() ==> same_notification(#[trigger] r@[i], self.inbox(user_id@)[i]),
    {
        proof {
            use_type_invariant(self);
        }
        let mut out: Vec<Notification> = Vec::new();
        match find_name(&self.notifications, user_id) {
            Some(k) => {
                let list = &self.notifications[k].1;
                let mut i: usize = 0;
                while i < list.len()
                    invariant
                        i <= list@.len(),
                        out@.len() == i,
                        forall|j: int| 0 <= j < i ==> same_notification(#[trigger] out@[j], list@[j]),
                    decreases list@.len() - i,
                {
                    out.push(list[i].duplicate());
                    i = i + 1;
                }
            },
            None => {},
        }
        out
    }

    /// Mark notification `notification_id` of `user_id` read: it leaves the
    /// user's unread ones.
    pub fn mark_read(&mut self, user_id: &str, notification_id: uuid::Uuid)
        ensures
            final(self).inbox(user_id@) == without_id(old(self).inbox(user_id@), notification_id),
            forall|u: Seq<char>| u != user_id@ ==> #[trigger] final(self).inbox(u) == old(self).inbox(u),
    {
        proof {
            use_type_invariant(&*self);
        }
        let mut entries: Vec<(String, Vec<Notification>)> = Vec::new();
        std::mem::swap(&mut entries, &mut self.notifications);
        assert(entry_names(self.notifications@) =~= Seq::<(Seq<char>, ())>::empty());
        let ghost before = entries@;
        match find_name(&entries, user_id) {
            Some(k) => {
                let (name, list) = entries.remove(k);
                let ghost old_list = list@;
                let mut kept: Vec<Notification> = Vec::new();
                let mut rest = list;
                let mut taken: usize = 0;
                let total: usize = rest.len();
                while rest.len() > 0
                    invariant
                        total == old_list.len(),
                        taken + rest@.len() == old_list.len(),
                        rest@ == old_list.skip(taken as int),
                        kept@ == without_id(old_list.take(taken as int), notification_id),
                    decreases rest@.len(),
                {
                    let n = rest.remove(0);
                    proof {
                        assert(n == old_list[taken as int]);
                        assert(old_list.take(taken as int + 1).drop_last() =~= old_list.take(taken as int));
                        assert(rest@ =~= old_list.skip(taken as int + 1));
                    }
                    if !uuid_eq(&n.id, &notification_id) {
                        kept.push(n);
                    }
                    taken = taken + 1;
                }
                assert(old_list.take(taken as int) =~= old_list);
                entries.insert(k, (name, kept));
                proof {
                    assert(entry_names(entries@) =~= entry_names(before));
                    lemma_put_list(before, entries@, user_id@);
                    crate::multimap::lemma_key_index_unique(entry_names(before), k as int);
                }
            },
            None => {
                assert(without_id(Seq::<Notification>::empty(), notification_id) =~= Seq::<Notification>::empty());
            },
        }
        self.notifications = entries;
    }

    /// Keep a copy of `notification` for `recipient` and report it delivered
    /// at `now_millis`.
    pub fn deliver_at(&mut self, notification: &Notification, recipient: &Recipient, now_millis: i64) -> (r: DeliveryResult)
        ensures
            final(self).inbox(recipient.id@).len() == old(self).inbox(recipient.id@).len() + 1,
            final(self).inbox(recipient.id@).drop_last() == old(self).inbox(recipient.id@),
            same_notification(final(self).inbox(recipient.id@).last(), *notification),
            forall|u: Seq<char>| u != recipient.id@ ==> #[trigger] final(self).inbox(u) == old(self).inbox(u),
            r.notification_id == notification.id,
            r.recipient_id == recipient.id,
            r.channel == ChannelType::InApp,
            r.status == DeliveryStatus::Delivered,
            r.sent_at_millis == Some(now_millis),
            r.delivered_at_millis == Some(now_millis),
            r.error is None,
    {
        proof {
            use_type_invariant(&*self);
        }
        let copy = notification.duplicate();
        let mut entries: Vec<(String, Vec<Notification>)> = Vec::new();
        std::mem::swap(&mut entries, &mut self.notifications);
        assert(entry_names(self.notifications@) =~= Seq::<(Seq<char>, ())>::empty());
        let ghost before = entries@;
        match find_name(&entries, recipient.id.as_str()) {
            Some(k) => {
                let (name, mut list) = entries.remove(k);
                let ghost old_list = list@;
                list.push(copy);
                entries.insert(k, (name, list));
                proof {
                    assert(entry_names(entries@) =~= entry_names(before));
                    lemma_put_list(before, entries@, recipient.id@);
                    crate::multimap::lemma_key_index_unique(entry_names(before), k as int);
                    assert(entries@[k as int].1@.drop_last() =~= old_list);
                }
            },
            None => {
                let mut list: Vec<Notification> = Vec::new();
                list.push(copy);
                entries.push((recipient.id.clone(), list));
                proof {
                    assert(entry_names(entries@) =~= entry_names(before).push((recipient.id@, ())));
                    lemma_put_list(before, entries@, recipient.id@);
                    crate::multimap::lemma_key_index_unique(entry_names(entries@), before.len() as int);
                    assert(entries@[before.len() as int].1@.drop_last() =~= Seq::<Notification>::empty());
                }
            },
        }
        self.notifications = entries;
        DeliveryResult {
            notification_id: notification.id,
            recipient_id: recipient.id.clone(),
            channel: ChannelType::InApp,
            status: DeliveryStatus::Delivered,
            sent_at_millis: Some(now_millis),
            delivered_at_millis: Some(now_millis),
            error: None,
        }
    }
}

impl Default for InAppChannel {
    fn default() -> (r: Self)
        ensures
            forall|u: Seq<char>| #[trigger] r.inbox(u).len() == 0,
    {
        InAppChannel::new()
    }
}

impl NotificationChannel for InAppChannel {
    fn channel_type(&self) -> ChannelType {
        ChannelType::InApp
    }

    fn send(&mut self, notification: &Notification, recipient: &Recipient) -> Result<DeliveryResult, NotificationError> {
        let now = utc_now_millis();
        Ok(self.deliver_at(notification, recipient, now))
    }

    fn can_deliver_to(&self, recipient: &Recipient) -> bool {
        true
    }
}


/// One registered channel.
struct ChannelSlot {
    channel: Box<dyn NotificationChannel>,
}

/// `c` as a registered channel.
fn channel_slot<C: NotificationChannel + 'static>(c: C) -> ChannelSlot {
    ChannelSlot { channel: Box::new(c) }
}

/// The deliveries of `h` for notification `id`, in order.
pub open spec fn results_for(h: Seq<DeliveryResult>, id: uuid::Uuid) -> Seq<DeliveryResult>
    decreases h.len(),
{
    if h.len() == 0 {
        h
    } else if h.last().notification_id == id {
        results_for(h.drop_last(), id).push(h.last())
    } else {
        results_for(h.drop_last(), id)
    }
}

/// Renders templates and delivers notifications through registered
/// channels, keeping the history of deliveries.
pub struct NotificationService {
    channels: Vec<(String, ChannelSlot)>,
    templates: Vec<(String, Template)>,
    recipients: Vec<(String, Recipient)>,
    history: Vec<DeliveryResult>,
}

impl NotificationService {
    /// The names channels are registered under.
    pub closed spec fn channel_names(&self) -> Seq<Seq<char>> {
        names_of(self.channels@)
    }

    /// The templates by identifier.
    pub closed spec fn templates_view(&self) -> Seq<(Seq<char>, Template)> {
        keyed_view(self.templates@)
    }

    /// The recipients by identifier.
    pub closed spec fn recipients_view(&self) -> Seq<(Seq<char>, Recipient)> {
        keyed_view(self.recipients@)
    }

    /// The template identifiers, in the order first registered.
    pub closed spec fn template_ids(&self) -> Seq<Seq<char>> {
        names_of(self.templates@)
    }

    /// The recipient identifiers, in the order first registered.
    pub closed spec fn recipient_ids(&self) -> Seq<Seq<char>> {
        names_of(self.recipients@)
    }

    /// Every delivery made, oldest first.
    pub closed spec fn history_view(&self) -> Seq<DeliveryResult> {
        self.history@
    }

    /// No name is registered twice.
    pub closed spec fn wf(&self) -> bool {
        &&& distinct_keys(entry_names(self.channels@))
        &&& distinct_keys(entry_names(self.templates@))
        &&& distinct_keys(entry_names(self.recipients@))
    }

    /// A service with nothing registered.
    pub fn new() -> (r: Self)
        ensures
            r.wf(),
            r.channel_names().len() == 0,
            r.templates_view().len() == 0,
            r.recipients_view().len() == 0,
            r.history_view().len() == 0,
    {
        let r = NotificationService {
            channels: Vec::new(),
            templates: Vec::new(),
            recipients: Vec::new(),
            history: Vec::new(),
        };
        assert(entry_names(r.channels@) =~= Seq::<(Seq<char>, ())>::empty());
        assert(entry_names(r.templates@) =~= Seq::<(Seq<char>, ())>::empty());
        assert(entry_names(r.recipients@) =~= Seq::<(Seq<char>, ())>::empty());
        r
    }

    /// Register `channel` under `name`, replacing one registered under it.
    pub fn register_channel<C: NotificationChannel + 'static>(&mut self, name: &str, channel: C)
        requires
            old(self).wf(),
        ensures
            final(self).wf(),
            final(self).channel_names() == put_name(old(self).channel_names(), name@),
            final(self).templates_view() == old(self).templates_view(),
            final(self).recipients_view() == old(self).recipients_view(),
            final(self).history_view() == old(self).history_view(),
    {
        put_named(&mut self.channels, name, channel_slot(channel));
    }

    /// Register `template` under its identifier, replacing one registered
    /// under it.
    pub fn register_template(&mut self, template: Template)
        requires
            old(self).wf(),
        ensures
            final(self).wf(),
            has_key(final(self).templates_view(), template.id@),
            final(self).templates_view()[key_index(final(self).templates_view(), template.id@)].1 == template,
            final(self).template_ids() == put_name(old(self).template_ids(), template.id@),
            final(self).channel_names() == old(self).channel_names(),
            final(self).recipients_view() == old(self).recipients_view(),
            final(self).history_view() == old(self).history_view(),
    {
        let key = template.id.clone();
        let ghost id = template.id@;
        let ghost t = template;
        put_named(&mut self.templates, key.as_str(), template);
        proof {
            lemma_view_keys(self.templates@);
            lemma_view_keys(old(self).templates@);
        }
    }

    /// Register `recipient` under its identifier, replacing one registered
    /// under it.
    pub fn register_recipient(&mut self, recipient: Recipient)
        requires
            old(self).wf(),
        ensures
            final(self).wf(),
            has_key(final(self).recipients_view(), recipient.id@),
            final(self).recipients_view()[key_index(final(self).recipients_view(), recipient.id@)].1 == recipient,
            final(self).recipient_ids() == put_name(old(self).recipient_ids(), recipient.id@),
            final(self).channel_names() == old(self).channel_names(),
            final(self).templates_view() == old(self).templates_view(),
            final(self).history_view() == old(self).history_view(),
    {
        let key = recipient.id.clone();
        put_named(&mut self.recipients, key.as_str(), recipient);
        proof {
            lemma_view_keys(self.recipients@);
            lemma_view_keys(old(self).recipients@);
        }
    }

    /// Send `notification`: render its template, if it names one, then for
    /// each recipient deliver through each channel asked for (the
    /// recipient's preferred ones where the notification names none) that is
    /// registered and can reach the recipient. The deliveries join the
    /// history.
    pub fn send(&mut self, notification: Notification) -> (r: Result<Vec<DeliveryResult>, NotificationError>)
        requires
            old(self).wf(),
        ensures
            final(self).wf(),
            final(self).channel_names() == old(self).channel_names(),
            final(self).templates_view() == old(self).templates_view(),
            final(self).recipients_view() == old(self).recipients_view(),
            (notification.template_id matches Some(t) && !has_key(old(self).templates_view(), t@)) ==> (r matches Err(
                NotificationError::TemplateNotFound(x),
            ) && x@ == notification.template_id.unwrap()@),
            r is Err ==> final(self).history_view() == old(self).history_view(),
            r matches Ok(v) ==> final(self).history_view() == old(self).history_view() + v@,
            r is Ok ==> forall|i: int| 0 <= i < notification.recipients@.len() ==> has_key(
                old(self).recipients_view(),
                (#[trigger] notification.recipients@[i])@,
            ),
    {
        proof {
            lemma_view_keys(self.templates@);
            lemma_view_keys(self.recipients@);
        }
        let template_id = copy_opt(&notification.template_id);
        let rendered = match template_id {
            Some(tid) => match find_name(&self.templates, tid.as_str()) {
                Some(i) => {
                    let (subject, body) = self.templates[i].1.render(&notification.variables);
                    Notification { subject, body, ..notification }
                },
                None => {
                    return Err(NotificationError::TemplateNotFound(tid));
                },
            },
            None => notification,
        };
        assert(notification.template_id matches Some(t) ==> has_key(old(self).templates_view(), t@));
        let mut results: Vec<DeliveryResult> = Vec::new();
        let mut i: usize = 0;
        while i < rendered.recipients.len()
            invariant
                i <= rendered.recipients@.len(),
                self.wf(),
                self.channels@.len() == old(self).channels@.len(),
                names_of(self.channels@) == old(self).channel_names(),
                entry_names(self.channels@) == entry_names(old(self).channels@),
                self.templates == old(self).templates,
                self.recipients == old(self).recipients,
                self.history == old(self).history,
                distinct_keys(entry_names(self.recipients@)),
                distinct_keys(entry_names(self.templates@)),
                notification.template_id matches Some(t) ==> has_key(old(self).templates_view(), t@),
                rendered.recipients@ == notification.recipients@,
                rendered.channels@ == notification.channels@,
                forall|j: int| 0 <= j < i ==> has_key(
                    entry_names(old(self).recipients@),
                    (#[trigger] notification.recipients@[j])@,
                ),
            decreases rendered.recipients@.len() - i,
        {
            let rid = rendered.recipients[i].as_str();
            let j = match find_name(&self.recipients, rid) {
                Some(j) => j,
                None => {
                    return Err(NotificationError::InvalidRecipient(to_owned_string(rid)));
                },
            };
            let recipient = &self.recipients[j].1;
            let use_preferred = rendered.channels.len() == 0;
            let n_channels = if use_preferred { recipient.preferred_channels.len() } else { rendered.channels.len() };
            let mut c: usize = 0;
            while c < n_channels
                invariant
                    c <= n_channels,
                    n_channels == if use_preferred { recipient.preferred_channels@.len() } else { rendered.channels@.len() },
                    self.channels@.len() == old(self).channels@.len(),
                    entry_names(self.channels@) == entry_names(old(self).channels@),
                    names_of(self.channels@) == old(self).channel_names(),
                    distinct_keys(entry_names(self.channels@)),
                    self.templates == old(self).templates,
                    self.recipients == old(self).recipients,
                    self.history == old(self).history,
                    distinct_keys(entry_names(self.templates@)),
                    distinct_keys(entry_names(self.recipients@)),
                    notification.template_id matches Some(t) ==> has_key(old(self).templates_view(), t@),
                decreases n_channels - c,
            {
                let ct = if use_preferred { &recipient.preferred_channels[c] } else { &rendered.channels[c] };
                match find_name(&self.channels, ct.name()) {
                    Some(k) => {
                        if self.channels[k].1.channel.can_deliver_to(recipient) {
                            let ghost names_before = entry_names(self.channels@);
                            let (name, mut slot) = self.channels.remove(k);
                            let sent = slot.channel.send(&rendered, recipient);
                            let ghost names_list_before = names_of(self.channels@);
                            self.channels.insert(k, (name, slot));
                            assert(entry_names(self.channels@) =~= names_before);
                            assert(names_of(self.channels@) =~= old(self).channel_names()) by {
                                assert forall|q: int| 0 <= q < self.channels@.len() implies names_of(self.channels@)[q]
                                    == old(self).channel_names()[q] by {
                                    assert(entry_names(self.channels@)[q] == entry_names(old(self).channels@)[q]);
                                }
                            }
                            match sent {
                                Ok(result) => results.push(result),
                                Err(e) => {
                                    return Err(e);
                                },
                            }
                        }
                    },
                    None => {},
                }
                c = c + 1;
            }
            proof {
                assert(entry_names(old(self).recipients@)[j as int].0 == rendered.recipients@[i as int]@);
            }
            i = i + 1;
        }
        let ghost h0 = self.history@;
        let mut out: Vec<DeliveryResult> = Vec::new();
        let mut k: usize = 0;
        while k < results.len()
            invariant
                k <= results@.len(),
                out@ == results@.take(k as int),
                self.history@ == h0 + results@.take(k as int),
                h0 == old(self).history@,
                self.wf(),
                names_of(self.channels@) == old(self).channel_names(),
                self.templates == old(self).templates,
                self.recipients == old(self).recipients,
            decreases results@.len() - k,
        {
            let d = results[k].duplicate();
            self.history.push(d);
            out.push(results[k].duplicate());
            assert(results@.take(k as int + 1) =~= results@.take(k as int).push(results@[k as int]));
            k = k + 1;
        }
        assert(results@.take(k as int) =~= results@);
        Ok(out)
    }

    /// The deliveries of notification `notification_id`, or all of them.
    pub fn get_history(&self, notification_id: Option<uuid::Uuid>) -> (r: Vec<DeliveryResult>)
        ensures
            r@ == match notification_id {
                Some(id) => results_for(self.history_view(), id),
                None => self.history_view(),
            },
    {
        let mut out: Vec<DeliveryResult> = Vec::new();
        let mut i: usize = 0;
        while i < self.history.len()
            invariant
                i <= self.history@.len(),
                out@ == match notification_id {
                    Some(id) => results_for(self.history@.take(i as int), id),
                    None => self.history@.take(i as int),
                },
            decreases self.history@.len() - i,
        {
            proof {
                assert(self.history@.take(i as int + 1).drop_last() =~= self.history@.take(i as int));
            }
            let keep = match &notification_id {
                Some(id) => uuid_eq(&self.history[i].notification_id, id),
                None => true,
            };
            if keep {
                out.push(self.history[i].duplicate());
            }
            i = i + 1;
        }
        assert(self.history@.take(i as int) =~= self.history@);
        out
    }
}

/// The entries of a registry with their keys by view.
pub open spec fn keyed_view<A>(s: Seq<(String, A)>) -> Seq<(Seq<char>, A)> {
    s.map_values(|e: (String, A)| (e.0@, e.1))
}

/// The keys of a registry by view are its entry names.
proof fn lemma_view_keys<A>(s: Seq<(String, A)>)
    ensures
        forall|k: Seq<char>| has_key(keyed_view(s), k) == #[trigger] has_key(entry_names(s), k),
        distinct_keys(entry_names(s)) ==> distinct_keys(keyed_view(s)),
        forall|k: Seq<char>| has_key(entry_names(s), k) ==> #[trigger] key_index(keyed_view(s), k)
            == key_index(entry_names(s), k) || !distinct_keys(entry_names(s)),
{
    let v = keyed_view(s);
    let n = entry_names(s);
    assert(v.len() == n.len());
    assert forall|k: Seq<char>| has_key(v, k) == #[trigger] has_key(n, k) by {
        if has_key(v, k) {
            let j = choose|j: int| 0 <= j < v.len() && v[j].0 == k;
            assert(n[j].0 == k);
        }
        if has_key(n, k) {
            let j = choose|j: int| 0 <= j < n.len() && n[j].0 == k;
            assert(v[j].0 == k);
        }
    }
    if distinct_keys(n) {
        assert forall|a: int, b: int| 0 <= a < v.len() && 0 <= b < v.len() && a != b implies v[a].0 != v[b].0 by {
            assert(n[a].0 == v[a].0 && n[b].0 == v[b].0);
        }
        assert forall|k: Seq<char>| has_key(n, k) implies #[trigger] key_index(v, k) == key_index(n, k) by {
            let j = key_index(n, k);
            assert(v[j].0 == k);
            crate::multimap::lemma_key_index_unique(v, j);
        }
    }
}

impl Default for NotificationService {
    fn default() -> (r: Self)
        ensures
            r.wf(),
            r.history_view().len() == 0,
    {
        NotificationService::new()
    }
}

} // verus!
