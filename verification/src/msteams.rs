//! Microsoft Teams: configuration, Azure AD token caching, Graph and Bot
//! Framework message types, and the decisions of the Teams channel (which
//! activities it takes, where a message goes). The HTTP calls themselves
//! are made by the caller with the values decided here.

use vstd::prelude::*;
use crate::clock::utc_now_millis;
use crate::chars::{split_on, split_ranges, string_of_range};
use crate::multimap::{distinct_keys, has_key, key_index, lemma_key_index_unique};
use crate::text::{chars_of, str_eq, string_push_str, to_owned_string};

verus! {

/// Errors of the Teams integration.
#[derive(Debug, Clone, PartialEq, Eq)]
pub enum MsTeamsError {
    AuthenticationFailed(String),
    TokenExpired,
    ApiError(String),
    TeamNotFound(String),
    ChannelNotFound(String),
    InvalidConfig(String),
    RateLimitExceeded,
    HttpError(String),
    BotFrameworkError(String),
}

impl MsTeamsError {
    /// The error's description.
    pub fn message(&self) -> (r: String)
        ensures
            r@ == match self {
                MsTeamsError::AuthenticationFailed(s) => "Authentication failed: "@ + s@,
                MsTeamsError::TokenExpired => "Token expired"@,
                MsTeamsError::ApiError(s) => "API error: "@ + s@,
                MsTeamsError::TeamNotFound(s) => "Team not found: "@ + s@,
                MsTeamsError::ChannelNotFound(s) => "Channel not found: "@ + s@,
                MsTeamsError::InvalidConfig(s) => "Invalid configuration: "@ + s@,
                MsTeamsError::RateLimitExceeded => "Rate limit exceeded"@,
                MsTeamsError::HttpError(s) => "HTTP error: "@ + s@,
                MsTeamsError::BotFrameworkError(s) => "Bot framework error: "@ + s@,
            },
    {
        let mut out = String::new();
        let (prefix, detail): (&str, Option<&String>) = match self {
            MsTeamsError::AuthenticationFailed(s) => ("Authentication failed: ", Some(s)),
            MsTeamsError::TokenExpired => ("Token expired", None),
            MsTeamsError::ApiError(s) => ("API error: ", Some(s)),
            MsTeamsError::TeamNotFound(s) => ("Team not found: ", Some(s)),
            MsTeamsError::ChannelNotFound(s) => ("Channel not found: ", Some(s)),
            MsTeamsError::InvalidConfig(s) => ("Invalid configuration: ", Some(s)),
            MsTeamsError::RateLimitExceeded => ("Rate limit exceeded", None),
            MsTeamsError::HttpError(s) => ("HTTP error: ", Some(s)),
            MsTeamsError::BotFrameworkError(s) => ("Bot framework error: ", Some(s)),
        };
        string_push_str(&mut out, prefix);
        match detail {
            Some(s) => string_push_str(&mut out, s.as_str()),
            None => {},
        }
        out
    }
}

/// Settings of the Teams channel.
#[derive(Debug, Clone)]
pub struct MsTeamsConfig {
    /// Azure AD tenant.
    pub tenant_id: String,
    /// Azure AD application (client).
    pub client_id: String,
    pub client_secret: String,
    /// Bot Framework application.
    pub bot_app_id: String,
    pub messaging_endpoint: Option<String>,
    /// Teams taken messages from; empty for all.
    pub allowed_teams: Vec<String>,
    /// Channels taken messages from; empty for all.
    pub allowed_channels: Vec<String>,
    /// Keep conversations to write to later.
    pub enable_proactive: bool,
    pub enable_notifications: bool,
}

impl Default for MsTeamsConfig {
    fn default() -> (r: Self)
        ensures
            r.tenant_id@.len() == 0,
            r.client_id@.len() == 0,
            r.client_secret@.len() == 0,
            r.bot_app_id@.len() == 0,
            r.messaging_endpoint is None,
            r.allowed_teams@.len() == 0,
            r.allowed_channels@.len() == 0,
            !r.enable_proactive,
            r.enable_notifications,
    {
        MsTeamsConfig {
            tenant_id: String::new(),
            client_id: String::new(),
            client_secret: String::new(),
            bot_app_id: String::new(),
            messaging_endpoint: None,
            allowed_teams: Vec::new(),
            allowed_channels: Vec::new(),
            enable_proactive: false,
            enable_notifications: true,
        }
    }
}

/// Azure AD credentials and the scopes asked for.
#[derive(Debug, Clone)]
pub struct AuthConfig {
    pub tenant_id: String,
    pub client_id: String,
    pub client_secret: String,
    pub scopes: Vec<String>,
}

impl AuthConfig {
    /// Credentials for Microsoft Graph.
    pub fn for_graph(tenant_id: &str, client_id: &str, client_secret: &str) -> (r: Self)
        ensures
            r.tenant_id@ == tenant_id@,
            r.client_id@ == client_id@,
            r.client_secret@ == client_secret@,
            r.scopes@.len() == 1,
            r.scopes@[0]@ == "https://graph.microsoft.com/.default"@,
    {
        let mut scopes: Vec<String> = Vec::new();
        scopes.push(to_owned_string("https://graph.microsoft.com/.default"));
        AuthConfig {
            tenant_id: to_owned_string(tenant_id),
            client_id: to_owned_string(client_id),
            client_secret: to_owned_string(client_secret),
            scopes,
        }
    }

    /// Credentials for the Bot Framework.
    pub fn for_bot_framework(client_id: &str, client_secret: &str) -> (r: Self)
        ensures
            r.tenant_id@ == "botframework.com"@,
            r.client_id@ == client_id@,
            r.client_secret@ == client_secret@,
            r.scopes@.len() == 1,
            r.scopes@[0]@ == "https://api.botframework.com/.default"@,
    {
        let mut scopes: Vec<String> = Vec::new();
        scopes.push(to_owned_string("https://api.botframework.com/.default"));
        AuthConfig {
            tenant_id: to_owned_string("botframework.com"),
            client_id: to_owned_string(client_id),
            client_secret: to_owned_string(client_secret),
            scopes,
        }
    }

    /// The token endpoint of the tenant.
    pub fn token_endpoint(&self) -> (r: String)
        ensures
            r@ == "https://login.microsoftonline.com/"@ + self.tenant_id@ + "/oauth2/v2.0/token"@,
    {
        let mut out = to_owned_string("https://login.microsoftonline.com/");
        string_push_str(&mut out, self.tenant_id.as_str());
        string_push_str(&mut out, "/oauth2/v2.0/token");
        out
    }

    /// The form of a client-credentials token request: client, secret, the
    /// scopes joined by spaces, and the grant type.
    pub fn token_request_form(&self) -> (r: Vec<(String, String)>)
        ensures
            r@.len() == 4,
            r@[0].0@ == "client_id"@ && r@[0].1@ == self.client_id@,
            r@[1].0@ == "client_secret"@ && r@[1].1@ == self.client_secret@,
            r@[2].0@ == "scope"@ && r@[2].1@ == joined_by_space(self.scopes@.map_values(|s: String| s@)),
            r@[3].0@ == "grant_type"@ && r@[3].1@ == "client_credentials"@,
    {
        let mut form: Vec<(String, String)> = Vec::new();
        form.push((to_owned_string("client_id"), self.client_id.clone()));
        form.push((to_owned_string("client_secret"), self.client_secret.clone()));
        form.push((to_owned_string("scope"), join_with_spaces(&self.scopes)));
        form.push((to_owned_string("grant_type"), to_owned_string("client_credentials")));
        form
    }
}

/// The words joined by single spaces.
pub open spec fn joined_by_space(ws: Seq<Seq<char>>) -> Seq<char>
    decreases ws.len(),
{
    if ws.len() == 0 {
        Seq::empty()
    } else if ws.len() == 1 {
        ws[0]
    } else {
        joined_by_space(ws.drop_last()) + " "@ + ws.last()
    }
}

fn join_with_spaces(words: &Vec<String>) -> (r: String)
    ensures
        r@ == joined_by_space(words@.map_values(|s: String| s@)),
{
    let ghost ws = words@.map_values(|s: String| s@);
    let mut out = String::new();
    let mut i: usize = 0;
    while i < words.len()
        invariant
            i <= words@.len(),
            ws == words@.map_values(|s: String| s@),
            out@ == joined_by_space(ws.take(i as int)),
        decreases words@.len() - i,
    {
        proof {
            assert(ws.take(i as int + 1).drop_last() =~= ws.take(i as int));
            assert(ws.take(i as int + 1).last() == words@[i as int]@);
            if i == 0 {
                assert(ws.take(0) =~= Seq::<Seq<char>>::empty());
            }
        }
        if i > 0 {
            string_push_str(&mut out, " ");
        }
        string_push_str(&mut out, words[i].as_str());
        proof {
            if i == 0 {
                assert(ws.take(1)[0] == words@[0]@);
                assert(out@ =~= ws.take(1)[0]);
            }
        }
        i = i + 1;
    }
    assert(ws.take(i as int) =~= ws);
    out
}

/// An OAuth2 token as the token endpoint gives it.
#[derive(Debug, Clone)]
pub struct TokenResponse {
    pub access_token: String,
    /// Usually `Bearer`.
    pub token_type: String,
    /// Seconds until it expires.
    pub expires_in: u64,
    pub resource: Option<String>,
}

/// How long before its expiry a token is given up, in milliseconds.
pub const TOKEN_MARGIN_MILLIS: i64 = 300_000;

/// A token expiring at `expires_at_millis` is given up at `now_millis`:
/// five minutes before it expires.
pub open spec fn token_expired(expires_at_millis: i64, now_millis: i64) -> bool {
    now_millis + TOKEN_MARGIN_MILLIS > expires_at_millis
}

/// The last token acquired and when it expires.
pub struct TokenCache {
    cached: Option<(String, i64)>,
}

impl TokenCache {
    /// The token and its expiry in milliseconds, if one is kept.
    pub closed spec fn cached_view(&self) -> Option<(Seq<char>, i64)> {
        match self.cached {
            Some((t, e)) => Some((t@, e)),
            None => None,
        }
    }

    /// An empty cache.
    pub fn new() -> (r: Self)
        ensures
            r.cached_view() is None,
    {
        TokenCache { cached: None }
    }

    /// The token kept, unless it is given up at `now_millis`.
    pub fn valid_token_at(&self, now_millis: i64) -> (r: Option<String>)
        ensures
            match self.cached_view() {
                Some((t, e)) => if token_expired(e, now_millis) {
                    r is None
                } else {
                    r matches Some(s) && s@ == t
                },
                None => r is None,
            },
    {
        match &self.cached {
            Some((t, e)) => {
                if (now_millis as i128) + (TOKEN_MARGIN_MILLIS as i128) > (*e as i128) {
                    None
                } else {
                    Some(t.clone())
                }
            },
            None => None,
        }
    }

    /// Keep the token of `response`, acquired at `now_millis`.
    pub fn store_at(&mut self, response: &TokenResponse, now_millis: i64)
        requires
            response.expires_in <= 9_223_372_036_854_775,
            now_millis + response.expires_in * 1000 <= i64::MAX,
        ensures
            final(self).cached_view() == Some((response.access_token@, (now_millis + response.expires_in * 1000) as i64)),
    {
        let expires_at = now_millis + (response.expires_in as i64) * 1000;
        self.cached = Some((response.access_token.clone(), expires_at));
    }

    /// Forget the token.
    pub fn clear(&mut self)
        ensures
            final(self).cached_view() is None,
    {
        self.cached = None;
    }
}

/// A team.
#[derive(Debug, Clone)]
pub struct Team {
    pub id: String,
    pub display_name: String,
    pub description: Option<String>,
    pub internal_id: Option<String>,
    pub web_url: Option<String>,
}

/// A channel of a team.
#[derive(Debug, Clone)]
pub struct TeamsChannel {
    pub id: String,
    pub display_name: String,
    pub description: Option<String>,
    pub web_url: Option<String>,
    pub email: Option<String>,
    pub membership_type: Option<String>,
}

/// A member of a team.
#[derive(Debug, Clone)]
pub struct TeamsMember {
    pub id: String,
    pub display_name: Option<String>,
    pub email: Option<String>,
    pub user_id: Option<String>,
    pub roles: Vec<String>,
}

/// The body of a message: its content type and content.
#[derive(Debug, Clone, PartialEq, Eq)]
pub struct MessageBody {
    /// `text` or `html`.
    pub content_type: String,
    pub content: String,
}

impl MessageBody {
    /// A plain text body.
    pub fn text(content: &str) -> (r: Self)
        ensures
            r.content_type@ == "text"@,
            r.content@ == content@,
    {
        MessageBody { content_type: to_owned_string("text"), content: to_owned_string(content) }
    }

    /// An HTML body.
    pub fn html(content: &str) -> (r: Self)
        ensures
            r.content_type@ == "html"@,
            r.content@ == content@,
    {
        MessageBody { content_type: to_owned_string("html"), content: to_owned_string(content) }
    }
}

/// A user in a message.
#[derive(Debug, Clone)]
pub struct MessageUser {
    pub id: Option<String>,
    pub display_name: Option<String>,
    pub user_identity_type: Option<String>,
}

/// Who sent a message.
#[derive(Debug, Clone)]
pub struct MessageFrom {
    pub user: Option<MessageUser>,
}

/// A file attached to a message.
#[derive(Debug, Clone)]
pub struct MessageAttachment {
    pub id: String,
    pub content_type: String,
    pub content_url: Option<String>,
    pub name: Option<String>,
}

/// A user mentioned.
#[derive(Debug, Clone)]
pub struct MentionedUser {
    pub user: Option<MessageUser>,
}

/// A mention in a message.
#[derive(Debug, Clone)]
pub struct MessageMention {
    pub id: i32,
    pub mention_text: String,
    pub mentioned: Option<MentionedUser>,
}

/// A message of a channel.
#[derive(Debug, Clone)]
pub struct TeamsMessage {
    pub id: String,
    pub body: MessageBody,
    pub from: Option<MessageFrom>,
    /// In milliseconds since the Unix epoch.
    pub created_millis: Option<i64>,
    /// In milliseconds since the Unix epoch.
    pub last_modified_millis: Option<i64>,
    pub reply_to_id: Option<String>,
    pub web_url: Option<String>,
    pub attachments: Vec<MessageAttachment>,
    pub mentions: Vec<MessageMention>,
}


/// The kinds of Bot Framework activity.
#[derive(Debug, Clone, Copy, PartialEq, Eq, Structural)]
pub enum ActivityType {
    Message,
    Typing,
    ConversationUpdate,
    MessageReaction,
    InstallationUpdate,
    Invoke,
    Event,
    EndOfConversation,
    Other,
}

impl Default for ActivityType {
    fn default() -> (r: Self)
        ensures
            r == ActivityType::Message,
    {
        ActivityType::Message
    }
}

/// A team by identifier.
#[derive(Debug, Clone, PartialEq, Eq)]
pub struct TeamInfo {
    pub id: String,
    pub name: Option<String>,
}

/// A channel by identifier.
#[derive(Debug, Clone, PartialEq, Eq)]
pub struct ChannelInfo {
    pub id: String,
    pub name: Option<String>,
}

/// A tenant by identifier.
#[derive(Debug, Clone, PartialEq, Eq)]
pub struct TenantInfo {
    pub id: String,
}

/// What Teams adds to an activity.
#[derive(Debug, Clone)]
pub struct TeamsChannelData {
    pub team: Option<TeamInfo>,
    pub channel: Option<ChannelInfo>,
    pub tenant: Option<TenantInfo>,
}

impl Default for TeamsChannelData {
    fn default() -> (r: Self)
        ensures
            r.team is None,
            r.channel is None,
            r.tenant is None,
    {
        TeamsChannelData { team: None, channel: None, tenant: None }
    }
}

fn copy_opt(o: &Option<String>) -> (r: Option<String>)
    ensures
        r == *o,
{
    match o {
        Some(s) => Some(s.clone()),
        None => None,
    }
}

/// A user or bot.
#[derive(Debug, Clone, PartialEq, Eq)]
pub struct ChannelAccount {
    pub id: String,
    pub name: Option<String>,
    pub aad_object_id: Option<String>,
    pub role: Option<String>,
}

impl ChannelAccount {
    /// The account `id`, nothing else known.
    pub fn new(id: &str) -> (r: Self)
        ensures
            r.id@ == id@,
            r.name is None,
            r.aad_object_id is None,
            r.role is None,
    {
        ChannelAccount { id: to_owned_string(id), name: None, aad_object_id: None, role: None }
    }

    /// The same account named `name`.
    pub fn with_name(self, name: &str) -> (r: Self)
        ensures
            r.id == self.id,
            r.name matches Some(n) && n@ == name@,
            r.aad_object_id == self.aad_object_id,
            r.role == self.role,
    {
        ChannelAccount { name: Some(to_owned_string(name)), ..self }
    }

    /// A copy.
    pub fn duplicate(&self) -> (r: Self)
        ensures
            r == *self,
    {
        ChannelAccount {
            id: self.id.clone(),
            name: copy_opt(&self.name),
            aad_object_id: copy_opt(&self.aad_object_id),
            role: copy_opt(&self.role),
        }
    }
}

/// A conversation.
#[derive(Debug, Clone, PartialEq, Eq)]
pub struct ConversationAccount {
    pub id: String,
    pub is_group: Option<bool>,
    pub conversation_type: Option<String>,
    pub tenant_id: Option<String>,
    pub name: Option<String>,
}

impl ConversationAccount {
    /// A copy.
    pub fn duplicate(&self) -> (r: Self)
        ensures
            r == *self,
    {
        ConversationAccount {
            id: self.id.clone(),
            is_group: self.is_group,
            conversation_type: copy_opt(&self.conversation_type),
            tenant_id: copy_opt(&self.tenant_id),
            name: copy_opt(&self.name),
        }
    }
}

fn copy_account(o: &Option<ChannelAccount>) -> (r: Option<ChannelAccount>)
    ensures
        r == *o,
{
    match o {
        Some(a) => Some(a.duplicate()),
        None => None,
    }
}

fn copy_conversation(o: &Option<ConversationAccount>) -> (r: Option<ConversationAccount>)
    ensures
        r == *o,
{
    match o {
        Some(a) => Some(a.duplicate()),
        None => None,
    }
}

/// Something attached to an activity.
#[derive(Debug)]
pub struct Attachment {
    /// Its MIME type.
    pub content_type: String,
    pub content_url: Option<String>,
    /// Inline content.
    pub content: Option<serde_json::Value>,
    pub name: Option<String>,
}

impl Attachment {
    /// An adaptive card holding `content`.
    pub fn adaptive_card(content: serde_json::Value) -> (r: Self)
        ensures
            r.content_type@ == "application/vnd.microsoft.card.adaptive"@,
            r.content_url is None,
            r.content == Some(content),
            r.name is None,
    {
        Attachment {
            content_type: to_owned_string("application/vnd.microsoft.card.adaptive"),
            content_url: None,
            content: Some(content),
            name: None,
        }
    }

    /// A PNG image at `url`.
    pub fn image(url: &str, name: Option<&str>) -> (r: Self)
        ensures
            r.content_type@ == "image/png"@,
            r.content_url matches Some(u) && u@ == url@,
            r.content is None,
            match name {
                Some(n) => r.name matches Some(m) && m@ == n@,
                None => r.name is None,
            },
    {
        Attachment {
            content_type: to_owned_string("image/png"),
            content_url: Some(to_owned_string(url)),
            content: None,
            name: match name {
                Some(n) => Some(to_owned_string(n)),
                None => None,
            },
        }
    }
}

/// A Bot Framework activity, incoming or outgoing.
#[derive(Debug)]
pub struct Activity {
    pub activity_type: ActivityType,
    pub id: Option<String>,
    /// In milliseconds since the Unix epoch.
    pub timestamp_millis: Option<i64>,
    /// In milliseconds since the Unix epoch.
    pub local_timestamp_millis: Option<i64>,
    pub service_url: Option<String>,
    pub channel_id: Option<String>,
    pub from: Option<ChannelAccount>,
    pub conversation: Option<ConversationAccount>,
    pub recipient: Option<ChannelAccount>,
    pub text: Option<String>,
    pub text_format: Option<String>,
    pub attachments: Vec<Attachment>,
    pub reply_to_id: Option<String>,
    /// The value of an invoke activity.
    pub value: Option<serde_json::Value>,
    pub channel_data: Option<TeamsChannelData>,
}

impl Default for Activity {
    fn default() -> (r: Self)
        ensures
            r.activity_type == ActivityType::Message,
            r.id is None,
            r.timestamp_millis is None,
            r.from is None,
            r.conversation is None,
            r.text is None,
            r.text_format is None,
            r.attachments@.len() == 0,
            r.reply_to_id is None,
            r.channel_data is None,
    {
        Activity {
            activity_type: ActivityType::Message,
            id: None,
            timestamp_millis: None,
            local_timestamp_millis: None,
            service_url: None,
            channel_id: None,
            from: None,
            conversation: None,
            recipient: None,
            text: None,
            text_format: None,
            attachments: Vec::new(),
            reply_to_id: None,
            value: None,
            channel_data: None,
        }
    }
}

impl Activity {
    /// A plain text message made now.
    pub fn message(text: &str) -> (r: Self)
        ensures
            r.activity_type == ActivityType::Message,
            r.id is None,
            r.timestamp_millis is Some,
            r.text matches Some(t) && t@ == text@,
            r.text_format matches Some(f) && f@ == "plain"@,
            r.attachments@.len() == 0,
            r.reply_to_id is None,
            r.from is None,
            r.conversation is None,
            r.channel_data is None,
    {
        let mut a = Activity::default();
        a.timestamp_millis = Some(utc_now_millis());
        a.text = Some(to_owned_string(text));
        a.text_format = Some(to_owned_string("plain"));
        a
    }

    /// A typing indicator.
    pub fn typing() -> (r: Self)
        ensures
            r.activity_type == ActivityType::Typing,
            r.text is None,
            r.attachments@.len() == 0,
    {
        let mut a = Activity::default();
        a.activity_type = ActivityType::Typing;
        a
    }

    /// The same activity replying to `reply_to_id`.
    pub fn with_reply_to(self, reply_to_id: &str) -> (r: Self)
        ensures
            r.reply_to_id matches Some(x) && x@ == reply_to_id@,
            r.activity_type == self.activity_type,
            r.text == self.text,
            r.attachments == self.attachments,
    {
        let mut a = self;
        a.reply_to_id = Some(to_owned_string(reply_to_id));
        a
    }

    /// The same activity with `attachment` added last.
    pub fn with_attachment(self, attachment: Attachment) -> (r: Self)
        ensures
            r.attachments@ == self.attachments@.push(attachment),
            r.activity_type == self.activity_type,
            r.text == self.text,
            r.reply_to_id == self.reply_to_id,
    {
        let mut a = self;
        a.attachments.push(attachment);
        a
    }

    /// The sender's identifier.
    pub fn sender_id(&self) -> (r: Option<&str>)
        ensures
            match self.from {
                Some(f) => r matches Some(s) && s@ == f.id@,
                None => r is None,
            },
    {
        match &self.from {
            Some(f) => Some(f.id.as_str()),
            None => None,
        }
    }

    /// The sender's name.
    pub fn sender_name(&self) -> (r: Option<&str>)
        ensures
            match self.from {
                Some(f) => match f.name {
                    Some(n) => r matches Some(s) && s@ == n@,
                    None => r is None,
                },
                None => r is None,
            },
    {
        match &self.from {
            Some(f) => match &f.name {
                Some(n) => Some(n.as_str()),
                None => None,
            },
            None => None,
        }
    }

    /// Whether the activity is a message.
    pub fn is_message(&self) -> (r: bool)
        ensures
            r == (self.activity_type == ActivityType::Message),
    {
        self.activity_type == ActivityType::Message
    }
}

/// What is needed to write to a conversation later.
#[derive(Debug, Clone, PartialEq, Eq)]
pub struct ConversationReference {
    pub activity_id: Option<String>,
    pub user: Option<ChannelAccount>,
    pub bot: Option<ChannelAccount>,
    pub conversation: Option<ConversationAccount>,
    pub channel_id: Option<String>,
    pub service_url: Option<String>,
}

impl ConversationReference {
    /// The reference of the conversation of `activity`, written to by the
    /// bot `bot_id`.
    pub fn from_activity(activity: &Activity, bot_id: &str) -> (r: Self)
        ensures
            r.activity_id == activity.id,
            r.user == activity.from,
            r.bot matches Some(b) && b.id@ == bot_id@ && b.name is None,
            r.conversation == activity.conversation,
            r.channel_id == activity.channel_id,
            r.service_url == activity.service_url,
    {
        ConversationReference {
            activity_id: copy_opt(&activity.id),
            user: copy_account(&activity.from),
            bot: Some(ChannelAccount::new(bot_id)),
            conversation: copy_conversation(&activity.conversation),
            channel_id: copy_opt(&activity.channel_id),
            service_url: copy_opt(&activity.service_url),
        }
    }

    /// A copy.
    pub fn duplicate(&self) -> (r: Self)
        ensures
            r == *self,
    {
        ConversationReference {
            activity_id: copy_opt(&self.activity_id),
            user: copy_account(&self.user),
            bot: copy_account(&self.bot),
            conversation: copy_conversation(&self.conversation),
            channel_id: copy_opt(&self.channel_id),
            service_url: copy_opt(&self.service_url),
        }
    }
}

/// `s` without the `/` characters it ends with.
pub open spec fn without_trailing_slashes(s: Seq<char>) -> Seq<char>
    decreases s.len(),
{
    if s.len() > 0 && s.last() == '/' {
        without_trailing_slashes(s.drop_last())
    } else {
        s
    }
}

fn trim_trailing_slashes(s: &str) -> (r: String)
    ensures
        r@ == without_trailing_slashes(s@),
{
    let chars = crate::text::chars_of(s);
    let mut n: usize = chars.len();
    assert(chars@.take(n as int) =~= chars@);
    while n > 0 && chars[n - 1] == '/'
        invariant
            n <= chars@.len(),
            chars@ == s@,
            without_trailing_slashes(s@) == without_trailing_slashes(chars@.take(n as int)),
        decreases n,
    {
        assert(chars@.take(n as int).drop_last() =~= chars@.take(n as int - 1));
        n = n - 1;
    }
    let mut out = String::new();
    let mut i: usize = 0;
    while i < n
        invariant
            i <= n <= chars@.len(),
            out@ == chars@.take(i as int),
        decreases n - i,
    {
        crate::text::string_push(&mut out, chars[i]);
        assert(chars@.take(i as int + 1) =~= chars@.take(i as int).push(chars@[i as int]));
        i = i + 1;
    }
    assert(without_trailing_slashes(chars@.take(n as int)) == chars@.take(n as int));
    out
}

/// The URL that activities of conversation `conversation_id` are posted to.
pub open spec fn activities_url(service_url: Seq<char>, conversation_id: Seq<char>) -> Seq<char> {
    without_trailing_slashes(service_url) + "/v3/conversations/"@ + conversation_id + "/activities"@
}

/// The URL that posts a reply to activity `activity_id`.
pub open spec fn reply_url(service_url: Seq<char>, conversation_id: Seq<char>, activity_id: Seq<char>) -> Seq<char> {
    activities_url(service_url, conversation_id) + "/"@ + activity_id
}

/// Where activities of `conversation_id` are posted, at `service_url`.
pub fn conversation_activities_url(service_url: &str, conversation_id: &str) -> (r: String)
    ensures
        r@ == activities_url(service_url@, conversation_id@),
{
    let mut out = trim_trailing_slashes(service_url);
    string_push_str(&mut out, "/v3/conversations/");
    string_push_str(&mut out, conversation_id);
    string_push_str(&mut out, "/activities");
    out
}

/// Where a reply to `activity_id` is posted.
pub fn activity_reply_url(service_url: &str, conversation_id: &str, activity_id: &str) -> (r: String)
    ensures
        r@ == reply_url(service_url@, conversation_id@, activity_id@),
{
    let mut out = conversation_activities_url(service_url, conversation_id);
    string_push_str(&mut out, "/");
    string_push_str(&mut out, activity_id);
    out
}

/// The service URL and conversation a proactive message goes to.
pub fn proactive_target(reference: &ConversationReference) -> (r: Result<(&str, &str), MsTeamsError>)
    ensures
        match (reference.service_url, reference.conversation) {
            (Some(u), Some(c)) => r matches Ok((a, b)) && a@ == u@ && b@ == c.id@,
            (None, _) => r matches Err(MsTeamsError::InvalidConfig(m)) && m@ == "Missing service URL"@,
            (Some(_), None) => r matches Err(MsTeamsError::InvalidConfig(m)) && m@ == "Missing conversation ID"@,
        },
{
    let service_url = match &reference.service_url {
        Some(u) => u.as_str(),
        None => {
            return Err(MsTeamsError::InvalidConfig(to_owned_string("Missing service URL")));
        },
    };
    match &reference.conversation {
        Some(c) => Ok((service_url, c.id.as_str())),
        None => Err(MsTeamsError::InvalidConfig(to_owned_string("Missing conversation ID"))),
    }
}


/// The entries after setting `k` to `v`: a known key keeps its place, a new
/// one goes last.
pub open spec fn put_entry<V>(ps: Seq<(Seq<char>, V)>, k: Seq<char>, v: V) -> Seq<(Seq<char>, V)> {
    if has_key(ps, k) {
        ps.update(key_index(ps, k), (k, v))
    } else {
        ps.push((k, v))
    }
}

/// Some string of `list` is `x`.
pub open spec fn lists(list: Seq<String>, x: Seq<char>) -> bool {
    exists|i: int| 0 <= i < list.len() && (#[trigger] list[i])@ == x
}

fn list_contains(list: &Vec<String>, x: &str) -> (r: bool)
    ensures
        r == lists(list@, x@),
{
    let mut i: usize = 0;
    while i < list.len()
        invariant
            i <= list@.len(),
            forall|j: int| 0 <= j < i ==> (#[trigger] list@[j])@ != x@,
        decreases list@.len() - i,
    {
        if str_eq(list[i].as_str(), x) {
            return true;
        }
        i = i + 1;
    }
    false
}

/// Whether an activity with Teams data `cd` passes the allowed teams and
/// channels: a list left empty allows all, and an activity that names no
/// team (or channel) passes that list.
pub open spec fn activity_allowed(teams: Seq<String>, channels: Seq<String>, cd: Option<TeamsChannelData>) -> bool {
    &&& (teams.len() == 0 || match cd {
        Some(d) => match d.team {
            Some(t) => lists(teams, t.id@),
            None => true,
        },
        None => true,
    })
    &&& (channels.len() == 0 || match cd {
        Some(d) => match d.channel {
            Some(c) => lists(channels, c.id@),
            None => true,
        },
        None => true,
    })
}

/// A message taken from Teams.
#[derive(Debug, Clone, PartialEq, Eq)]
pub struct IncomingTeamsMessage {
    pub id: String,
    /// Always `msteams`.
    pub channel_type: String,
    pub sender_id: String,
    pub sender_name: String,
    pub conversation_id: String,
    pub text: String,
    /// In milliseconds since the Unix epoch.
    pub timestamp_millis: i64,
    pub reply_to: Option<String>,
}

fn text_or_empty(o: &Option<String>) -> (r: String)
    ensures
        r@ == match o {
            Some(s) => s@,
            None => Seq::<char>::empty(),
        },
{
    match o {
        Some(s) => s.clone(),
        None => String::new(),
    }
}

/// The text of `o`, or nothing.
pub open spec fn or_empty(o: Option<String>) -> Seq<char> {
    match o {
        Some(s) => s@,
        None => Seq::empty(),
    }
}

/// `m` is the message that activity `a` with text `text` makes when taken at
/// `now_millis`.
pub open spec fn message_of(m: IncomingTeamsMessage, a: Activity, text: String, now_millis: i64) -> bool {
    &&& m.id@ == or_empty(a.id)
    &&& m.channel_type@ == "msteams"@
    &&& m.sender_id@ == match a.from {
        Some(f) => f.id@,
        None => Seq::empty(),
    }
    &&& m.sender_name@ == match a.from {
        Some(f) => or_empty(f.name),
        None => Seq::empty(),
    }
    &&& m.conversation_id@ == match a.conversation {
        Some(c) => c.id@,
        None => Seq::empty(),
    }
    &&& m.text == text
    &&& m.timestamp_millis == match a.timestamp_millis {
        Some(t) => t,
        None => now_millis,
    }
    &&& m.reply_to == a.reply_to_id
}

/// What the Teams channel reports.
#[derive(Debug, Clone, PartialEq, Eq)]
pub enum TeamsEvent {
    Connected,
    Disconnected,
    MessageReceived(IncomingTeamsMessage),
}

/// Where a message goes.
#[derive(Debug, Clone, PartialEq, Eq)]
pub enum SendRoute {
    /// Through the Bot Framework, to a conversation seen before.
    Proactive(ConversationReference),
    /// Through Microsoft Graph, to a channel of a team.
    Graph { team_id: String, channel_id: String },
}

/// The decisions of the Teams channel: which activities it takes, the
/// conversations it can write to later, and where a message goes.
pub struct MsTeamsChannel {
    config: MsTeamsConfig,
    conversation_refs: Vec<(String, ConversationReference)>,
    events: Vec<TeamsEvent>,
    connected: bool,
}

/// The conversations by identifier view.
pub open spec fn ref_views(ps: Seq<(String, ConversationReference)>) -> Seq<(Seq<char>, ConversationReference)> {
    ps.map_values(|p: (String, ConversationReference)| (p.0@, p.1))
}

impl MsTeamsChannel {
    /// The settings.
    pub closed spec fn config_view(&self) -> MsTeamsConfig {
        self.config
    }

    /// The conversations kept, by identifier, in the order first seen.
    pub closed spec fn refs_view(&self) -> Seq<(Seq<char>, ConversationReference)> {
        ref_views(self.conversation_refs@)
    }

    /// The events reported and not yet taken, oldest first.
    pub closed spec fn events_view(&self) -> Seq<TeamsEvent> {
        self.events@
    }

    /// Whether the channel is connected.
    pub closed spec fn connected_view(&self) -> bool {
        self.connected
    }

    /// No conversation is kept twice.
    pub open spec fn wf(&self) -> bool {
        distinct_keys(self.refs_view())
    }

    /// A channel with `config`, which must name a tenant, a client and a
    /// secret.
    pub fn new(config: MsTeamsConfig) -> (r: Result<Self, MsTeamsError>)
        ensures
            config.tenant_id@.len() == 0 ==> (r matches Err(MsTeamsError::InvalidConfig(m)) && m@ == "Missing tenant_id"@),
            config.tenant_id@.len() != 0 && config.client_id@.len() == 0 ==> (r matches Err(
                MsTeamsError::InvalidConfig(m),
            ) && m@ == "Missing client_id"@),
            config.tenant_id@.len() != 0 && config.client_id@.len() != 0 && config.client_secret@.len() == 0
                ==> (r matches Err(MsTeamsError::InvalidConfig(m)) && m@ == "Missing client_secret"@),
            config.tenant_id@.len() != 0 && config.client_id@.len() != 0 && config.client_secret@.len() != 0
                ==> (r matches Ok(c) && c.wf() && c.config_view() == config && c.refs_view().len() == 0
                && c.events_view().len() == 0 && !c.connected_view()),
    {
        if config.tenant_id.as_str().is_empty() {
            return Err(MsTeamsError::InvalidConfig(to_owned_string("Missing tenant_id")));
        }
        if config.client_id.as_str().is_empty() {
            return Err(MsTeamsError::InvalidConfig(to_owned_string("Missing client_id")));
        }
        if config.client_secret.as_str().is_empty() {
            return Err(MsTeamsError::InvalidConfig(to_owned_string("Missing client_secret")));
        }
        let r = MsTeamsChannel { config, conversation_refs: Vec::new(), events: Vec::new(), connected: false };
        assert(r.refs_view() =~= Seq::<(Seq<char>, ConversationReference)>::empty());
        Ok(r)
    }

    fn is_allowed(&self, activity: &Activity) -> (r: bool)
        ensures
            r == activity_allowed(self.config.allowed_teams@, self.config.allowed_channels@, activity.channel_data),
    {
        if self.config.allowed_teams.len() == 0 && self.config.allowed_channels.len() == 0 {
            return true;
        }
        if self.config.allowed_teams.len() != 0 {
            match &activity.channel_data {
                Some(d) => match &d.team {
                    Some(t) => {
                        if !list_contains(&self.config.allowed_teams, t.id.as_str()) {
                            return false;
                        }
                    },
                    None => {},
                },
                None => {},
            }
        }
        if self.config.allowed_channels.len() != 0 {
            match &activity.channel_data {
                Some(d) => match &d.channel {
                    Some(c) => {
                        if !list_contains(&self.config.allowed_channels, c.id.as_str()) {
                            return false;
                        }
                    },
                    None => {},
                },
                None => {},
            }
        }
        true
    }

    fn keep_reference(&mut self, key: String, reference: ConversationReference)
        requires
            old(self).wf(),
        ensures
            final(self).wf(),
            final(self).refs_view() == put_entry(old(self).refs_view(), key@, reference),
            final(self).config_view() == old(self).config_view(),
            final(self).events_view() == old(self).events_view(),
            final(self).connected_view() == old(self).connected_view(),
    {
        let ghost ps = self.refs_view();
        let mut i: usize = 0;
        while i < self.conversation_refs.len()
            invariant
                ps == ref_views(self.conversation_refs@),
                ps == old(self).refs_view(),
                self.config == old(self).config,
                self.events == old(self).events,
                self.connected == old(self).connected,
                i <= self.conversation_refs@.len(),
                forall|j: int| 0 <= j < i ==> (#[trigger] ps[j]).0 != key@,
                distinct_keys(ps),
            decreases self.conversation_refs@.len() - i,
        {
            assert(ps[i as int] == (self.conversation_refs@[i as int].0@, self.conversation_refs@[i as int].1));
            if str_eq(self.conversation_refs[i].0.as_str(), key.as_str()) {
                proof {
                    assert(ps[i as int].0 == key@);
                    lemma_key_index_unique(ps, i as int);
                }
                let ghost k = key@;
                self.conversation_refs.set(i, (key, reference));
                proof {
                    let t = ps.update(i as int, (k, reference));
                    assert(ref_views(self.conversation_refs@) =~= t);
                    assert forall|a: int, b: int| 0 <= a < t.len() && 0 <= b < t.len() && a != b implies t[a].0
                        != t[b].0 by {
                        if a != i && b != i {
                            assert(t[a] == ps[a] && t[b] == ps[b]);
                        } else if a == i {
                            assert(t[b] == ps[b]);
                        } else {
                            assert(t[a] == ps[a]);
                        }
                    }
                }
                return;
            }
            i = i + 1;
        }
        proof {
            assert(!has_key(ps, key@));
        }
        let ghost k = key@;
        self.conversation_refs.push((key, reference));
        proof {
            let t = ps.push((k, reference));
            assert(ref_views(self.conversation_refs@) =~= t);
            assert forall|a: int, b: int| 0 <= a < t.len() && 0 <= b < t.len() && a != b implies t[a].0 != t[b].0 by {
                if a < ps.len() && b < ps.len() {
                    assert(t[a] == ps[a] && t[b] == ps[b]);
                } else if a < ps.len() {
                    assert(t[a] == ps[a]);
                } else {
                    assert(t[b] == ps[b]);
                }
            }
        }
    }

    /// Take `activity` at `now_millis`: a message with text from an allowed
    /// team and channel is reported received (and its conversation kept when
    /// proactive messaging is on), and its identifier given back; anything
    /// else is ignored.
    pub fn handle_activity_at(&mut self, activity: Activity, now_millis: i64) -> (r: Result<Option<String>, MsTeamsError>)
        requires
            old(self).wf(),
        ensures
            final(self).wf(),
            final(self).config_view() == old(self).config_view(),
            final(self).connected_view() == old(self).connected_view(),
            !(activity.activity_type == ActivityType::Message && activity.text is Some && activity_allowed(
                old(self).config_view().allowed_teams@,
                old(self).config_view().allowed_channels@,
                activity.channel_data,
            )) ==> r == Ok::<Option<String>, MsTeamsError>(None) && final(self).refs_view() == old(self).refs_view()
                && final(self).events_view() == old(self).events_view(),
            activity.activity_type == ActivityType::Message && activity.text is Some && activity_allowed(
                old(self).config_view().allowed_teams@,
                old(self).config_view().allowed_channels@,
                activity.channel_data,
            ) ==> {
                &&& r == Ok::<Option<String>, MsTeamsError>(activity.id)
                &&& final(self).events_view().len() == old(self).events_view().len() + 1
                &&& final(self).events_view().drop_last() == old(self).events_view()
                &&& final(self).events_view().last() matches TeamsEvent::MessageReceived(m)
                    && message_of(m, activity, activity.text.unwrap(), now_millis)
                &&& (old(self).config_view().enable_proactive && activity.conversation is Some) ==> exists|rf: ConversationReference|
                    rf.activity_id == activity.id && rf.user == activity.from && rf.conversation == activity.conversation
                    && rf.channel_id == activity.channel_id && rf.service_url == activity.service_url
                    && (rf.bot matches Some(b) && b.id@ == old(self).config_view().bot_app_id@ && b.name is None)
                    && final(self).refs_view() == put_entry(old(self).refs_view(), activity.conversation.unwrap().id@, rf)
                &&& !(old(self).config_view().enable_proactive && activity.conversation is Some) ==> final(self).refs_view()
                    == old(self).refs_view()
            },
    {
        if activity.activity_type != ActivityType::Message {
            return Ok(None);
        }
        let text = match &activity.text {
            Some(t) => t.clone(),
            None => {
                return Ok(None);
            },
        };
        if !self.is_allowed(&activity) {
            return Ok(None);
        }
        if self.config.enable_proactive {
            match &activity.conversation {
                Some(conv) => {
                    let reference = ConversationReference::from_activity(&activity, self.config.bot_app_id.as_str());
                    self.keep_reference(conv.id.clone(), reference);
                },
                None => {},
            }
        }
        let sender_id = match &activity.from {
            Some(f) => f.id.clone(),
            None => String::new(),
        };
        let sender_name = match &activity.from {
            Some(f) => text_or_empty(&f.name),
            None => String::new(),
        };
        let conversation_id = match &activity.conversation {
            Some(c) => c.id.clone(),
            None => String::new(),
        };
        let message = IncomingTeamsMessage {
            id: text_or_empty(&activity.id),
            channel_type: to_owned_string("msteams"),
            sender_id,
            sender_name,
            conversation_id,
            text,
            timestamp_millis: match activity.timestamp_millis {
                Some(t) => t,
                None => now_millis,
            },
            reply_to: copy_opt(&activity.reply_to_id),
        };
        let ghost old_events = self.events@;
        self.events.push(TeamsEvent::MessageReceived(message));
        assert(self.events@.drop_last() =~= old_events);
        Ok(activity.id)
    }

    /// Take `activity` now.
    pub fn handle_activity(&mut self, activity: Activity) -> (r: Result<Option<String>, MsTeamsError>)
        requires
            old(self).wf(),
        ensures
            final(self).wf(),
            !(activity.activity_type == ActivityType::Message && activity.text is Some && activity_allowed(
                old(self).config_view().allowed_teams@,
                old(self).config_view().allowed_channels@,
                activity.channel_data,
            )) ==> r == Ok::<Option<String>, MsTeamsError>(None) && final(self).events_view() == old(self).events_view(),
            activity.activity_type == ActivityType::Message && activity.text is Some && activity_allowed(
                old(self).config_view().allowed_teams@,
                old(self).config_view().allowed_channels@,
                activity.channel_data,
            ) ==> r == Ok::<Option<String>, MsTeamsError>(activity.id) && final(self).events_view().len()
                == old(self).events_view().len() + 1,
    {
        let now = utc_now_millis();
        self.handle_activity_at(activity, now)
    }

    /// The conversation kept under `conversation_id`, to write `text` to.
    pub fn proactive_reference(&self, conversation_id: &str) -> (r: Result<ConversationReference, MsTeamsError>)
        requires
            self.wf(),
        ensures
            has_key(self.refs_view(), conversation_id@) ==> r == Ok::<ConversationReference, MsTeamsError>(
                self.refs_view()[key_index(self.refs_view(), conversation_id@)].1,
            ),
            !has_key(self.refs_view(), conversation_id@) ==> (r matches Err(MsTeamsError::ChannelNotFound(m))
                && m@ == conversation_id@),
    {
        let ghost ps = self.refs_view();
        let mut i: usize = 0;
        while i < self.conversation_refs.len()
            invariant
                ps == ref_views(self.conversation_refs@),
                distinct_keys(ps),
                i <= self.conversation_refs@.len(),
                forall|j: int| 0 <= j < i ==> (#[trigger] ps[j]).0 != conversation_id@,
            decreases self.conversation_refs@.len() - i,
        {
            assert(ps[i as int] == (self.conversation_refs@[i as int].0@, self.conversation_refs@[i as int].1));
            if str_eq(self.conversation_refs[i].0.as_str(), conversation_id) {
                proof {
                    lemma_key_index_unique(ps, i as int);
                }
                return Ok(self.conversation_refs[i].1.duplicate());
            }
            i = i + 1;
        }
        Err(MsTeamsError::ChannelNotFound(to_owned_string(conversation_id)))
    }

    /// Where a message to `to` goes: to a conversation kept under `to`, else
    /// to the channel of `team:channel`, else nowhere.
    pub fn route(&self, to: &str) -> (r: Result<SendRoute, MsTeamsError>)
        requires
            self.wf(),
        ensures
            has_key(self.refs_view(), to@) ==> r == Ok::<SendRoute, MsTeamsError>(
                SendRoute::Proactive(self.refs_view()[key_index(self.refs_view(), to@)].1),
            ),
            !has_key(self.refs_view(), to@) && split_on(to@, ':').len() == 2 ==> (r matches Ok(
                SendRoute::Graph { team_id, channel_id },
            ) && team_id@ == split_on(to@, ':')[0] && channel_id@ == split_on(to@, ':')[1]),
            !has_key(self.refs_view(), to@) && split_on(to@, ':').len() != 2 ==> (r matches Err(
                MsTeamsError::ApiError(m),
            ) && m@ == "Invalid destination format: "@ + to@),
    {
        match self.proactive_reference(to) {
            Ok(reference) => {
                return Ok(SendRoute::Proactive(reference));
            },
            Err(_) => {},
        }
        let chars = chars_of(to);
        let ranges = split_ranges(&chars, 0, chars.len(), ':');
        assert(chars@.subrange(0, chars@.len() as int) =~= to@);
        if ranges.len() == 2 {
            let team_id = string_of_range(&chars, ranges[0].0, ranges[0].1);
            let channel_id = string_of_range(&chars, ranges[1].0, ranges[1].1);
            return Ok(SendRoute::Graph { team_id, channel_id });
        }
        let mut m = to_owned_string("Invalid destination format: ");
        string_push_str(&mut m, to);
        Err(MsTeamsError::ApiError(m))
    }

    /// Record that the connection check succeeded.
    pub fn mark_connected(&mut self)
        ensures
            final(self).connected_view(),
            final(self).events_view() == old(self).events_view().push(TeamsEvent::Connected),
            final(self).refs_view() == old(self).refs_view(),
            final(self).config_view() == old(self).config_view(),
    {
        self.connected = true;
        self.events.push(TeamsEvent::Connected);
    }

    /// Disconnect.
    pub fn disconnect(&mut self) -> (r: Result<(), MsTeamsError>)
        ensures
            r is Ok,
            !final(self).connected_view(),
            final(self).events_view() == old(self).events_view().push(TeamsEvent::Disconnected),
            final(self).refs_view() == old(self).refs_view(),
            final(self).config_view() == old(self).config_view(),
    {
        self.connected = false;
        self.events.push(TeamsEvent::Disconnected);
        Ok(())
    }

    /// Whether the channel is connected.
    pub fn is_connected(&self) -> (r: bool)
        ensures
            r == self.connected_view(),
    {
        self.connected
    }

    /// Take the events reported so far.
    pub fn take_events(&mut self) -> (r: Vec<TeamsEvent>)
        ensures
            r@ == old(self).events_view(),
            final(self).events_view().len() == 0,
            final(self).refs_view() == old(self).refs_view(),
            final(self).config_view() == old(self).config_view(),
            final(self).connected_view() == old(self).connected_view(),
    {
        let mut taken: Vec<TeamsEvent> = Vec::new();
        std::mem::swap(&mut taken, &mut self.events);
        taken
    }

    /// The kind of channel: `msteams`.
    pub fn channel_type(&self) -> (r: &'static str)
        ensures
            r@ == "msteams"@,
    {
        "msteams"
    }
}

} // verus!
