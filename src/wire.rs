//! Request shapes of the message-template API, their normalisation and
//! validation, and the errors that routes report.
use vstd::prelude::*;
use vstd::string::StringExecFns;
use vstd::utf8::encode_utf8;

use crate::config::LimitConfig;
use crate::permissions::MANAGE_MESSAGES;

verus! {

/// An error that a route reports to its caller.
#[derive(Clone, Debug)]
pub enum RouteError {
    NotFound { entity: String },
    DatabaseError,
    ValidationError { field: String, details: String },
    InvalidToken,
    BackgroundRequestFailed { details: String },
    MissingGuildAccess,
    MissingChannelAccess,
    GuildChannelMismatch,
    ChannelWebhookLimitReached,
    UnsupportedChannelType,
    DiscordApi,
    MessageLimitReached,
    InvalidMessageAction { details: String },
}

/// The HTTP status of each error.
pub open spec fn status_of(e: RouteError) -> u16 {
    match e {
        RouteError::NotFound { .. } => 404,
        RouteError::DatabaseError => 500,
        RouteError::ValidationError { .. } => 400,
        RouteError::InvalidToken => 401,
        RouteError::BackgroundRequestFailed { .. } => 500,
        RouteError::MissingGuildAccess => 403,
        RouteError::MissingChannelAccess => 403,
        RouteError::GuildChannelMismatch => 400,
        RouteError::ChannelWebhookLimitReached => 400,
        RouteError::UnsupportedChannelType => 400,
        RouteError::DiscordApi => 400,
        RouteError::MessageLimitReached => 403,
        RouteError::InvalidMessageAction { .. } => 400,
    }
}

/// The code under which each error is reported.
pub open spec fn code_of(e: RouteError) -> Seq<char> {
    match e {
        RouteError::NotFound { .. } => "not_found"@,
        RouteError::DatabaseError => "database_error"@,
        RouteError::ValidationError { .. } => "validation_error"@,
        RouteError::InvalidToken => "invalid_token"@,
        RouteError::BackgroundRequestFailed { .. } => "background_request_failed"@,
        RouteError::MissingGuildAccess => "missing_guild_access"@,
        RouteError::MissingChannelAccess => "missing_channel_access"@,
        RouteError::GuildChannelMismatch => "guild_channel_mismatch"@,
        RouteError::ChannelWebhookLimitReached => "channel_webhook_limit_reached"@,
        RouteError::UnsupportedChannelType => "unsupported_channel_type"@,
        RouteError::DiscordApi => "discord_api"@,
        RouteError::MessageLimitReached => "message_limit_reached"@,
        RouteError::InvalidMessageAction { .. } => "invalid_message_action"@,
    }
}

/// The human-readable message of each error.
pub open spec fn message_of(e: RouteError) -> Seq<char> {
    match e {
        RouteError::NotFound { .. } => "Not found"@,
        RouteError::DatabaseError => "A database operation has failed"@,
        RouteError::ValidationError { .. } => "Field validation failed"@,
        RouteError::InvalidToken => "No or invalid token provided"@,
        RouteError::BackgroundRequestFailed { .. } => "A background request has failed"@,
        RouteError::MissingGuildAccess => "You don't have access to the discord server"@,
        RouteError::MissingChannelAccess => "You don't have access to the discord channel"@,
        RouteError::GuildChannelMismatch => "The provided channel doesn't belong to the provided server"@,
        RouteError::ChannelWebhookLimitReached => "The bot can't create a new webhook because there are already 10 for the channel"@,
        RouteError::UnsupportedChannelType => "The type of the channel is not supported"@,
        RouteError::DiscordApi => "A request to the Discord API has failed"@,
        RouteError::MessageLimitReached => "You have reached the maximum count of messages"@,
        RouteError::InvalidMessageAction { .. } => "The message contains an invalid action"@,
    }
}

impl RouteError {
    pub fn status_code(&self) -> (r: u16)
        ensures
            r == status_of(*self),
    {
        match self {
            RouteError::NotFound { .. } => 404,
            RouteError::DatabaseError => 500,
            RouteError::ValidationError { .. } => 400,
            RouteError::InvalidToken => 401,
            RouteError::BackgroundRequestFailed { .. } => 500,
            RouteError::MissingGuildAccess => 403,
            RouteError::MissingChannelAccess => 403,
            RouteError::GuildChannelMismatch => 400,
            RouteError::ChannelWebhookLimitReached => 400,
            RouteError::UnsupportedChannelType => 400,
            RouteError::DiscordApi => 400,
            RouteError::MessageLimitReached => 403,
            RouteError::InvalidMessageAction { .. } => 400,
        }
    }

    pub fn code(&self) -> (r: String)
        ensures
            r@ == code_of(*self),
    {
        let s = match self {
            RouteError::NotFound { .. } => "not_found",
            RouteError::DatabaseError => "database_error",
            RouteError::ValidationError { .. } => "validation_error",
            RouteError::InvalidToken => "invalid_token",
            RouteError::BackgroundRequestFailed { .. } => "background_request_failed",
            RouteError::MissingGuildAccess => "missing_guild_access",
            RouteError::MissingChannelAccess => "missing_channel_access",
            RouteError::GuildChannelMismatch => "guild_channel_mismatch",
            RouteError::ChannelWebhookLimitReached => "channel_webhook_limit_reached",
            RouteError::UnsupportedChannelType => "unsupported_channel_type",
            RouteError::DiscordApi => "discord_api",
            RouteError::MessageLimitReached => "message_limit_reached",
            RouteError::InvalidMessageAction { .. } => "invalid_message_action",
        };
        String::from_str(s)
    }

    /// The human-readable message of the error.
    pub fn message(&self) -> (r: String)
        ensures
            r@ == message_of(*self),
    {
        let s = match self {
            RouteError::NotFound { .. } => "Not found",
            RouteError::DatabaseError => "A database operation has failed",
            RouteError::ValidationError { .. } => "Field validation failed",
            RouteError::InvalidToken => "No or invalid token provided",
            RouteError::BackgroundRequestFailed { .. } => "A background request has failed",
            RouteError::MissingGuildAccess => "You don't have access to the discord server",
            RouteError::MissingChannelAccess => "You don't have access to the discord channel",
            RouteError::GuildChannelMismatch => "The provided channel doesn't belong to the provided server",
            RouteError::ChannelWebhookLimitReached => "The bot can't create a new webhook because there are already 10 for the channel",
            RouteError::UnsupportedChannelType => "The type of the channel is not supported",
            RouteError::DiscordApi => "A request to the Discord API has failed",
            RouteError::MessageLimitReached => "You have reached the maximum count of messages",
            RouteError::InvalidMessageAction { .. } => "The message contains an invalid action",
        };
        String::from_str(s)
    }
}

/// An error as a response body carries it.
#[derive(Clone, Debug)]
pub struct ErrorResponseWrapper {
    pub inner: RouteError,
    pub details: Option<String>,
}

impl ErrorResponseWrapper {
    /// The body for an error, with its message as details.
    pub fn from_error(e: RouteError) -> (r: ErrorResponseWrapper)
        ensures
            r.inner == e,
            r.details is Some && r.details->0@ == message_of(e),
    {
        let details = e.message();
        ErrorResponseWrapper { inner: e, details: Some(details) }
    }
}

/// White space taken off both ends, as `str::trim` does.
pub uninterp spec fn trim_of(s: Seq<char>) -> Seq<char>;

/// Relies on `str::trim`: the text without leading and trailing white space.
#[verifier::external_body]
fn trimmed(s: &str) -> (r: String)
    ensures
        r@ == trim_of(s@),
{
    s.trim().to_string()
}

/// The length of text in bytes, as `str::len` counts it.
pub open spec fn byte_len(s: Seq<char>) -> int {
    encode_utf8(s).len() as int
}

/// The field that fails validation first, if any: a name of 3 to 25 bytes, a
/// description of at most 100 bytes, a payload within the size limit.
pub open spec fn invalid_field(
    name: Seq<char>,
    description: Option<Seq<char>>,
    payload: Seq<char>,
    max_size: usize,
) -> Option<Seq<char>> {
    if byte_len(name) < 3 || byte_len(name) > 25 {
        Some("name"@)
    } else if description is Some && byte_len(description->0) > 100 {
        Some("description"@)
    } else if byte_len(payload) > max_size {
        Some("data"@)
    } else {
        None
    }
}

pub open spec fn opt_view(s: Option<String>) -> Option<Seq<char>> {
    match s {
        Some(t) => Some(t@),
        None => None,
    }
}

/// `r` reports the failing field `field`, or success where there is none.
pub open spec fn reports(r: Result<(), RouteError>, field: Option<Seq<char>>) -> bool {
    match field {
        None => r is Ok,
        Some(f) => r is Err && r->Err_0 is ValidationError && r->Err_0->field@ == f,
    }
}

fn validation_error(field: &str, details: &str) -> (r: RouteError)
    ensures
        r is ValidationError && r->field@ == field@,
{
    RouteError::ValidationError { field: String::from_str(field), details: String::from_str(details) }
}

fn check_fields(name: &String, description: &Option<String>, payload: &String, max_size: usize) -> (r:
    Result<(), RouteError>)
    ensures
        reports(r, invalid_field(name@, opt_view(*description), payload@, max_size)),
{
    let n = name.as_str().as_bytes().len();
    if n < 3 || n > 25 {
        return Err(
            validation_error(
                "name",
                "The message name must be between 3 and 25 characters in length",
            ),
        );
    }
    match description {
        Some(d) => {
            if d.as_str().as_bytes().len() > 100 {
                return Err(
                    validation_error(
                        "description",
                        "The message description can't be longer than 100 characters",
                    ),
                );
            }
        },
        None => {},
    }
    if payload.as_str().as_bytes().len() > max_size {
        return Err(validation_error("data", "The message data is too big"));
    }
    Ok(())
}

/// Requests that are normalised, then validated against the limits.
pub trait NormalizeValidate: Sized {
    /// The field that fails validation first, if any.
    spec fn failing_field(&self, limits: LimitConfig) -> Option<Seq<char>>;

    /// `after` is `before` normalised.
    spec fn normalized(before: Self, after: Self) -> bool;

    fn validate(&self, limits: &LimitConfig) -> (r: Result<(), RouteError>)
        ensures
            reports(r, self.failing_field(*limits)),
    ;

    fn normalize(self) -> (r: Self)
        ensures
            Self::normalized(self, r),
    ;

    fn normalize_and_validate(self, limits: &LimitConfig) -> (r: Result<Self, RouteError>)
        ensures
            match r {
                Ok(n) => Self::normalized(self, n) && n.failing_field(*limits) is None,
                Err(e) => exists|n: Self|
                    Self::normalized(self, n) && reports(Err(e), n.failing_field(*limits)),
            },
    ;
}

pub open spec fn opt_trimmed(before: Option<String>, after: Option<String>) -> bool {
    match before {
        Some(b) => after is Some && after->0@ == trim_of(b@),
        None => after is None,
    }
}

fn trim_opt(s: Option<String>) -> (r: Option<String>)
    ensures
        opt_trimmed(s, r),
{
    match s {
        Some(t) => Some(trimmed(t.as_str())),
        None => None,
    }
}

/// A request to save a new message template.
#[derive(Clone, Debug)]
pub struct MessageCreateRequestWire {
    pub name: String,
    pub description: Option<String>,
    pub payload_json: String,
}

impl NormalizeValidate for MessageCreateRequestWire {
    open spec fn failing_field(&self, limits: LimitConfig) -> Option<Seq<char>> {
        invalid_field(self.name@, opt_view(self.description), self.payload_json@, limits.max_message_size)
    }

    open spec fn normalized(before: Self, after: Self) -> bool {
        after.name@ == trim_of(before.name@) && opt_trimmed(before.description, after.description)
            && after.payload_json == before.payload_json
    }

    fn validate(&self, limits: &LimitConfig) -> (r: Result<(), RouteError>) {
        check_fields(&self.name, &self.description, &self.payload_json, limits.max_message_size)
    }

    fn normalize(self) -> (r: Self) {
        MessageCreateRequestWire {
            name: trimmed(self.name.as_str()),
            description: trim_opt(self.description),
            payload_json: self.payload_json,
        }
    }

    fn normalize_and_validate(self, limits: &LimitConfig) -> (r: Result<Self, RouteError>) {
        let normalized = self.normalize();
        match normalized.validate(limits) {
            Ok(()) => Ok(normalized),
            Err(e) => Err(e),
        }
    }
}

/// A request to change a saved message template.
#[derive(Clone, Debug)]
pub struct MessageUpdateRequestWire {
    pub name: String,
    pub description: Option<String>,
    pub payload_json: String,
}

impl NormalizeValidate for MessageUpdateRequestWire {
    open spec fn failing_field(&self, limits: LimitConfig) -> Option<Seq<char>> {
        invalid_field(self.name@, opt_view(self.description), self.payload_json@, limits.max_message_size)
    }

    open spec fn normalized(before: Self, after: Self) -> bool {
        after.name@ == trim_of(before.name@) && opt_trimmed(before.description, after.description)
            && after.payload_json == before.payload_json
    }

    fn validate(&self, limits: &LimitConfig) -> (r: Result<(), RouteError>) {
        check_fields(&self.name, &self.description, &self.payload_json, limits.max_message_size)
    }

    fn normalize(self) -> (r: Self) {
        MessageUpdateRequestWire {
            name: trimmed(self.name.as_str()),
            description: trim_opt(self.description),
            payload_json: self.payload_json,
        }
    }

    fn normalize_and_validate(self, limits: &LimitConfig) -> (r: Result<Self, RouteError>) {
        let normalized = self.normalize();
        match normalized.validate(limits) {
            Ok(()) => Ok(normalized),
            Err(e) => Err(e),
        }
    }
}

/// An attachment of a message to send, as a data URL.
#[derive(Clone, Debug)]
pub struct MessageSendAttachmentWire {
    pub name: String,
    pub description: Option<String>,
    pub data_url: String,
}

pub open spec fn is_filename_char(c: char) -> bool {
    ('0' <= c && c <= '9') || ('a' <= c && c <= 'z') || ('A' <= c && c <= 'Z') || c == '.' || c
        == '-' || c == '_'
}

/// The characters of `s` that may stand in a file name, in order.
pub open spec fn filename_of(s: Seq<char>) -> Seq<char> {
    s.filter(|c: char| is_filename_char(c))
}

impl MessageSendAttachmentWire {
    /// The attachment's name with every character taken out but ASCII
    /// letters, digits, `.`, `-` and `_`.
    pub fn sanitized_filename(&self) -> (r: String)
        ensures
            r@ == filename_of(self.name@),
    {
        let s = crate::text::chars_of(self.name.as_str());
        let mut out: Vec<char> = Vec::new();
        let mut k: usize = 0;
        while k < s.len()
            invariant
                k <= s@.len(),
                s@ == self.name@,
                out@ == filename_of(s@.take(k as int)),
            decreases s.len() - k,
        {
            let c = s[k];
            proof {
                assert(s@.take(k + 1).drop_last() =~= s@.take(k as int));
                reveal(Seq::filter);
            }
            if ('0' <= c && c <= '9') || ('a' <= c && c <= 'z') || ('A' <= c && c <= 'Z') || c == '.'
                || c == '-' || c == '_' {
                out.push(c);
            }
            k += 1;
        }
        assert(s@.take(k as int) =~= s@);
        crate::text::string_of(&out)
    }
}

/// A message shared for editing.
#[derive(Clone, Debug)]
pub struct SharedMessageWire {
    pub id: String,
    pub payload_json: String,
}

/// A message shared for editing, as it is stored.
#[derive(Clone, Debug)]
pub struct SharedMessageModel {
    pub id: String,
    pub payload_json: String,
}

impl SharedMessageWire {
    pub fn from_model(m: SharedMessageModel) -> (r: SharedMessageWire)
        ensures
            r.id == m.id,
            r.payload_json == m.payload_json,
    {
        SharedMessageWire { id: m.id, payload_json: m.payload_json }
    }
}

/// Refuses a new saved message once the owner holds as many as the quota allows.
pub fn check_message_quota(count: u64, limits: &LimitConfig) -> (r: Result<(), RouteError>)
    ensures
        r is Ok <==> count < limits.max_messages_per_user,
        r is Err ==> r->Err_0 is MessageLimitReached,
{
    if count >= limits.max_messages_per_user as u64 {
        Err(RouteError::MessageLimitReached)
    } else {
        Ok(())
    }
}

/// The scopes, among a user's (id and the user's permission bits there), in
/// which the user may manage messages, in order.
pub open spec fn accessible_guilds(guilds: Seq<(u64, u64)>) -> Seq<u64>
    decreases guilds.len(),
{
    if guilds.len() == 0 {
        Seq::empty()
    } else {
        let rest = accessible_guilds(guilds.drop_last());
        if guilds.last().1 & MANAGE_MESSAGES != 0 {
            rest.push(guilds.last().0)
        } else {
            rest
        }
    }
}

pub fn guild_ids_with_access(guilds: &Vec<(u64, u64)>) -> (r: Vec<u64>)
    ensures
        r@ == accessible_guilds(guilds@),
{
    let mut out: Vec<u64> = Vec::new();
    let mut k: usize = 0;
    while k < guilds.len()
        invariant
            k <= guilds@.len(),
            out@ == accessible_guilds(guilds@.take(k as int)),
        decreases guilds.len() - k,
    {
        proof {
            assert(guilds@.take(k + 1).drop_last() =~= guilds@.take(k as int));
        }
        let (id, permissions) = guilds[k];
        if permissions & MANAGE_MESSAGES != 0 {
            out.push(id);
        }
        k += 1;
    }
    assert(guilds@.take(k as int) =~= guilds@);
    out
}

/// A signed-in user as the API reports it.
#[derive(Clone, Debug)]
pub struct UserWire {
    pub id: String,
    pub username: String,
    pub discriminator: String,
    pub avatar: Option<String>,
}

/// The code of an authorisation exchange.
#[derive(Clone, Debug)]
pub struct ExchangeTokenRequestWire {
    pub code: String,
}

/// The session token that an exchange hands out.
#[derive(Clone, Debug)]
pub struct ExchangeTokenResponseWire {
    pub token: String,
}

} // verus!
