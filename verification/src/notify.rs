//! Process events, their messages, and the configuration that decides which
//! of them are sent out.

use crate::text::{
    contains_string,
    copy_text,
    decimal,
    push_decimal,
    push_signed,
    same_text,
    signed_decimal,
    texts,
};
use vstd::prelude::*;
use vstd::string::*;

verus! {

/// An error of the notification system.
#[derive(Debug, PartialEq, Eq)]
pub enum NotifyError {
    HttpError(String),
    TelegramError(String),
    ConfigError(String),
    ConfigNotFound(String),
    IoError(String),
    JsonError(String),
    TomlParseError(String),
    TomlSerializeError(String),
    NotConfigured,
}

/// The fixed text that a notification error's message begins with.
pub open spec fn notify_error_prefix(e: NotifyError) -> Seq<char> {
    match e {
        NotifyError::HttpError(_) => "HTTP request failed: "@,
        NotifyError::TelegramError(_) => "Telegram API error: "@,
        NotifyError::ConfigError(_) => "Configuration error: "@,
        NotifyError::ConfigNotFound(_) => "Config file not found: "@,
        NotifyError::IoError(_) => "IO error: "@,
        NotifyError::JsonError(_) => "JSON error: "@,
        NotifyError::TomlParseError(_) => "TOML parse error: "@,
        NotifyError::TomlSerializeError(_) => "TOML serialize error: "@,
        NotifyError::NotConfigured => "Notifier not configured"@,
    }
}

/// The detail that a notification error carries.
pub open spec fn notify_error_detail(e: NotifyError) -> Seq<char> {
    match e {
        NotifyError::HttpError(s) => s@,
        NotifyError::TelegramError(s) => s@,
        NotifyError::ConfigError(s) => s@,
        NotifyError::ConfigNotFound(s) => s@,
        NotifyError::IoError(s) => s@,
        NotifyError::JsonError(s) => s@,
        NotifyError::TomlParseError(s) => s@,
        NotifyError::TomlSerializeError(s) => s@,
        NotifyError::NotConfigured => Seq::empty(),
    }
}

impl NotifyError {
    pub fn config(msg: &str) -> (e: NotifyError)
        ensures
            e matches NotifyError::ConfigError(s) && s@ == msg@,
    {
        NotifyError::ConfigError(copy_text(msg))
    }

    pub fn telegram(msg: &str) -> (e: NotifyError)
        ensures
            e matches NotifyError::TelegramError(s) && s@ == msg@,
    {
        NotifyError::TelegramError(copy_text(msg))
    }

    /// The message of this error: its fixed prefix, then its detail.
    pub fn to_string(&self) -> (r: String)
        ensures
            r@ == notify_error_prefix(*self) + notify_error_detail(*self),
    {
        let mut out = String::new();
        match self {
            NotifyError::HttpError(s) => {
                out.append("HTTP request failed: ");
                out.append(s.as_str());
            },
            NotifyError::TelegramError(s) => {
                out.append("Telegram API error: ");
                out.append(s.as_str());
            },
            NotifyError::ConfigError(s) => {
                out.append("Configuration error: ");
                out.append(s.as_str());
            },
            NotifyError::ConfigNotFound(s) => {
                out.append("Config file not found: ");
                out.append(s.as_str());
            },
            NotifyError::IoError(s) => {
                out.append("IO error: ");
                out.append(s.as_str());
            },
            NotifyError::JsonError(s) => {
                out.append("JSON error: ");
                out.append(s.as_str());
            },
            NotifyError::TomlParseError(s) => {
                out.append("TOML parse error: ");
                out.append(s.as_str());
            },
            NotifyError::TomlSerializeError(s) => {
                out.append("TOML serialize error: ");
                out.append(s.as_str());
            },
            NotifyError::NotConfigured => {
                out.append("Notifier not configured");
            },
        }
        assert(out@ =~= notify_error_prefix(*self) + notify_error_detail(*self));
        out
    }
}

/// An event of a managed process that can be sent out as a notification.
#[derive(Debug)]
pub enum ProcessEvent {
    Started { name: String, id: u32 },
    Stopped { name: String, id: u32, exit_code: Option<i32> },
    Crashed { name: String, id: u32, error: String },
    Restarted { name: String, id: u32, restart_count: u32 },
    MemoryLimit { name: String, id: u32, memory_mb: u64, limit_mb: u64 },
    HealthCheckFailed { name: String, id: u32, endpoint: String },
}

/// The mathematical value of [`ProcessEvent`].
pub enum ProcessEventView {
    Started { name: Seq<char>, id: u32 },
    Stopped { name: Seq<char>, id: u32, exit_code: Option<i32> },
    Crashed { name: Seq<char>, id: u32, error: Seq<char> },
    Restarted { name: Seq<char>, id: u32, restart_count: u32 },
    MemoryLimit { name: Seq<char>, id: u32, memory_mb: u64, limit_mb: u64 },
    HealthCheckFailed { name: Seq<char>, id: u32, endpoint: Seq<char> },
}

impl View for ProcessEvent {
    type V = ProcessEventView;

    open spec fn view(&self) -> ProcessEventView {
        match self {
            ProcessEvent::Started { name, id } => ProcessEventView::Started {
                name: name@,
                id: *id,
            },
            ProcessEvent::Stopped { name, id, exit_code } => ProcessEventView::Stopped {
                name: name@,
                id: *id,
                exit_code: *exit_code,
            },
            ProcessEvent::Crashed { name, id, error } => ProcessEventView::Crashed {
                name: name@,
                id: *id,
                error: error@,
            },
            ProcessEvent::Restarted { name, id, restart_count } => ProcessEventView::Restarted {
                name: name@,
                id: *id,
                restart_count: *restart_count,
            },
            ProcessEvent::MemoryLimit {
                name,
                id,
                memory_mb,
                limit_mb,
            } => ProcessEventView::MemoryLimit {
                name: name@,
                id: *id,
                memory_mb: *memory_mb,
                limit_mb: *limit_mb,
            },
            ProcessEvent::HealthCheckFailed {
                name,
                id,
                endpoint,
            } => ProcessEventView::HealthCheckFailed { name: name@, id: *id, endpoint: endpoint@ },
        }
    }
}

/// The name by which an event's type is filtered.
pub open spec fn event_type_name(e: ProcessEventView) -> Seq<char> {
    match e {
        ProcessEventView::Started { .. } => "start"@,
        ProcessEventView::Stopped { .. } => "stop"@,
        ProcessEventView::Crashed { .. } => "crash"@,
        ProcessEventView::Restarted { .. } => "restart"@,
        ProcessEventView::MemoryLimit { .. } => "memory_limit"@,
        ProcessEventView::HealthCheckFailed { .. } => "health_check"@,
    }
}

/// The process name that an event carries.
pub open spec fn event_name(e: ProcessEventView) -> Seq<char> {
    match e {
        ProcessEventView::Started { name, .. } => name,
        ProcessEventView::Stopped { name, .. } => name,
        ProcessEventView::Crashed { name, .. } => name,
        ProcessEventView::Restarted { name, .. } => name,
        ProcessEventView::MemoryLimit { name, .. } => name,
        ProcessEventView::HealthCheckFailed { name, .. } => name,
    }
}

/// The application id that an event carries.
pub open spec fn event_id(e: ProcessEventView) -> u32 {
    match e {
        ProcessEventView::Started { id, .. } => id,
        ProcessEventView::Stopped { id, .. } => id,
        ProcessEventView::Crashed { id, .. } => id,
        ProcessEventView::Restarted { id, .. } => id,
        ProcessEventView::MemoryLimit { id, .. } => id,
        ProcessEventView::HealthCheckFailed { id, .. } => id,
    }
}

/// The English ordinal of a restart count: `1st`, `2nd`, `3rd`, then `nth`.
pub open spec fn ordinal(n: u32) -> Seq<char> {
    if n == 1 {
        "1st"@
    } else if n == 2 {
        "2nd"@
    } else if n == 3 {
        "3rd"@
    } else {
        decimal(n as nat) + "th"@
    }
}

/// The human-readable message of an event.
pub open spec fn event_message(e: ProcessEventView) -> Seq<char> {
    match e {
        ProcessEventView::Started { name, id } => "\u{1F7E2} Started: `"@ + name + "` (id: "@
            + decimal(id as nat) + ")"@,
        ProcessEventView::Stopped { name, id, exit_code } => "\u{26AA} Stopped: `"@ + name + "`"@
            + (match exit_code {
            Some(c) => " - Exit code "@ + signed_decimal(c as int),
            None => Seq::empty(),
        }),
        ProcessEventView::Crashed { name, id, error } => "\u{1F534} Crashed: `"@ + name
            + "` (id: "@ + decimal(id as nat) + ")\nError: "@ + error,
        ProcessEventView::Restarted { name, id, restart_count } => "\u{1F504} Restarted: `"@ + name
            + "` (id: "@ + decimal(id as nat) + ", "@ + ordinal(restart_count) + " restart)"@,
        ProcessEventView::MemoryLimit {
            name,
            id,
            memory_mb,
            limit_mb,
        } => "\u{26A0}\u{FE0F} Memory limit: `"@ + name + "` (id: "@ + decimal(id as nat)
            + ")\nUsing "@ + decimal(memory_mb as nat) + "MB / "@ + decimal(limit_mb as nat)
            + "MB limit"@,
        ProcessEventView::HealthCheckFailed {
            name,
            id,
            endpoint,
        } => "\u{1F6A8} Health check failed: `"@ + name + "` (id: "@ + decimal(id as nat)
            + ")\nEndpoint: "@ + endpoint,
    }
}

impl Clone for ProcessEvent {
    fn clone(&self) -> (r: ProcessEvent)
        ensures
            r@ == self@,
    {
        match self {
            ProcessEvent::Started { name, id } => ProcessEvent::Started {
                name: name.clone(),
                id: *id,
            },
            ProcessEvent::Stopped { name, id, exit_code } => ProcessEvent::Stopped {
                name: name.clone(),
                id: *id,
                exit_code: *exit_code,
            },
            ProcessEvent::Crashed { name, id, error } => ProcessEvent::Crashed {
                name: name.clone(),
                id: *id,
                error: error.clone(),
            },
            ProcessEvent::Restarted { name, id, restart_count } => ProcessEvent::Restarted {
                name: name.clone(),
                id: *id,
                restart_count: *restart_count,
            },
            ProcessEvent::MemoryLimit { name, id, memory_mb, limit_mb } => ProcessEvent::MemoryLimit {
                name: name.clone(),
                id: *id,
                memory_mb: *memory_mb,
                limit_mb: *limit_mb,
            },
            ProcessEvent::HealthCheckFailed {
                name,
                id,
                endpoint,
            } => ProcessEvent::HealthCheckFailed {
                name: name.clone(),
                id: *id,
                endpoint: endpoint.clone(),
            },
        }
    }
}

impl ProcessEvent {
    /// The name by which this event's type is filtered.
    pub fn event_type(&self) -> (r: &'static str)
        ensures
            r@ == event_type_name(self@),
    {
        match self {
            ProcessEvent::Started { .. } => "start",
            ProcessEvent::Stopped { .. } => "stop",
            ProcessEvent::Crashed { .. } => "crash",
            ProcessEvent::Restarted { .. } => "restart",
            ProcessEvent::MemoryLimit { .. } => "memory_limit",
            ProcessEvent::HealthCheckFailed { .. } => "health_check",
        }
    }

    /// The human-readable message of this event.
    pub fn format_message(&self) -> (r: String)
        ensures
            r@ == event_message(self@),
    {
        let mut out = String::new();
        match self {
            ProcessEvent::Started { name, id } => {
                out.append("\u{1F7E2} Started: `");
                out.append(name.as_str());
                out.append("` (id: ");
                push_decimal(&mut out, *id as u64);
                out.append(")");
            },
            ProcessEvent::Stopped { name, id, exit_code } => {
                out.append("\u{26AA} Stopped: `");
                out.append(name.as_str());
                out.append("`");
                match exit_code {
                    Some(c) => {
                        out.append(" - Exit code ");
                        push_signed(&mut out, *c);
                    },
                    None => {},
                }
            },
            ProcessEvent::Crashed { name, id, error } => {
                out.append("\u{1F534} Crashed: `");
                out.append(name.as_str());
                out.append("` (id: ");
                push_decimal(&mut out, *id as u64);
                out.append(")\nError: ");
                out.append(error.as_str());
            },
            ProcessEvent::Restarted { name, id, restart_count } => {
                out.append("\u{1F504} Restarted: `");
                out.append(name.as_str());
                out.append("` (id: ");
                push_decimal(&mut out, *id as u64);
                out.append(", ");
                if *restart_count == 1 {
                    out.append("1st");
                } else if *restart_count == 2 {
                    out.append("2nd");
                } else if *restart_count == 3 {
                    out.append("3rd");
                } else {
                    push_decimal(&mut out, *restart_count as u64);
                    out.append("th");
                }
                out.append(" restart)");
            },
            ProcessEvent::MemoryLimit { name, id, memory_mb, limit_mb } => {
                out.append("\u{26A0}\u{FE0F} Memory limit: `");
                out.append(name.as_str());
                out.append("` (id: ");
                push_decimal(&mut out, *id as u64);
                out.append(")\nUsing ");
                push_decimal(&mut out, *memory_mb);
                out.append("MB / ");
                push_decimal(&mut out, *limit_mb);
                out.append("MB limit");
            },
            ProcessEvent::HealthCheckFailed { name, id, endpoint } => {
                out.append("\u{1F6A8} Health check failed: `");
                out.append(name.as_str());
                out.append("` (id: ");
                push_decimal(&mut out, *id as u64);
                out.append(")\nEndpoint: ");
                out.append(endpoint.as_str());
            },
        }
        assert(out@ =~= event_message(self@));
        out
    }

    /// The process name that this event carries.
    pub fn name(&self) -> (r: &str)
        ensures
            r@ == event_name(self@),
    {
        match self {
            ProcessEvent::Started { name, .. } => name.as_str(),
            ProcessEvent::Stopped { name, .. } => name.as_str(),
            ProcessEvent::Crashed { name, .. } => name.as_str(),
            ProcessEvent::Restarted { name, .. } => name.as_str(),
            ProcessEvent::MemoryLimit { name, .. } => name.as_str(),
            ProcessEvent::HealthCheckFailed { name, .. } => name.as_str(),
        }
    }

    /// The application id that this event carries.
    pub fn id(&self) -> (r: u32)
        ensures
            r == event_id(self@),
    {
        match self {
            ProcessEvent::Started { id, .. } => *id,
            ProcessEvent::Stopped { id, .. } => *id,
            ProcessEvent::Crashed { id, .. } => *id,
            ProcessEvent::Restarted { id, .. } => *id,
            ProcessEvent::MemoryLimit { id, .. } => *id,
            ProcessEvent::HealthCheckFailed { id, .. } => *id,
        }
    }
}

/// Where Telegram notifications go.
#[derive(Debug)]
pub struct TelegramConfig {
    pub bot_token: String,
    pub chat_id: String,
}

impl Clone for TelegramConfig {
    fn clone(&self) -> (r: TelegramConfig)
        ensures
            r.bot_token@ == self.bot_token@,
            r.chat_id@ == self.chat_id@,
    {
        TelegramConfig { bot_token: self.bot_token.clone(), chat_id: self.chat_id.clone() }
    }
}

/// The URL of the Telegram call that sends a message for `bot_token`.
pub open spec fn telegram_url(bot_token: Seq<char>) -> Seq<char> {
    "https://api.telegram.org/bot"@ + bot_token + "/sendMessage"@
}

impl TelegramConfig {
    /// The URL of the call that sends a message.
    pub fn api_url(&self) -> (r: String)
        ensures
            r@ == telegram_url(self.bot_token@),
    {
        let mut out = copy_text("https://api.telegram.org/bot");
        out.append(self.bot_token.as_str());
        out.append("/sendMessage");
        assert(out@ =~= telegram_url(self.bot_token@));
        out
    }

    /// Whether both the token and the chat id are given.
    pub fn is_configured(&self) -> (r: bool)
        ensures
            r == (self.bot_token@.len() > 0 && self.chat_id@.len() > 0),
    {
        !self.bot_token.as_str().is_empty() && !self.chat_id.as_str().is_empty()
    }
}

/// Which events are sent out, and where.
#[derive(Debug)]
pub struct NotifyConfig {
    pub telegram: Option<TelegramConfig>,
    /// Event type names to notify on; empty means all.
    pub events: Vec<String>,
}

/// The event type names that a configuration may list.
pub open spec fn is_event_type(s: Seq<char>) -> bool {
    s == "start"@ || s == "stop"@ || s == "crash"@ || s == "restart"@ || s == "memory_limit"@ || s
        == "health_check"@
}

/// The detail of the error for an unknown event type name.
pub open spec fn invalid_event_detail(event: Seq<char>) -> Seq<char> {
    "Invalid event type '"@ + event
        + "'. Valid types: [\"start\", \"stop\", \"crash\", \"restart\", \"memory_limit\", \"health_check\"]"@
}

/// The index of the first name in `events` that is no event type, or the
/// length of `events`.
pub open spec fn first_invalid_event(events: Seq<Seq<char>>) -> int
    decreases events.len(),
{
    if events.len() == 0 {
        0
    } else if !is_event_type(events[0]) {
        0
    } else {
        1 + first_invalid_event(events.drop_first())
    }
}

/// Whether an event passes the filter `events`: an empty filter passes all.
pub open spec fn passes_filter(events: Seq<Seq<char>>, e: ProcessEventView) -> bool {
    events.len() == 0 || events.contains(event_type_name(e))
}

pub proof fn lemma_first_invalid_event(events: Seq<Seq<char>>, i: int)
    requires
        0 <= i <= events.len(),
        forall|j: int| 0 <= j < i ==> is_event_type(events[j]),
        i < events.len() ==> !is_event_type(events[i]),
    ensures
        first_invalid_event(events) == i,
    decreases i,
{
    if i > 0 {
        let rest = events.drop_first();
        assert forall|j: int| 0 <= j < i - 1 implies is_event_type(rest[j]) by {
            assert(rest[j] == events[j + 1]);
        }
        lemma_first_invalid_event(rest, i - 1);
    }
}

impl Default for NotifyConfig {
    fn default() -> (r: NotifyConfig)
        ensures
            r.telegram is None,
            r.events@.len() == 0,
    {
        NotifyConfig { telegram: None, events: Vec::new() }
    }
}

impl NotifyConfig {
    /// Whether a notification channel is configured.
    pub fn is_configured(&self) -> (r: bool)
        ensures
            r == self.telegram is Some,
    {
        self.telegram.is_some()
    }

    /// Sets the Telegram channel.
    pub fn set_telegram(&mut self, bot_token: String, chat_id: String)
        ensures
            final(self).telegram matches Some(t) && t.bot_token@ == bot_token@ && t.chat_id@
                == chat_id@,
            final(self).events == old(self).events,
    {
        self.telegram = Some(TelegramConfig { bot_token, chat_id });
    }

    /// Removes the Telegram channel.
    pub fn remove_telegram(&mut self)
        ensures
            final(self).telegram is None,
            final(self).events == old(self).events,
    {
        self.telegram = None;
    }

    /// Sets the event filter.
    pub fn set_events(&mut self, events: Vec<String>)
        ensures
            final(self).events == events,
            final(self).telegram == old(self).telegram,
    {
        self.events = events;
    }

    /// Accepts the filter if every name in it is an event type; otherwise a
    /// `ConfigError` that names the first one that is not.
    pub fn validate_events(&self) -> (r: Result<(), NotifyError>)
        ensures
            ({
                let names = texts(self.events@);
                let i = first_invalid_event(names);
                if i >= names.len() {
                    r is Ok
                } else {
                    r matches Err(NotifyError::ConfigError(d)) && d@ == invalid_event_detail(
                        names[i],
                    )
                }
            }),
    {
        let mut i: usize = 0;
        while i < self.events.len()
            invariant
                i <= self.events.len(),
                forall|j: int| 0 <= j < i ==> is_event_type(texts(self.events@)[j]),
            decreases self.events.len() - i,
        {
            let e = self.events[i].as_str();
            let ok = same_text(e, "start") || same_text(e, "stop") || same_text(e, "crash")
                || same_text(e, "restart") || same_text(e, "memory_limit") || same_text(
                e,
                "health_check",
            );
            if !ok {
                proof {
                    assert(texts(self.events@)[i as int] == e@);
                    lemma_first_invalid_event(texts(self.events@), i as int);
                }
                let mut d = copy_text("Invalid event type '");
                d.append(e);
                d.append(
                    "'. Valid types: [\"start\", \"stop\", \"crash\", \"restart\", \"memory_limit\", \"health_check\"]",
                );
                assert(d@ =~= invalid_event_detail(e@));
                return Err(NotifyError::ConfigError(d));
            }
            assert(texts(self.events@)[i as int] == e@);
            i = i + 1;
        }
        proof {
            lemma_first_invalid_event(texts(self.events@), i as int);
        }
        Ok(())
    }

    /// Whether `event` is to be sent out under this configuration's filter.
    pub fn should_notify(&self, event: &ProcessEvent) -> (r: bool)
        ensures
            r == passes_filter(texts(self.events@), event@),
    {
        if self.events.len() == 0 {
            return true;
        }
        contains_string(&self.events, event.event_type())
    }
}

/// The notification channels of a daemon: what is configured, and which
/// events pass.
#[derive(Debug)]
pub struct NotificationManager {
    pub config: NotifyConfig,
}

impl NotificationManager {
    pub fn new(config: NotifyConfig) -> (r: NotificationManager)
        ensures
            r.config == config,
    {
        NotificationManager { config }
    }

    /// Whether a channel is configured with both a token and a chat id.
    pub fn is_configured(&self) -> (r: bool)
        ensures
            r == (self.config.telegram matches Some(t) && t.bot_token@.len() > 0 && t.chat_id@.len()
                > 0),
    {
        match &self.config.telegram {
            Some(t) => t.is_configured(),
            None => false,
        }
    }

    /// Whether `event` is to be sent out.
    pub fn should_notify(&self, event: &ProcessEvent) -> (r: bool)
        ensures
            r == passes_filter(texts(self.config.events@), event@),
    {
        self.config.should_notify(event)
    }
}

/// A message as the Telegram call that sends one takes it.
#[derive(Debug)]
pub struct SendMessageRequest {
    pub chat_id: String,
    pub text: String,
    pub parse_mode: String,
}

/// What Telegram answered to a call.
#[derive(Debug)]
pub struct TelegramResponse {
    pub ok: bool,
    pub description: Option<String>,
}

/// The error that an answer of Telegram stands for, if it stands for one:
/// the description that Telegram gave, or the HTTP status where it gave
/// none.
pub open spec fn telegram_refusal(status: Seq<char>, body: TelegramResponse) -> Option<Seq<char>> {
    if body.ok {
        None
    } else {
        match body.description {
            Some(d) => Some(d@),
            None => Some("HTTP "@ + status),
        }
    }
}

impl TelegramConfig {
    /// The call that sends `text` to the configured chat, as Markdown.
    /// `NotConfigured` without a token or without a chat id.
    pub fn send_request(&self, text: &str) -> (r: Result<SendMessageRequest, NotifyError>)
        ensures
            self.bot_token@.len() > 0 && self.chat_id@.len() > 0 ==> (r matches Ok(m) && m.chat_id@
                == self.chat_id@ && m.text@ == text@ && m.parse_mode@ == "Markdown"@),
            !(self.bot_token@.len() > 0 && self.chat_id@.len() > 0) ==> r == Err::<
                SendMessageRequest,
                NotifyError,
            >(NotifyError::NotConfigured),
    {
        if !self.is_configured() {
            return Err(NotifyError::NotConfigured);
        }
        Ok(
            SendMessageRequest {
                chat_id: self.chat_id.clone(),
                text: copy_text(text),
                parse_mode: copy_text("Markdown"),
            },
        )
    }

    /// What the answer of Telegram to a call comes to, where `status` is
    /// the HTTP status of the answer.
    pub fn check_response(status: &str, body: &TelegramResponse) -> (r: Result<(), NotifyError>)
        ensures
            match telegram_refusal(status@, *body) {
                None => r is Ok,
                Some(d) => r matches Err(NotifyError::TelegramError(e)) && e@ == d,
            },
    {
        if body.ok {
            return Ok(());
        }
        match &body.description {
            Some(d) => Err(NotifyError::TelegramError(d.clone())),
            None => {
                let mut m = copy_text("HTTP ");
                m.append(status);
                Err(NotifyError::TelegramError(m))
            },
        }
    }
}

/// The path of the notification config, for a given user home: the file
/// `notify.toml` in `.oxidepm` under the home, or under `.` when no home is
/// known.
pub open spec fn notify_path_under(user_home: Option<Seq<char>>) -> Seq<char> {
    crate::constants::join_path(
        crate::constants::join_path(
            match user_home {
                Some(h) => h,
                None => "."@,
            },
            ".oxidepm"@,
        ),
        "notify.toml"@,
    )
}

/// The path of the notification config for a given user home.
pub fn notify_config_path_in(user_home: &Option<String>) -> (r: String)
    ensures
        r@ == notify_path_under(crate::text::opt_text(*user_home)),
{
    let base = match user_home {
        Some(h) => h.clone(),
        None => copy_text("."),
    };
    let dir = crate::constants::join(base.as_str(), ".oxidepm");
    crate::constants::join(dir.as_str(), "notify.toml")
}

/// The path of the notification config.
pub fn notify_config_path() -> (r: String)
    ensures
        exists|h: Option<Seq<char>>| r@ == notify_path_under(h),
{
    let home = crate::constants::user_home_dir();
    let r = notify_config_path_in(&home);
    assert(r@ == notify_path_under(crate::text::opt_text(home)));
    r
}

} // verus!
