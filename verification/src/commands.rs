//! What the command line makes of the daemon's answers: what it prints, and
//! whether the command failed.

use crate::appspec::{env_lookup, pairs, AppInfo};
use crate::check::{
    count_status, result_views, status_prefix, CheckResult, CheckResultView, CheckStatus,
    PortCheckResult, PreflightSummary,
};
use crate::cli::{Commands, StartupTarget};
use crate::config::{extension_of, format_of_extension, ConfigFormat};
use crate::handlers::{sort_texts, sorted_form};
use crate::ipc::Response;
use crate::notify::{
    first_invalid_event, invalid_event_detail, notify_error_detail, notify_error_prefix,
    NotifyConfig, NotifyError, ProcessEvent,
};
use crate::text::{
    chars_of, contains_text, copy_text, decimal, find_text, join_texts, joined, lower,
    lower_string, opt_text, push_decimal, same_text, split_on, string_of, texts, trim, trimmed,
};
use crate::watch::split_text;
use vstd::prelude::*;
use vstd::string::*;

verus! {

/// A command of the command line that asks the daemon.
#[derive(Debug, Clone, Copy, PartialEq, Eq, Structural)]
pub enum Command {
    Start,
    Stop,
    Restart,
    Delete,
    Status,
    Show,
    Logs,
    Ping,
    Save,
    Resurrect,
    Kill,
    Reload,
    Flush,
    Describe,
}

/// How a line is shown.
#[derive(Debug, Clone, Copy, PartialEq, Eq, Structural)]
pub enum Mark {
    Success,
    Error,
    Info,
    Plain,
}

/// One line that a command prints.
#[derive(Debug)]
pub struct Note {
    pub mark: Mark,
    pub text: String,
}

/// The mathematical value of [`Note`].
pub struct NoteView {
    pub mark: Mark,
    pub text: Seq<char>,
}

impl View for Note {
    type V = NoteView;

    open spec fn view(&self) -> NoteView {
        NoteView { mark: self.mark, text: self.text@ }
    }
}

/// The views of a list of notes, in order.
pub open spec fn note_views(v: Seq<Note>) -> Seq<NoteView> {
    v.map_values(|n: Note| n@)
}

/// What a command shows besides its notes.
#[derive(Debug)]
pub enum Body {
    Nothing,
    /// The status table of these applications.
    Table(Vec<AppInfo>),
    /// The details of this application.
    Detail(AppInfo),
    /// These log lines.
    Logs(Vec<String>),
}

/// What a command came to: what it prints, and the error with which it
/// fails, if it fails.
#[derive(Debug)]
pub struct Outcome {
    pub notes: Vec<Note>,
    pub body: Body,
    pub failure: Option<String>,
}

pub open spec fn success(text: Seq<char>) -> NoteView {
    NoteView { mark: Mark::Success, text }
}

pub open spec fn error(text: Seq<char>) -> NoteView {
    NoteView { mark: Mark::Error, text }
}

pub open spec fn info(text: Seq<char>) -> NoteView {
    NoteView { mark: Mark::Info, text }
}

pub open spec fn plain(text: Seq<char>) -> NoteView {
    NoteView { mark: Mark::Plain, text }
}

/// The note on a number of applications on which something was done.
pub open spec fn count_note(count: usize, done: Seq<char>, none: Seq<char>) -> NoteView {
    if count > 0 {
        success(done + " "@ + decimal(count as nat) + " process(es)"@)
    } else {
        success(none)
    }
}

/// The command and its arguments on one line.
pub open spec fn full_command(command: Seq<char>, args: Seq<Seq<char>>) -> Seq<char> {
    if args.len() == 0 {
        command
    } else {
        command + " "@ + joined(args, " "@)
    }
}

/// The lines that show one variable each.
pub open spec fn env_lines(keys: Seq<Seq<char>>, env: Seq<(Seq<char>, Seq<char>)>) -> Seq<NoteView> {
    Seq::new(
        keys.len(),
        |i: int|
            plain(
                "  "@ + keys[i] + "="@ + (match crate::appspec::env_get(env, keys[i]) {
                    Some(v) => v,
                    None => Seq::empty(),
                }),
            ),
    )
}

/// The lines that describe an application, where `keys` are the names of
/// its variables in the order in which they are shown.
pub open spec fn described_lines(
    name: Seq<char>,
    command: Seq<char>,
    args: Seq<Seq<char>>,
    cwd: Seq<char>,
    env: Seq<(Seq<char>, Seq<char>)>,
    mode: Seq<char>,
    keys: Seq<Seq<char>>,
) -> Seq<NoteView> {
    seq![
        plain("Process: "@ + name),
        plain("Mode: "@ + mode),
        plain("Working Directory: "@ + cwd),
        plain(""@),
        plain("Command: "@ + command),
    ] + (if args.len() > 0 {
        seq![plain("Arguments: "@ + joined(args, " "@))]
    } else {
        Seq::empty()
    }) + seq![plain(""@), plain("Full Command:"@), plain("  "@ + full_command(command, args))] + (
    if env.len() > 0 {
        seq![plain(""@), plain("Environment Variables:"@)] + env_lines(keys, env)
    } else {
        Seq::empty()
    })
}

/// The notes for the answer that a command waits for; `None` for any other
/// answer. A description is not among them: see [`described_lines`].
pub open spec fn awaited_notes(command: Command, response: Response) -> Option<Seq<NoteView>> {
    match (command, response) {
        (Command::Start, Response::Started { id, name }) => Some(
            seq![success("Started "@ + name@ + " (id: "@ + decimal(id as nat) + ")"@)],
        ),
        (Command::Stop, Response::Stopped { count }) => Some(
            seq![count_note(count, "Stopped"@, "No processes to stop"@)],
        ),
        (Command::Restart, Response::Restarted { count }) => Some(
            seq![count_note(count, "Restarted"@, "No processes to restart"@)],
        ),
        (Command::Delete, Response::Deleted { count }) => Some(
            seq![count_note(count, "Deleted"@, "No processes to delete"@)],
        ),
        (Command::Reload, Response::Reloaded { count }) => Some(
            seq![count_note(count, "Reloaded"@, "No processes to reload"@)],
        ),
        (Command::Flush, Response::Flushed { count }) => Some(
            if count == 0 {
                seq![error("No matching processes found"@)]
            } else {
                seq![
                    success("Flushed logs for "@ + decimal(count as nat) + " process(es)"@),
                ]
            },
        ),
        (Command::Status, Response::Status { .. }) => Some(Seq::empty()),
        (Command::Show, Response::Show { .. }) => Some(Seq::empty()),
        (Command::Logs, Response::LogLines { .. }) => Some(Seq::empty()),
        (Command::Ping, Response::Pong) => Some(seq![success("Daemon is alive"@)]),
        (Command::Save, Response::Saved { count, path }) => Some(
            seq![success("Saved "@ + decimal(count as nat) + " processes to "@ + path@)],
        ),
        (Command::Resurrect, Response::Resurrected { count }) => Some(
            if count > 0 {
                seq![success("Resurrected "@ + decimal(count as nat) + " processes"@)]
            } else {
                seq![info("No saved processes to resurrect"@)]
            },
        ),
        (Command::Kill, Response::Success { message }) => Some(seq![success(message@)]),
        _ => None,
    }
}

/// What a command shows besides its notes, for the daemon's answer.
pub open spec fn body_of(command: Command, answer: Result<Response, String>) -> Body {
    match (command, answer) {
        (Command::Status, Ok(Response::Status { apps })) => Body::Table(apps),
        (Command::Show, Ok(Response::Show { app })) => Body::Detail(app),
        (Command::Logs, Ok(Response::LogLines { lines })) => Body::Logs(lines),
        _ => Body::Nothing,
    }
}

/// Whether the answer is the one that the command waits for.
pub open spec fn awaited(command: Command, response: Response) -> bool {
    awaited_notes(command, response) is Some || (command == Command::Describe
        && response is Described)
}

/// The notes of a command whose answer is not the one it waits for, or
/// that got none: the daemon's error; a remark that the answer was not
/// expected; nothing where the request could not be sent. The command that
/// kills the daemon takes any answer but an error, and none at all, as done;
/// the ping reports a daemon that cannot be reached.
pub open spec fn other_notes(command: Command, answer: Result<Response, String>) -> Seq<NoteView> {
    match answer {
        Ok(Response::Error { message }) => seq![error(message@)],
        Ok(_) => if command == Command::Kill {
            seq![success("Daemon killed"@)]
        } else {
            seq![error("Unexpected response from daemon"@)]
        },
        Err(e) => if command == Command::Kill {
            if contains_text(e@, "DaemonNotRunning"@) {
                seq![success("Daemon is not running"@)]
            } else {
                seq![success("Daemon killed"@)]
            }
        } else if command == Command::Ping {
            seq![error("Daemon is not running: "@ + e@)]
        } else {
            Seq::empty()
        },
    }
}

/// The error with which a command fails: none if the answer is the one it
/// waits for; else the daemon's error, the reason why the request could not
/// be sent, or a remark that the answer was not expected. The command that
/// kills the daemon fails on the daemon's error alone.
pub open spec fn failure_of(command: Command, answer: Result<Response, String>) -> Option<Seq<char>> {
    match answer {
        Ok(response) => if awaited(command, response) {
            None
        } else {
            match response {
                Response::Error { message } => Some(message@),
                _ => if command == Command::Kill {
                    None
                } else {
                    Some("Unexpected response"@)
                },
            }
        },
        Err(e) => if command == Command::Kill {
            None
        } else if command == Command::Ping {
            Some("Daemon not running"@)
        } else {
            Some(e@)
        },
    }
}

/// The notes of a command for the daemon's answer.
pub open spec fn notes_ok(command: Command, answer: Result<Response, String>, notes: Seq<NoteView>) -> bool {
    match answer {
        Ok(Response::Described { name, command: program, args, cwd, env, mode }) => if command
            == Command::Describe {
            exists|keys: Seq<Seq<char>>| #[trigger]
                sorted_form(keys, key_texts(pairs(env@))) && notes
                    == described_lines(
                    name@,
                    program@,
                    texts(args@),
                    cwd@,
                    pairs(env@),
                    mode@,
                    keys,
                )
        } else {
            notes == other_notes(command, answer)
        },
        Ok(response) => match awaited_notes(command, response) {
            Some(n) => notes == n,
            None => notes == other_notes(command, answer),
        },
        Err(_) => notes == other_notes(command, answer),
    }
}

/// The names of the variables of `env`, in order.
pub open spec fn key_texts(env: Seq<(Seq<char>, Seq<char>)>) -> Seq<Seq<char>> {
    env.map_values(|p: (Seq<char>, Seq<char>)| p.0)
}

fn note(mark: Mark, text: String) -> (r: Note)
    ensures
        r@ == (NoteView { mark, text: text@ }),
{
    Note { mark, text }
}

fn one(n: Note) -> (r: Vec<Note>)
    ensures
        note_views(r@) == seq![n@],
{
    let mut v: Vec<Note> = Vec::new();
    v.push(n);
    assert(note_views(v@) =~= seq![n@]);
    v
}

fn none() -> (r: Vec<Note>)
    ensures
        note_views(r@) == Seq::<NoteView>::empty(),
{
    let v: Vec<Note> = Vec::new();
    assert(note_views(v@) =~= Seq::<NoteView>::empty());
    v
}

fn counted(count: usize, done: &str, nothing: &str) -> (r: Note)
    ensures
        r@ == count_note(count, done@, nothing@),
{
    if count > 0 {
        let mut m = copy_text(done);
        m.append(" ");
        push_decimal(&mut m, count as u64);
        m.append(" process(es)");
        assert(m@ =~= done@ + " "@ + decimal(count as nat) + " process(es)"@);
        note(Mark::Success, m)
    } else {
        note(Mark::Success, copy_text(nothing))
    }
}

fn push_plain(notes: &mut Vec<Note>, text: String)
    ensures
        note_views(final(notes)@) == note_views(old(notes)@).push(plain(text@)),
{
    let ghost before = note_views(notes@);
    notes.push(note(Mark::Plain, text));
    assert(note_views(notes@) =~= before.push(plain(text@)));
}

fn labelled(label: &str, value: &str) -> (r: String)
    ensures
        r@ == label@ + value@,
{
    let mut m = copy_text(label);
    m.append(value);
    m
}

/// The names of the variables of `env`, in order.
fn keys_of(env: &Vec<(String, String)>) -> (r: Vec<String>)
    ensures
        texts(r@) == key_texts(pairs(env@)),
{
    let mut out: Vec<String> = Vec::new();
    let mut i: usize = 0;
    while i < env.len()
        invariant
            i <= env.len(),
            out.len() == i,
            forall|j: int| 0 <= j < i ==> out[j]@ == env[j].0@,
        decreases env.len() - i,
    {
        out.push(env[i].0.clone());
        i = i + 1;
    }
    assert(texts(out@) =~= key_texts(pairs(env@)));
    out
}

/// The lines that describe an application; its variables are shown in
/// the order of their names.
pub fn describe(
    name: &str,
    command: &str,
    args: &Vec<String>,
    cwd: &str,
    env: &Vec<(String, String)>,
    mode: &str,
) -> (r: Vec<Note>)
    ensures
        exists|keys: Seq<Seq<char>>| #[trigger]
            sorted_form(keys, key_texts(pairs(env@))) && note_views(r@) == described_lines(
                name@,
                command@,
                texts(args@),
                cwd@,
                pairs(env@),
                mode@,
                keys,
            ),
{
    let mut notes: Vec<Note> = Vec::new();
    assert(note_views(notes@) =~= Seq::<NoteView>::empty());
    push_plain(&mut notes, labelled("Process: ", name));
    push_plain(&mut notes, labelled("Mode: ", mode));
    push_plain(&mut notes, labelled("Working Directory: ", cwd));
    push_plain(&mut notes, copy_text(""));
    push_plain(&mut notes, labelled("Command: ", command));
    let all = join_texts(args, " ");
    if args.len() > 0 {
        push_plain(&mut notes, labelled("Arguments: ", all.as_str()));
    }
    push_plain(&mut notes, copy_text(""));
    push_plain(&mut notes, copy_text("Full Command:"));
    let mut full = copy_text("  ");
    full.append(command);
    if args.len() > 0 {
        full.append(" ");
        full.append(all.as_str());
    }
    assert(texts(args@).len() == args.len());
    assert(full@ =~= "  "@ + full_command(command@, texts(args@)));
    push_plain(&mut notes, full);
    let mut keys = keys_of(env);
    sort_texts(&mut keys);
    let ghost head = note_views(notes@);
    assert(pairs(env@).len() == env.len());
    if env.len() > 0 {
        push_plain(&mut notes, copy_text(""));
        push_plain(&mut notes, copy_text("Environment Variables:"));
        let ghost start = note_views(notes@);
        let mut i: usize = 0;
        assert(note_views(notes@) =~= start + env_lines(texts(keys@), pairs(env@)).subrange(0, 0));
        while i < keys.len()
            invariant
                i <= keys.len(),
                note_views(notes@) == start + env_lines(texts(keys@), pairs(env@)).subrange(
                    0,
                    i as int,
                ),
            decreases keys.len() - i,
        {
            let mut line = copy_text("  ");
            line.append(keys[i].as_str());
            line.append("=");
            match env_lookup(env, keys[i].as_str()) {
                Some(v) => {
                    line.append(v.as_str());
                },
                None => {},
            }
            let ghost lines = env_lines(texts(keys@), pairs(env@));
            assert(texts(keys@).len() == keys.len());
            assert(texts(keys@)[i as int] == keys[i as int]@);
            assert(plain(line@) == lines[i as int]) by {
                assert(line@ =~= "  "@ + keys[i as int]@ + "="@ + (match crate::appspec::env_get(
                    pairs(env@),
                    keys[i as int]@,
                ) {
                    Some(v) => v,
                    None => Seq::empty(),
                }));
            }
            push_plain(&mut notes, line);
            i = i + 1;
            assert(note_views(notes@) =~= start + lines.subrange(0, i as int));
        }
        assert(env_lines(texts(keys@), pairs(env@)).subrange(0, keys.len() as int) =~= env_lines(
            texts(keys@),
            pairs(env@),
        ));
    }
    assert(note_views(notes@) =~= described_lines(
        name@,
        command@,
        texts(args@),
        cwd@,
        pairs(env@),
        mode@,
        texts(keys@),
    ));
    notes
}

/// The notes for the answer that a command waits for.
fn awaited_of(command: Command, response: &Response) -> (r: Option<Vec<Note>>)
    ensures
        match awaited_notes(command, *response) {
            Some(n) => r matches Some(v) && note_views(v@) == n,
            None => r is None,
        },
{
    match (command, response) {
        (Command::Start, Response::Started { id, name }) => {
            let mut m = copy_text("Started ");
            m.append(name.as_str());
            m.append(" (id: ");
            push_decimal(&mut m, *id as u64);
            m.append(")");
            assert(m@ =~= "Started "@ + name@ + " (id: "@ + decimal(*id as nat) + ")"@);
            Some(one(note(Mark::Success, m)))
        },
        (Command::Stop, Response::Stopped { count }) => Some(
            one(counted(*count, "Stopped", "No processes to stop")),
        ),
        (Command::Restart, Response::Restarted { count }) => Some(
            one(counted(*count, "Restarted", "No processes to restart")),
        ),
        (Command::Delete, Response::Deleted { count }) => Some(
            one(counted(*count, "Deleted", "No processes to delete")),
        ),
        (Command::Reload, Response::Reloaded { count }) => Some(
            one(counted(*count, "Reloaded", "No processes to reload")),
        ),
        (Command::Flush, Response::Flushed { count }) => {
            if *count == 0 {
                Some(one(note(Mark::Error, copy_text("No matching processes found"))))
            } else {
                let mut m = copy_text("Flushed logs for ");
                push_decimal(&mut m, *count as u64);
                m.append(" process(es)");
                assert(m@ =~= "Flushed logs for "@ + decimal(*count as nat) + " process(es)"@);
                Some(one(note(Mark::Success, m)))
            }
        },
        (Command::Status, Response::Status { .. }) => Some(none()),
        (Command::Show, Response::Show { .. }) => Some(none()),
        (Command::Logs, Response::LogLines { .. }) => Some(none()),
        (Command::Ping, Response::Pong) => Some(
            one(note(Mark::Success, copy_text("Daemon is alive"))),
        ),
        (Command::Save, Response::Saved { count, path }) => {
            let mut m = copy_text("Saved ");
            push_decimal(&mut m, *count as u64);
            m.append(" processes to ");
            m.append(path.as_str());
            assert(m@ =~= "Saved "@ + decimal(*count as nat) + " processes to "@ + path@);
            Some(one(note(Mark::Success, m)))
        },
        (Command::Resurrect, Response::Resurrected { count }) => {
            if *count > 0 {
                let mut m = copy_text("Resurrected ");
                push_decimal(&mut m, *count as u64);
                m.append(" processes");
                assert(m@ =~= "Resurrected "@ + decimal(*count as nat) + " processes"@);
                Some(one(note(Mark::Success, m)))
            } else {
                Some(one(note(Mark::Info, copy_text("No saved processes to resurrect"))))
            }
        },
        (Command::Kill, Response::Success { message }) => Some(
            one(note(Mark::Success, message.clone())),
        ),
        _ => None,
    }
}

/// What the command line makes of the daemon's answer to a command, or of
/// the reason why the request could not be sent.
pub fn outcome(command: Command, answer: Result<Response, String>) -> (r: Outcome)
    ensures
        notes_ok(command, answer, note_views(r.notes@)),
        r.body == body_of(command, answer),
        opt_text(r.failure) == failure_of(command, answer),
{
    match answer {
        Err(e) => {
            match command {
                Command::Kill => {
                    let found = find_text(&chars_of(e.as_str()), &chars_of("DaemonNotRunning"));
                    let text = match found {
                        Some(_) => copy_text("Daemon is not running"),
                        None => copy_text("Daemon killed"),
                    };
                    Outcome {
                        notes: one(note(Mark::Success, text)),
                        body: Body::Nothing,
                        failure: None,
                    }
                },
                Command::Ping => {
                    let mut m = copy_text("Daemon is not running: ");
                    m.append(e.as_str());
                    Outcome {
                        notes: one(note(Mark::Error, m)),
                        body: Body::Nothing,
                        failure: Some(copy_text("Daemon not running")),
                    }
                },
                _ => Outcome { notes: none(), body: Body::Nothing, failure: Some(e) },
            }
        },
        Ok(response) => {
            match awaited_of(command, &response) {
                Some(notes) => {
                    let body = match (command, response) {
                        (Command::Status, Response::Status { apps }) => Body::Table(apps),
                        (Command::Show, Response::Show { app }) => Body::Detail(app),
                        (Command::Logs, Response::LogLines { lines }) => Body::Logs(lines),
                        _ => Body::Nothing,
                    };
                    Outcome { notes, body, failure: None }
                },
                None => match response {
                    Response::Described { name, command: program, args, cwd, env, mode } => {
                        if command == Command::Describe {
                            let notes = describe(
                                name.as_str(),
                                program.as_str(),
                                &args,
                                cwd.as_str(),
                                &env,
                                mode.as_str(),
                            );
                            Outcome { notes, body: Body::Nothing, failure: None }
                        } else if command == Command::Kill {
                            Outcome {
                                notes: one(note(Mark::Success, copy_text("Daemon killed"))),
                                body: Body::Nothing,
                                failure: None,
                            }
                        } else {
                            Outcome {
                                notes: one(
                                    note(Mark::Error, copy_text("Unexpected response from daemon")),
                                ),
                                body: Body::Nothing,
                                failure: Some(copy_text("Unexpected response")),
                            }
                        }
                    },
                    Response::Error { message } => {
                        let shown = message.clone();
                        Outcome {
                            notes: one(note(Mark::Error, shown)),
                            body: Body::Nothing,
                            failure: Some(message),
                        }
                    },
                    _ => {
                        if command == Command::Kill {
                            Outcome {
                                notes: one(note(Mark::Success, copy_text("Daemon killed"))),
                                body: Body::Nothing,
                                failure: None,
                            }
                        } else {
                            Outcome {
                                notes: one(
                                    note(Mark::Error, copy_text("Unexpected response from daemon")),
                                ),
                                body: Body::Nothing,
                                failure: Some(copy_text("Unexpected response")),
                            }
                        }
                    },
                },
            }
        },
    }
}

/// What the regex crate makes of `pattern` when it compiles it: nothing if
/// the pattern compiles; else the text of its error.
pub uninterp spec fn regex_error(pattern: Seq<char>) -> Option<Seq<char>>;

/// Whether the regex crate's expression `pattern` matches somewhere in
/// `text`.
pub uninterp spec fn regex_match(pattern: Seq<char>, text: Seq<char>) -> bool;

/// regex::Regex::new: the text of the error with which `pattern` fails to
/// compile, or nothing if it compiles.
#[verifier::external_body]
fn pattern_error(pattern: &str) -> (r: Option<String>)
    ensures
        opt_text(r) == regex_error(pattern@),
{
    match regex::Regex::new(pattern) {
        Ok(_) => None,
        Err(e) => Some(e.to_string()),
    }
}

/// regex::Regex::is_match, on the expression that regex::Regex::new
/// compiles from `pattern`: whether it matches somewhere in `line`. A
/// pattern that does not compile matches nothing.
#[verifier::external_body]
fn line_matches(pattern: &str, line: &str) -> (r: bool)
    ensures
        r == (regex_error(pattern@) is None && regex_match(pattern@, line@)),
{
    match regex::Regex::new(pattern) {
        Ok(re) => re.is_match(line),
        Err(_) => false,
    }
}

/// The lines among `lines` that the expression `pattern` matches, in
/// order.
pub open spec fn grep_kept(lines: Seq<Seq<char>>, pattern: Seq<char>) -> Seq<Seq<char>>
    decreases lines.len(),
{
    if lines.len() == 0 {
        Seq::empty()
    } else {
        let before = grep_kept(lines.drop_last(), pattern);
        if regex_match(pattern, lines.last()) {
            before.push(lines.last())
        } else {
            before
        }
    }
}

/// The detail of the error for a pattern that does not compile.
pub open spec fn grep_refusal(error: Seq<char>) -> Seq<char> {
    "Invalid regex pattern: "@ + error
}

/// What is left of `lines` under a filter: without a pattern, all of them;
/// with one that compiles, those that it matches; with one that does not,
/// an error.
pub open spec fn grep_ok(lines: Seq<Seq<char>>, pattern: Option<Seq<char>>, r: Result<
    Vec<String>,
    String,
>) -> bool {
    match pattern {
        None => r matches Ok(v) && texts(v@) == lines,
        Some(p) => match regex_error(p) {
            Some(e) => r matches Err(m) && m@ == grep_refusal(e),
            None => r matches Ok(v) && texts(v@) == grep_kept(lines, p),
        },
    }
}

/// Filters the lines of a log by `pattern`, if there is one.
pub fn grep_lines(lines: Vec<String>, pattern: Option<&str>) -> (r: Result<Vec<String>, String>)
    ensures
        grep_ok(texts(lines@), crate::types::opt_str_text(pattern), r),
{
    let p = match pattern {
        None => {
            return Ok(lines);
        },
        Some(p) => p,
    };
    match pattern_error(p) {
        Some(e) => {
            let mut m = copy_text("Invalid regex pattern: ");
            m.append(e.as_str());
            return Err(m);
        },
        None => {},
    }
    let mut out: Vec<String> = Vec::new();
    let mut i: usize = 0;
    assert(texts(lines@).subrange(0, 0) =~= Seq::<Seq<char>>::empty());
    assert(texts(out@) =~= Seq::<Seq<char>>::empty());
    while i < lines.len()
        invariant
            i <= lines.len(),
            regex_error(p@) is None,
            texts(out@) == grep_kept(texts(lines@).subrange(0, i as int), p@),
        decreases lines.len() - i,
    {
        proof {
            let next = texts(lines@).subrange(0, i + 1);
            assert(next.drop_last() =~= texts(lines@).subrange(0, i as int));
            assert(next.last() == lines[i as int]@);
        }
        if line_matches(p, lines[i].as_str()) {
            let ghost before = texts(out@);
            out.push(lines[i].clone());
            assert(texts(out@) =~= before.push(lines[i as int]@));
        }
        i = i + 1;
    }
    assert(texts(lines@).subrange(0, lines.len() as int) =~= texts(lines@));
    Ok(out)
}

/// A change of the notification settings: what is printed first; whether
/// the settings are then saved, and what is printed once they are; or the
/// error with which the command fails after the first notes.
#[derive(Debug)]
pub struct SettingsPlan {
    pub first: Vec<Note>,
    pub save: bool,
    pub after: Vec<Note>,
    pub failure: Option<String>,
}

/// The mathematical value of [`SettingsPlan`].
pub struct SettingsPlanView {
    pub first: Seq<NoteView>,
    pub save: bool,
    pub after: Seq<NoteView>,
    pub failure: Option<Seq<char>>,
}

impl View for SettingsPlan {
    type V = SettingsPlanView;

    open spec fn view(&self) -> SettingsPlanView {
        SettingsPlanView {
            first: note_views(self.first@),
            save: self.save,
            after: note_views(self.after@),
            failure: opt_text(self.failure),
        }
    }
}

/// The parts of `parts` that are not blank, each without the white space
/// around it.
pub open spec fn trimmed_parts(parts: Seq<Seq<char>>) -> Seq<Seq<char>>
    decreases parts.len(),
{
    if parts.len() == 0 {
        Seq::empty()
    } else {
        let before = trimmed_parts(parts.drop_last());
        let t = trim(parts.last());
        if t.len() > 0 {
            before.push(t)
        } else {
            before
        }
    }
}

/// The event names in a list written with commas.
pub open spec fn event_names(s: Seq<char>) -> Seq<Seq<char>> {
    trimmed_parts(split_on(s, ','))
}

/// The event names in a list written with commas: the parts between the
/// commas, without the white space around them, blank parts left out.
pub fn parse_events(s: &str) -> (r: Vec<String>)
    ensures
        texts(r@) == event_names(s@),
{
    let parts = split_text(s, ',');
    let mut out: Vec<String> = Vec::new();
    let mut i: usize = 0;
    assert(texts(parts@).subrange(0, 0) =~= Seq::<Seq<char>>::empty());
    assert(texts(out@) =~= Seq::<Seq<char>>::empty());
    while i < parts.len()
        invariant
            i <= parts.len(),
            texts(out@) == trimmed_parts(texts(parts@).subrange(0, i as int)),
        decreases parts.len() - i,
    {
        proof {
            let next = texts(parts@).subrange(0, i + 1);
            assert(next.drop_last() =~= texts(parts@).subrange(0, i as int));
            assert(next.last() == parts[i as int]@);
        }
        let t = trimmed(parts[i].as_str());
        if !t.as_str().is_empty() {
            let ghost before = texts(out@);
            out.push(t);
            assert(texts(out@) =~= before.push(t@));
        }
        i = i + 1;
    }
    assert(texts(parts@).subrange(0, parts.len() as int) =~= texts(parts@));
    out
}

/// The plan for setting the Telegram channel, where the settings are kept
/// at `path`.
pub open spec fn telegram_set(path: Seq<char>) -> SettingsPlanView {
    SettingsPlanView {
        first: Seq::empty(),
        save: true,
        after: seq![
            success("Telegram notifications configured successfully"@),
            info("Config saved to: "@ + path),
        ],
        failure: None,
    }
}

/// Sets the Telegram channel in `config`, and says what is to be printed
/// around saving it at `path`.
pub fn configure_telegram(config: &mut NotifyConfig, token: String, chat: String, path: &str) -> (r:
    SettingsPlan)
    ensures
        r@ == telegram_set(path@),
        final(config).telegram matches Some(t) && t.bot_token@ == token@ && t.chat_id@ == chat@,
        final(config).events == old(config).events,
{
    config.set_telegram(token, chat);
    let mut after: Vec<Note> = Vec::new();
    after.push(note(Mark::Success, copy_text("Telegram notifications configured successfully")));
    let mut m = copy_text("Config saved to: ");
    m.append(path);
    after.push(note(Mark::Info, m));
    assert(note_views(after@) =~= telegram_set(path@).after);
    SettingsPlan { first: none(), save: true, after, failure: None }
}

/// Whether `channel` names the Telegram channel, in any case of letters.
pub open spec fn is_telegram(channel: Seq<char>) -> bool {
    lower(channel) == "telegram"@
}

/// The plan for removing the channel `channel`: only the Telegram channel
/// is known.
pub open spec fn channel_removed(channel: Seq<char>) -> SettingsPlanView {
    if is_telegram(channel) {
        SettingsPlanView {
            first: Seq::empty(),
            save: true,
            after: seq![success("Telegram notifications removed"@)],
            failure: None,
        }
    } else {
        SettingsPlanView {
            first: seq![error("Unknown notification channel: "@ + channel)],
            save: false,
            after: Seq::empty(),
            failure: Some("Unknown channel: "@ + channel),
        }
    }
}

/// Removes the channel `channel` from `config`, if it is known, and says
/// what is to be printed around saving the settings.
pub fn remove_channel(config: &mut NotifyConfig, channel: &str) -> (r: SettingsPlan)
    ensures
        r@ == channel_removed(channel@),
        is_telegram(channel@) ==> final(config).telegram is None,
        !is_telegram(channel@) ==> final(config).telegram == old(config).telegram,
        final(config).events == old(config).events,
{
    let low = lower_string(channel);
    if same_text(low.as_str(), "telegram") {
        config.remove_telegram();
        SettingsPlan {
            first: none(),
            save: true,
            after: one(note(Mark::Success, copy_text("Telegram notifications removed"))),
            failure: None,
        }
    } else {
        let mut shown = copy_text("Unknown notification channel: ");
        shown.append(channel);
        let mut failure = copy_text("Unknown channel: ");
        failure.append(channel);
        SettingsPlan {
            first: one(note(Mark::Error, shown)),
            save: false,
            after: none(),
            failure: Some(failure),
        }
    }
}

/// The note that the filter is being cleared, for an empty list of names.
pub open spec fn clearing_note(names: Seq<Seq<char>>) -> Seq<NoteView> {
    if names.len() == 0 {
        seq![info("Clearing event filter (will notify on all events)"@)]
    } else {
        Seq::empty()
    }
}

/// The text of the error for the first name in `names` that is no event
/// type.
pub open spec fn events_refusal(names: Seq<Seq<char>>) -> Seq<char> {
    "Configuration error: "@ + invalid_event_detail(names[first_invalid_event(names)])
}

/// The plan for setting the event filter to `names`: refused with the
/// first name that is no event type; else saved.
pub open spec fn events_set(names: Seq<Seq<char>>) -> SettingsPlanView {
    if first_invalid_event(names) < names.len() {
        SettingsPlanView {
            first: clearing_note(names) + seq![error(events_refusal(names))],
            save: false,
            after: Seq::empty(),
            failure: Some(events_refusal(names)),
        }
    } else {
        SettingsPlanView {
            first: clearing_note(names),
            save: true,
            after: if names.len() == 0 {
                seq![success("Event filter cleared - will notify on all events"@)]
            } else {
                seq![success("Events set to: "@ + joined(names, ", "@))]
            },
            failure: None,
        }
    }
}

/// Sets the event filter of `config` to the names listed in `list`, and
/// says what is to be printed around saving the settings.
pub fn set_events(config: &mut NotifyConfig, list: &str) -> (r: SettingsPlan)
    ensures
        r@ == events_set(event_names(list@)),
        texts(final(config).events@) == event_names(list@),
        final(config).telegram == old(config).telegram,
{
    let events = parse_events(list);
    let mut first: Vec<Note> = none();
    if events.len() == 0 {
        first = one(note(Mark::Info, copy_text("Clearing event filter (will notify on all events)")));
    }
    assert(texts(events@).len() == events.len());
    let shown = join_texts(&events, ", ");
    let cleared = events.len() == 0;
    config.set_events(events);
    match config.validate_events() {
        Err(e) => {
            let text = e.to_string();
            let ghost before = note_views(first@);
            first.push(note(Mark::Error, text.clone()));
            assert(note_views(first@) =~= before.push(error(text@)));
            assert(text@ =~= events_refusal(event_names(list@)));
            let r = SettingsPlan { first, save: false, after: none(), failure: Some(text) };
            assert(r@.first =~= events_set(event_names(list@)).first);
            r
        },
        Ok(_) => {
            let after = if cleared {
                one(
                    note(
                        Mark::Success,
                        copy_text("Event filter cleared - will notify on all events"),
                    ),
                )
            } else {
                let mut m = copy_text("Events set to: ");
                m.append(shown.as_str());
                one(note(Mark::Success, m))
            };
            SettingsPlan { first, save: true, after, failure: None }
        },
    }
}

/// A token with its middle left out: its first 8 characters, three dots,
/// and its last 4 characters; of a shorter token, as many as there are.
pub open spec fn token_hint(token: Seq<char>) -> Seq<char> {
    let head = if token.len() < 8 {
        token.len() as int
    } else {
        8
    };
    let tail = if token.len() < 4 {
        0
    } else {
        token.len() - 4
    };
    token.subrange(0, head) + "..."@ + token.subrange(tail, token.len() as int)
}

/// A token with its middle left out.
pub fn hint_of(token: &str) -> (r: String)
    ensures
        r@ == token_hint(token@),
{
    let v = chars_of(token);
    let head: usize = if v.len() < 8 {
        v.len()
    } else {
        8
    };
    let tail: usize = if v.len() < 4 {
        0
    } else {
        v.len() - 4
    };
    let mut out = string_of(&v, 0, head);
    out.append("...");
    let last = string_of(&v, tail, v.len());
    out.append(last.as_str());
    assert(out@ =~= token_hint(token@));
    out
}

/// The forty signs under the heading of the settings.
pub open spec fn rule() -> Seq<char> {
    "========================================"@
}

/// The lines that show the notification settings kept at `path`.
pub open spec fn settings_lines(config: NotifyConfig, path: Seq<char>) -> Seq<NoteView> {
    seq![plain(""@), plain("Notification Configuration"@), plain(rule())] + (match config.telegram {
        Some(t) => seq![
            plain("Telegram: configured"@),
            plain("  Chat ID: "@ + t.chat_id@),
            plain("  Bot Token: "@ + token_hint(t.bot_token@)),
        ],
        None => seq![plain("Telegram: not configured"@)],
    }) + seq![
        plain(""@),
        if config.events@.len() == 0 {
            plain("Events: all (no filter)"@)
        } else {
            plain("Events: "@ + joined(texts(config.events@), ", "@))
        },
        plain(""@),
        plain("Config file: "@ + path),
    ]
}

/// The lines that show the notification settings.
pub fn show_status(config: &NotifyConfig, path: &str) -> (r: Vec<Note>)
    ensures
        note_views(r@) == settings_lines(*config, path@),
{
    let mut notes: Vec<Note> = Vec::new();
    assert(note_views(notes@) =~= Seq::<NoteView>::empty());
    push_plain(&mut notes, copy_text(""));
    push_plain(&mut notes, copy_text("Notification Configuration"));
    push_plain(&mut notes, copy_text("========================================"));
    match &config.telegram {
        Some(t) => {
            push_plain(&mut notes, copy_text("Telegram: configured"));
            push_plain(&mut notes, labelled("  Chat ID: ", t.chat_id.as_str()));
            let hint = hint_of(t.bot_token.as_str());
            push_plain(&mut notes, labelled("  Bot Token: ", hint.as_str()));
        },
        None => {
            push_plain(&mut notes, copy_text("Telegram: not configured"));
        },
    }
    push_plain(&mut notes, copy_text(""));
    if config.events.len() == 0 {
        push_plain(&mut notes, copy_text("Events: all (no filter)"));
    } else {
        let all = join_texts(&config.events, ", ");
        push_plain(&mut notes, labelled("Events: ", all.as_str()));
    }
    push_plain(&mut notes, copy_text(""));
    push_plain(&mut notes, labelled("Config file: ", path));
    assert(note_views(notes@) =~= settings_lines(*config, path@));
    notes
}

/// The plan for a test of the notifications: refused without a channel.
pub open spec fn test_begun(configured: bool) -> SettingsPlanView {
    if configured {
        SettingsPlanView {
            first: seq![info("Sending test notification..."@)],
            save: false,
            after: Seq::empty(),
            failure: None,
        }
    } else {
        SettingsPlanView {
            first: seq![
                error("No notification channels configured"@),
                info(
                    "Run 'oxidepm notify telegram --token <TOKEN> --chat <CHAT_ID>' to configure"@,
                ),
            ],
            save: false,
            after: Seq::empty(),
            failure: Some("Not configured"@),
        }
    }
}

/// What is printed before a test notification is sent, or why none is
/// sent.
pub fn begin_test(config: &NotifyConfig) -> (r: SettingsPlan)
    ensures
        r@ == test_begun(config.telegram is Some),
{
    if config.is_configured() {
        SettingsPlan {
            first: one(note(Mark::Info, copy_text("Sending test notification..."))),
            save: false,
            after: none(),
            failure: None,
        }
    } else {
        let mut first: Vec<Note> = Vec::new();
        first.push(note(Mark::Error, copy_text("No notification channels configured")));
        first.push(
            note(
                Mark::Info,
                copy_text(
                    "Run 'oxidepm notify telegram --token <TOKEN> --chat <CHAT_ID>' to configure",
                ),
            ),
        );
        assert(note_views(first@) =~= test_begun(false).first);
        SettingsPlan { first, save: false, after: none(), failure: Some(copy_text("Not configured")) }
    }
}

/// The event that a test notification reports.
pub fn test_event() -> (r: ProcessEvent)
    ensures
        r matches ProcessEvent::Started { name, id } && name@ == "test-process"@ && id == 0,
{
    ProcessEvent::Started { name: copy_text("test-process"), id: 0 }
}

/// The text of a notification error.
pub open spec fn notify_error_text(e: NotifyError) -> Seq<char> {
    notify_error_prefix(e) + notify_error_detail(e)
}

/// The note on how sending the test notification went.
pub open spec fn test_note(result: Result<(), NotifyError>) -> NoteView {
    match result {
        Ok(_) => success("Test notification sent successfully!"@),
        Err(e) => error("Failed to send test notification: "@ + notify_error_text(e)),
    }
}

/// The error with which the test fails, if sending failed.
pub open spec fn test_failure(result: Result<(), NotifyError>) -> Option<Seq<char>> {
    match result {
        Ok(_) => None,
        Err(e) => Some("Test notification failed: "@ + notify_error_text(e)),
    }
}

/// What the test of the notifications came to.
pub fn finish_test(result: &Result<(), NotifyError>) -> (r: (Note, Option<String>))
    ensures
        r.0@ == test_note(*result),
        opt_text(r.1) == test_failure(*result),
{
    match result {
        Ok(_) => (note(Mark::Success, copy_text("Test notification sent successfully!")), None),
        Err(e) => {
            let text = e.to_string();
            let mut failure = copy_text("Test notification failed: ");
            failure.append(text.as_str());
            (
                note(Mark::Error, labelled("Failed to send test notification: ", text.as_str())),
                Some(failure),
            )
        },
    }
}

/// The lines that report one check: its status and message, and under a
/// warning or an error the hint, if there is one.
pub open spec fn result_lines(r: CheckResultView) -> Seq<NoteView> {
    seq![plain(status_prefix(r.status) + " "@ + r.message)] + (match r.fix_hint {
        Some(h) => if r.status == CheckStatus::Warn || r.status == CheckStatus::Error {
            seq![plain("       "@ + h)]
        } else {
            Seq::empty()
        },
        None => Seq::empty(),
    })
}

/// The lines that report the checks `rs`, in order.
pub open spec fn report_lines(rs: Seq<CheckResultView>) -> Seq<NoteView>
    decreases rs.len(),
{
    if rs.len() == 0 {
        Seq::empty()
    } else {
        report_lines(rs.drop_last()) + result_lines(rs.last())
    }
}

/// The advice to let the checks mend what they can, unless they were
/// asked to.
pub open spec fn fix_advice(fix: bool) -> Seq<NoteView> {
    if fix {
        Seq::empty()
    } else {
        seq![plain("Run with --fix to auto-resolve"@)]
    }
}

/// The lines that sum the checks up.
pub open spec fn verdict_lines(errors: nat, warnings: nat, fix: bool) -> Seq<NoteView> {
    if errors > 0 {
        seq![
            plain(
                "Issues: "@ + decimal(errors) + " error(s), "@ + decimal(warnings)
                    + " warning(s)"@,
            ),
        ] + fix_advice(fix)
    } else if warnings > 0 {
        seq![plain("Issues: "@ + decimal(warnings) + " warning(s)"@)] + fix_advice(fix)
    } else {
        seq![plain("All checks passed!"@)]
    }
}

/// The report of the checks of a project: one or two lines for each check,
/// an empty line, and the sum.
pub open spec fn check_lines(rs: Seq<CheckResultView>, fix: bool) -> Seq<NoteView> {
    report_lines(rs) + seq![plain(""@)] + verdict_lines(
        count_status(rs, CheckStatus::Error),
        count_status(rs, CheckStatus::Warn),
        fix,
    )
}

/// The number of results with the status `status`.
pub fn count_with_status(results: &Vec<CheckResult>, status: CheckStatus) -> (r: usize)
    ensures
        r == count_status(result_views(results@), status),
{
    let mut n: usize = 0;
    let mut i: usize = 0;
    assert(result_views(results@).subrange(0, 0) =~= Seq::<CheckResultView>::empty());
    while i < results.len()
        invariant
            i <= results.len(),
            n <= i,
            n == count_status(result_views(results@).subrange(0, i as int), status),
        decreases results.len() - i,
    {
        proof {
            let next = result_views(results@).subrange(0, i + 1);
            assert(next.drop_last() =~= result_views(results@).subrange(0, i as int));
            assert(next.last() == results[i as int]@);
        }
        if results[i].status == status {
            n = n + 1;
        }
        i = i + 1;
    }
    assert(result_views(results@).subrange(0, results.len() as int) =~= result_views(results@));
    n
}

fn push_all(notes: &mut Vec<Note>, more: Vec<Note>)
    ensures
        note_views(final(notes)@) == note_views(old(notes)@) + note_views(more@),
{
    let ghost before = note_views(notes@);
    let mut more = more;
    let ghost added = note_views(more@);
    notes.append(&mut more);
    assert(note_views(notes@) =~= before + added);
}

/// The report of the checks of a project.
pub fn check_report(results: &Vec<CheckResult>, fix: bool) -> (r: Vec<Note>)
    ensures
        note_views(r@) == check_lines(result_views(results@), fix),
{
    let mut notes: Vec<Note> = Vec::new();
    let mut i: usize = 0;
    assert(result_views(results@).subrange(0, 0) =~= Seq::<CheckResultView>::empty());
    assert(note_views(notes@) =~= Seq::<NoteView>::empty());
    while i < results.len()
        invariant
            i <= results.len(),
            note_views(notes@) == report_lines(result_views(results@).subrange(0, i as int)),
        decreases results.len() - i,
    {
        proof {
            let next = result_views(results@).subrange(0, i + 1);
            assert(next.drop_last() =~= result_views(results@).subrange(0, i as int));
            assert(next.last() == results[i as int]@);
        }
        let ghost before = note_views(notes@);
        let result = &results[i];
        let mut line = result.status.prefix();
        line.append(" ");
        line.append(result.message.as_str());
        push_plain(&mut notes, line);
        match &result.fix_hint {
            Some(h) => {
                if result.status == CheckStatus::Warn || result.status == CheckStatus::Error {
                    push_plain(&mut notes, labelled("       ", h.as_str()));
                }
            },
            None => {},
        }
        assert(note_views(notes@) =~= before + result_lines(results[i as int]@));
        i = i + 1;
    }
    assert(result_views(results@).subrange(0, results.len() as int) =~= result_views(results@));
    let ghost listed = note_views(notes@);
    push_plain(&mut notes, copy_text(""));
    let errors = count_with_status(results, CheckStatus::Error);
    let warnings = count_with_status(results, CheckStatus::Warn);
    if errors > 0 {
        let mut m = copy_text("Issues: ");
        push_decimal(&mut m, errors as u64);
        m.append(" error(s), ");
        push_decimal(&mut m, warnings as u64);
        m.append(" warning(s)");
        assert(m@ =~= "Issues: "@ + decimal(errors as nat) + " error(s), "@ + decimal(
            warnings as nat,
        ) + " warning(s)"@);
        push_plain(&mut notes, m);
        if !fix {
            push_plain(&mut notes, copy_text("Run with --fix to auto-resolve"));
        }
    } else if warnings > 0 {
        let mut m = copy_text("Issues: ");
        push_decimal(&mut m, warnings as u64);
        m.append(" warning(s)");
        assert(m@ =~= "Issues: "@ + decimal(warnings as nat) + " warning(s)"@);
        push_plain(&mut notes, m);
        if !fix {
            push_plain(&mut notes, copy_text("Run with --fix to auto-resolve"));
        }
    } else {
        push_plain(&mut notes, copy_text("All checks passed!"));
    }
    assert(note_views(notes@) =~= check_lines(result_views(results@), fix));
    notes
}

/// How a start goes on from its target.
#[derive(Debug, Clone, Copy, PartialEq, Eq, Structural)]
pub enum StartRoute {
    /// The target is a config file: every application in it is started.
    ConfigFile,
    /// The target is one application.
    Single,
}

/// A file with the extension of a config format is a config file.
pub open spec fn route_of(target: Seq<char>, is_file: bool) -> StartRoute {
    if is_file && (match extension_of(target) {
        Some(e) => format_of_extension(e) is Some,
        None => false,
    }) {
        StartRoute::ConfigFile
    } else {
        StartRoute::Single
    }
}

/// How a start goes on from `target`, where `is_file` says whether it is
/// a file on disk.
pub fn start_route(target: &str, is_file: bool) -> (r: StartRoute)
    ensures
        r == route_of(target@, is_file),
{
    if is_file && ConfigFormat::from_path(target).is_some() {
        StartRoute::ConfigFile
    } else {
        StartRoute::Single
    }
}

/// What the preflight checks let a start do.
#[derive(Debug, Clone, Copy, PartialEq, Eq, Structural)]
pub enum Gate {
    /// Nothing was found: go on.
    Proceed,
    /// Something was found, and setting up was not asked for: refuse.
    Refuse,
    /// Something was found and mended as far as it could be: check again.
    Recheck,
}

/// What checks with `warnings` warnings and `errors` errors let a start
/// do.
pub open spec fn gate_of(warnings: nat, errors: nat, setup: bool) -> Gate {
    if warnings == 0 && errors == 0 {
        Gate::Proceed
    } else if setup {
        Gate::Recheck
    } else {
        Gate::Refuse
    }
}

/// What the preflight checks let a start do.
pub fn preflight_gate(summary: &PreflightSummary, setup: bool) -> (r: Gate)
    ensures
        r == gate_of(summary.warnings as nat, summary.errors as nat, setup),
{
    if summary.warnings == 0 && summary.errors == 0 {
        Gate::Proceed
    } else if setup {
        Gate::Recheck
    } else {
        Gate::Refuse
    }
}

/// One indented line for each of `rs` whose status is `a` or `b`: the
/// status, then the message.
pub open spec fn marked_lines(rs: Seq<CheckResultView>, a: CheckStatus, b: CheckStatus) -> Seq<
    NoteView,
>
    decreases rs.len(),
{
    if rs.len() == 0 {
        Seq::empty()
    } else {
        marked_lines(rs.drop_last(), a, b) + (if rs.last().status == a || rs.last().status == b {
            seq![plain("  "@ + status_prefix(rs.last().status) + " "@ + rs.last().message)]
        } else {
            Seq::empty()
        })
    }
}

fn marked(results: &Vec<CheckResult>, a: CheckStatus, b: CheckStatus) -> (r: Vec<Note>)
    ensures
        note_views(r@) == marked_lines(result_views(results@), a, b),
{
    let mut notes: Vec<Note> = Vec::new();
    let mut i: usize = 0;
    assert(result_views(results@).subrange(0, 0) =~= Seq::<CheckResultView>::empty());
    assert(note_views(notes@) =~= Seq::<NoteView>::empty());
    while i < results.len()
        invariant
            i <= results.len(),
            note_views(notes@) == marked_lines(
                result_views(results@).subrange(0, i as int),
                a,
                b,
            ),
        decreases results.len() - i,
    {
        proof {
            let next = result_views(results@).subrange(0, i + 1);
            assert(next.drop_last() =~= result_views(results@).subrange(0, i as int));
            assert(next.last() == results[i as int]@);
        }
        let ghost before = note_views(notes@);
        if results[i].status == a || results[i].status == b {
            let mut line = copy_text("  ");
            let prefix = results[i].status.prefix();
            line.append(prefix.as_str());
            line.append(" ");
            line.append(results[i].message.as_str());
            assert(line@ =~= "  "@ + status_prefix(results[i as int].status) + " "@
                + results[i as int].message@);
            push_plain(&mut notes, line);
        }
        i = i + 1;
    }
    assert(result_views(results@).subrange(0, results.len() as int) =~= result_views(results@));
    notes
}

/// What a refused start prints: the warnings and errors of the checks,
/// and how to have them mended.
pub open spec fn refusal_lines(rs: Seq<CheckResultView>, target: Seq<char>) -> Seq<NoteView> {
    seq![error("Cannot start - preflight checks failed:"@), plain(""@)] + marked_lines(
        rs,
        CheckStatus::Warn,
        CheckStatus::Error,
    ) + seq![
        plain(""@),
        plain("Fix with: oxidepm start "@ + target + " --setup"@),
        plain("Or run:   oxidepm check "@ + target + " --fix"@),
    ]
}

/// The error with which a refused start fails.
pub open spec fn refusal_failure() -> Seq<char> {
    "Preflight checks failed"@
}

/// What a start prints when the preflight checks refuse it.
pub fn refuse_start(summary: &PreflightSummary, target: &str) -> (r: (Vec<Note>, String))
    ensures
        note_views(r.0@) == refusal_lines(result_views(summary.results@), target@),
        r.1@ == refusal_failure(),
{
    let mut notes: Vec<Note> = Vec::new();
    notes.push(note(Mark::Error, copy_text("Cannot start - preflight checks failed:")));
    assert(note_views(notes@) =~= seq![error("Cannot start - preflight checks failed:"@)]);
    push_plain(&mut notes, copy_text(""));
    push_all(&mut notes, marked(&summary.results, CheckStatus::Warn, CheckStatus::Error));
    push_plain(&mut notes, copy_text(""));
    let mut fix = copy_text("Fix with: oxidepm start ");
    fix.append(target);
    fix.append(" --setup");
    push_plain(&mut notes, fix);
    let mut run = copy_text("Or run:   oxidepm check ");
    run.append(target);
    run.append(" --fix");
    push_plain(&mut notes, run);
    assert(note_views(notes@) =~= refusal_lines(result_views(summary.results@), target@));
    (notes, copy_text("Preflight checks failed"))
}

/// What a start prints of a set-up: what was mended.
pub open spec fn setup_lines(rs: Seq<CheckResultView>) -> Seq<NoteView> {
    seq![info("Setting up project..."@)] + marked_lines(
        rs,
        CheckStatus::Fixed,
        CheckStatus::Fixed,
    )
}

/// What a start prints of a set-up.
pub fn setup_report(summary: &PreflightSummary) -> (r: Vec<Note>)
    ensures
        note_views(r@) == setup_lines(result_views(summary.results@)),
{
    let mut notes: Vec<Note> = one(note(Mark::Info, copy_text("Setting up project...")));
    push_all(&mut notes, marked(&summary.results, CheckStatus::Fixed, CheckStatus::Fixed));
    notes
}

/// What a start prints after the checks were run again: the errors that
/// are left, if anything still stands in the way.
pub open spec fn recheck_lines(rs: Seq<CheckResultView>, blocked: bool) -> Seq<NoteView> {
    if blocked {
        seq![plain(""@), error("Setup incomplete - some issues could not be fixed:"@)]
            + marked_lines(rs, CheckStatus::Error, CheckStatus::Error)
    } else {
        seq![success("Setup complete!"@), plain(""@)]
    }
}

/// The error with which a start fails after the checks were run again.
pub open spec fn recheck_failure(blocked: bool) -> Option<Seq<char>> {
    if blocked {
        Some("Setup failed"@)
    } else {
        None
    }
}

/// What a start makes of the checks that were run again after the set-up.
pub fn recheck_report(recheck: &PreflightSummary) -> (r: (Vec<Note>, Option<String>))
    ensures
        note_views(r.0@) == recheck_lines(
            result_views(recheck.results@),
            recheck.has_blocking_issues,
        ),
        opt_text(r.1) == recheck_failure(recheck.has_blocking_issues),
{
    if recheck.has_blocking_issues {
        let mut notes: Vec<Note> = Vec::new();
        assert(note_views(notes@) =~= Seq::<NoteView>::empty());
        push_plain(&mut notes, copy_text(""));
        let ghost before = note_views(notes@);
        notes.push(note(Mark::Error, copy_text("Setup incomplete - some issues could not be fixed:")));
        assert(note_views(notes@) =~= before.push(
            error("Setup incomplete - some issues could not be fixed:"@),
        ));
        push_all(&mut notes, marked(&recheck.results, CheckStatus::Error, CheckStatus::Error));
        assert(note_views(notes@) =~= recheck_lines(result_views(recheck.results@), true));
        (notes, Some(copy_text("Setup failed")))
    } else {
        let mut notes: Vec<Note> = one(note(Mark::Success, copy_text("Setup complete!")));
        push_plain(&mut notes, copy_text(""));
        assert(note_views(notes@) =~= recheck_lines(result_views(recheck.results@), false));
        (notes, None)
    }
}

/// Whether `envs` sets the variable `PORT`.
pub open spec fn sets_port(envs: Seq<(Seq<char>, Seq<char>)>) -> bool {
    crate::appspec::key_index(envs, "PORT"@) < envs.len()
}

/// How a start goes on once the port of the project was looked at.
#[derive(Debug, Clone, Copy, PartialEq, Eq, Structural)]
pub enum PortStep {
    /// The port is free, or none is asked for, or the user chose one.
    Proceed,
    /// The port is in use: ask the user whether this one may be used.
    Ask { port: u16 },
    /// The port is in use: the start is refused.
    Refuse,
}

/// How a start goes on: the port is not looked at when the user sets one;
/// a port in use asks for the next free one where the user can be asked,
/// and refuses the start where not or where none is free.
pub open spec fn port_step(user_sets_port: bool, check: Option<PortCheckResult>, interactive: bool) -> PortStep {
    match check {
        Some(c) => if user_sets_port || !c.is_in_use {
            PortStep::Proceed
        } else {
            match c.available_port {
                Some(a) => if interactive {
                    PortStep::Ask { port: a }
                } else {
                    PortStep::Refuse
                },
                None => PortStep::Refuse,
            }
        },
        None => PortStep::Proceed,
    }
}

/// What a start prints about a port in use.
pub open spec fn port_lines(
    user_sets_port: bool,
    check: Option<PortCheckResult>,
    interactive: bool,
    target: Seq<char>,
) -> Seq<NoteView> {
    match check {
        Some(c) => if user_sets_port || !c.is_in_use {
            Seq::empty()
        } else {
            seq![
                plain("[WARN] Port "@ + decimal(c.desired_port as nat) + " is already in use"@),
            ] + (match c.available_port {
                Some(a) => if interactive {
                    Seq::empty()
                } else {
                    seq![
                        plain(""@),
                        plain("To use port "@ + decimal(a as nat) + " instead, run:"@),
                        plain(
                            "  oxidepm start "@ + target + " --env PORT="@ + decimal(a as nat),
                        ),
                    ]
                },
                None => Seq::empty(),
            })
        },
        None => Seq::empty(),
    }
}

/// The error with which a start is refused for its port.
pub open spec fn port_failure(user_sets_port: bool, check: Option<PortCheckResult>, interactive: bool) -> Option<
    Seq<char>,
> {
    match check {
        Some(c) => if port_step(user_sets_port, check, interactive) == PortStep::Refuse {
            match c.available_port {
                Some(a) => Some(
                    "Port "@ + decimal(c.desired_port as nat) + " is in use. Use --env PORT="@
                        + decimal(a as nat) + " to use an alternative port"@,
                ),
                None => Some(
                    "Port "@ + decimal(c.desired_port as nat)
                        + " is in use and no available ports found"@,
                ),
            }
        } else {
            None
        },
        None => None,
    }
}

/// What a start does about its port: how it goes on, what it prints, and
/// the error with which it fails, if it is refused.
#[derive(Debug)]
pub struct PortPlan {
    pub step: PortStep,
    pub notes: Vec<Note>,
    pub failure: Option<String>,
}

/// The question put to the user about another port.
pub open spec fn port_question(port: u16) -> Seq<char> {
    "Would you like to run on port "@ + decimal(port as nat) + " instead?"@
}

/// The question put to the user about the port `port`.
pub fn port_prompt(port: u16) -> (r: String)
    ensures
        r@ == port_question(port),
{
    let mut m = copy_text("Would you like to run on port ");
    push_decimal(&mut m, port as u64);
    m.append(" instead?");
    assert(m@ =~= port_question(port));
    m
}

/// What a start does about the port of its project, where `check` is what
/// was found out about the port, `envs` are the variables that the user
/// sets, and `interactive` says whether the user can be asked.
pub fn port_plan(
    envs: &Vec<(String, String)>,
    check: &Option<PortCheckResult>,
    interactive: bool,
    target: &str,
) -> (r: PortPlan)
    ensures
        r.step == port_step(sets_port(pairs(envs@)), *check, interactive),
        note_views(r.notes@) == port_lines(sets_port(pairs(envs@)), *check, interactive, target@),
        opt_text(r.failure) == port_failure(sets_port(pairs(envs@)), *check, interactive),
{
    let user_sets_port = crate::appspec::env_position(envs, "PORT") < envs.len();
    assert(pairs(envs@).len() == envs.len());
    let c = match check {
        Some(c) => *c,
        None => {
            return PortPlan { step: PortStep::Proceed, notes: none(), failure: None };
        },
    };
    if user_sets_port || !c.is_in_use {
        return PortPlan { step: PortStep::Proceed, notes: none(), failure: None };
    }
    let mut warn = copy_text("[WARN] Port ");
    push_decimal(&mut warn, c.desired_port as u64);
    warn.append(" is already in use");
    assert(warn@ =~= "[WARN] Port "@ + decimal(c.desired_port as nat) + " is already in use"@);
    let mut notes: Vec<Note> = Vec::new();
    assert(note_views(notes@) =~= Seq::<NoteView>::empty());
    push_plain(&mut notes, warn);
    match c.available_port {
        Some(a) => {
            if interactive {
                assert(note_views(notes@) =~= port_lines(true && false, *check, true, target@));
                PortPlan { step: PortStep::Ask { port: a }, notes, failure: None }
            } else {
                push_plain(&mut notes, copy_text(""));
                let mut to_use = copy_text("To use port ");
                push_decimal(&mut to_use, a as u64);
                to_use.append(" instead, run:");
                assert(to_use@ =~= "To use port "@ + decimal(a as nat) + " instead, run:"@);
                push_plain(&mut notes, to_use);
                let mut run = copy_text("  oxidepm start ");
                run.append(target);
                run.append(" --env PORT=");
                push_decimal(&mut run, a as u64);
                assert(run@ =~= "  oxidepm start "@ + target@ + " --env PORT="@ + decimal(
                    a as nat,
                ));
                push_plain(&mut notes, run);
                let mut failure = copy_text("Port ");
                push_decimal(&mut failure, c.desired_port as u64);
                failure.append(" is in use. Use --env PORT=");
                push_decimal(&mut failure, a as u64);
                failure.append(" to use an alternative port");
                assert(failure@ =~= "Port "@ + decimal(c.desired_port as nat)
                    + " is in use. Use --env PORT="@ + decimal(a as nat)
                    + " to use an alternative port"@);
                assert(note_views(notes@) =~= port_lines(false, *check, false, target@));
                PortPlan { step: PortStep::Refuse, notes, failure: Some(failure) }
            }
        },
        None => {
            let mut failure = copy_text("Port ");
            push_decimal(&mut failure, c.desired_port as u64);
            failure.append(" is in use and no available ports found");
            assert(failure@ =~= "Port "@ + decimal(c.desired_port as nat)
                + " is in use and no available ports found"@);
            assert(note_views(notes@) =~= port_lines(false, *check, interactive, target@));
            PortPlan { step: PortStep::Refuse, notes, failure: Some(failure) }
        },
    }
}

/// The note that another port is used.
pub open spec fn port_taken_note(port: u16) -> NoteView {
    plain("[OK] Using port "@ + decimal(port as nat))
}

/// The error with which a start fails when the user declines another
/// port.
pub open spec fn port_declined(desired: u16) -> Seq<char> {
    "Port "@ + decimal(desired as nat)
        + " is in use. Free the port or specify a different one with --env PORT=<port>"@
}

/// Takes in the user's answer to the question about the port `available`:
/// a yes adds `PORT` to the variables that the user sets; a no refuses the
/// start.
pub fn port_answer(envs: &mut Vec<(String, String)>, desired: u16, available: u16, accepted: bool) -> (r:
    Result<Note, String>)
    ensures
        accepted ==> (r matches Ok(n) && n@ == port_taken_note(available) && pairs(
            final(envs)@,
        ) == pairs(old(envs)@).push(("PORT"@, decimal(available as nat)))),
        !accepted ==> (r matches Err(e) && e@ == port_declined(desired) && final(envs)@ == old(
            envs,
        )@),
{
    if accepted {
        let ghost before = pairs(envs@);
        let value = crate::text::decimal_string(available as u64);
        envs.push((copy_text("PORT"), value));
        assert(pairs(envs@) =~= before.push(("PORT"@, decimal(available as nat))));
        let mut m = copy_text("[OK] Using port ");
        push_decimal(&mut m, available as u64);
        Ok(note(Mark::Plain, m))
    } else {
        let mut m = copy_text("Port ");
        push_decimal(&mut m, desired as u64);
        m.append(" is in use. Free the port or specify a different one with --env PORT=<port>");
        assert(m@ =~= port_declined(desired));
        Err(m)
    }
}

/// How many applications of a config file were started, and how many
/// were not.
#[derive(Debug, Clone, Copy, PartialEq, Eq, Structural)]
pub struct ConfigTally {
    pub started: usize,
    pub failed: usize,
}

/// The note on the daemon's answer to the start of the application
/// `name` of a config file.
pub open spec fn config_start_note(name: Seq<char>, response: Response) -> NoteView {
    match response {
        Response::Started { id, name: started } => success(
            "Started "@ + started@ + " (id: "@ + decimal(id as nat) + ")"@,
        ),
        Response::Error { message } => error("Failed to start "@ + name + ": "@ + message@),
        _ => error("Unexpected response for "@ + name),
    }
}

/// The tally after the daemon's answer to one start.
pub open spec fn tallied(t: ConfigTally, response: Response) -> ConfigTally {
    if response is Started {
        ConfigTally { started: (t.started + 1) as usize, ..t }
    } else {
        ConfigTally { failed: (t.failed + 1) as usize, ..t }
    }
}

/// The last line of the start of a config file.
pub open spec fn tally_line(t: ConfigTally) -> Seq<char> {
    if t.failed > 0 {
        "\nStarted: "@ + decimal(t.started as nat) + ", Failed: "@ + decimal(t.failed as nat)
    } else {
        "\nStarted "@ + decimal(t.started as nat) + " apps"@
    }
}

impl ConfigTally {
    /// The tally before any start.
    pub fn new() -> (r: ConfigTally)
        ensures
            r == (ConfigTally { started: 0, failed: 0 }),
    {
        ConfigTally { started: 0, failed: 0 }
    }

    /// Takes in the daemon's answer to the start of the application
    /// `name`, and gives the note on it.
    pub fn record(&mut self, name: &str, response: &Response) -> (r: Note)
        requires
            old(self).started < usize::MAX,
            old(self).failed < usize::MAX,
        ensures
            *final(self) == tallied(*old(self), *response),
            r@ == config_start_note(name@, *response),
    {
        match response {
            Response::Started { id, name: started } => {
                self.started = self.started + 1;
                let mut m = copy_text("Started ");
                m.append(started.as_str());
                m.append(" (id: ");
                push_decimal(&mut m, *id as u64);
                m.append(")");
                assert(m@ =~= "Started "@ + started@ + " (id: "@ + decimal(*id as nat) + ")"@);
                note(Mark::Success, m)
            },
            Response::Error { message } => {
                self.failed = self.failed + 1;
                let mut m = copy_text("Failed to start ");
                m.append(name);
                m.append(": ");
                m.append(message.as_str());
                assert(m@ =~= "Failed to start "@ + name@ + ": "@ + message@);
                note(Mark::Error, m)
            },
            _ => {
                self.failed = self.failed + 1;
                note(Mark::Error, labelled("Unexpected response for ", name))
            },
        }
    }

    /// The last line of the start of a config file.
    pub fn summary(&self) -> (r: String)
        ensures
            r@ == tally_line(*self),
    {
        if self.failed > 0 {
            let mut m = copy_text("\nStarted: ");
            push_decimal(&mut m, self.started as u64);
            m.append(", Failed: ");
            push_decimal(&mut m, self.failed as u64);
            assert(m@ =~= tally_line(*self));
            m
        } else {
            let mut m = copy_text("\nStarted ");
            push_decimal(&mut m, self.started as u64);
            m.append(" apps");
            assert(m@ =~= tally_line(*self));
            m
        }
    }
}

/// What the start of a config file without applications prints, and the
/// error with which it fails.
pub fn empty_config() -> (r: (Note, String))
    ensures
        r.0@ == error("No apps defined in config file"@),
        r.1@ == "No apps in config"@,
{
    (note(Mark::Error, copy_text("No apps defined in config file")), copy_text("No apps in config"))
}

/// The kind of answer that a command of the command line waits for, if
/// it asks the daemon.
pub fn command_kind(command: &Commands) -> (r: Option<Command>)
    ensures
        r == (match *command {
            Commands::Start(_) => Some(Command::Start),
            Commands::Stop { .. } => Some(Command::Stop),
            Commands::Restart { .. } => Some(Command::Restart),
            Commands::Delete { .. } => Some(Command::Delete),
            Commands::Status => Some(Command::Status),
            Commands::Show { .. } => Some(Command::Show),
            Commands::Logs(_) => Some(Command::Logs),
            Commands::Ping => Some(Command::Ping),
            Commands::Save => Some(Command::Save),
            Commands::Resurrect => Some(Command::Resurrect),
            Commands::Kill => Some(Command::Kill),
            Commands::Reload { .. } => Some(Command::Reload),
            Commands::Flush { .. } => Some(Command::Flush),
            Commands::Describe { .. } => Some(Command::Describe),
            _ => None,
        }),
{
    match command {
        Commands::Start(_) => Some(Command::Start),
        Commands::Stop { .. } => Some(Command::Stop),
        Commands::Restart { .. } => Some(Command::Restart),
        Commands::Delete { .. } => Some(Command::Delete),
        Commands::Status => Some(Command::Status),
        Commands::Show { .. } => Some(Command::Show),
        Commands::Logs(_) => Some(Command::Logs),
        Commands::Ping => Some(Command::Ping),
        Commands::Save => Some(Command::Save),
        Commands::Resurrect => Some(Command::Resurrect),
        Commands::Kill => Some(Command::Kill),
        Commands::Reload { .. } => Some(Command::Reload),
        Commands::Flush { .. } => Some(Command::Flush),
        Commands::Describe { .. } => Some(Command::Describe),
        _ => None,
    }
}

/// The unit file that has systemd run the daemon for `user`.
pub open spec fn systemd_unit_text(user: Seq<char>, binary: Seq<char>, home: Seq<char>) -> Seq<char> {
    "[Unit]\nDescription=OxidePM Process Manager\nAfter=network.target\n\n[Service]\nType=simple\nUser="@
        + user + "\nExecStart="@ + binary
        + " daemon\nRestart=on-failure\nRestartSec=10\nEnvironment=HOME="@ + home
        + "\n\n[Install]\nWantedBy=multi-user.target\n"@
}

/// The unit file that has systemd run the daemon.
pub fn systemd_unit(user: &str, binary: &str, home: &str) -> (r: String)
    ensures
        r@ == systemd_unit_text(user@, binary@, home@),
{
    let mut out = copy_text(
        "[Unit]\nDescription=OxidePM Process Manager\nAfter=network.target\n\n[Service]\nType=simple\nUser=",
    );
    out.append(user);
    out.append("\nExecStart=");
    out.append(binary);
    out.append(" daemon\nRestart=on-failure\nRestartSec=10\nEnvironment=HOME=");
    out.append(home);
    out.append("\n\n[Install]\nWantedBy=multi-user.target\n");
    assert(out@ =~= systemd_unit_text(user@, binary@, home@));
    out
}

/// The property list that has launchd run the daemon.
pub open spec fn launchd_plist_text(binary: Seq<char>, home: Seq<char>) -> Seq<char> {
    "<?xml version=\"1.0\" encoding=\"UTF-8\"?>\n<!DOCTYPE plist PUBLIC \"-//Apple//DTD PLIST 1.0//EN\" \"http://www.apple.com/DTDs/PropertyList-1.0.dtd\">\n<plist version=\"1.0\">\n<dict>\n    <key>Label</key>\n    <string>com.oxidepm.daemon</string>\n    <key>ProgramArguments</key>\n    <array>\n        <string>"@
        + binary
        + "</string>\n        <string>daemon</string>\n    </array>\n    <key>RunAtLoad</key>\n    <true/>\n    <key>KeepAlive</key>\n    <true/>\n    <key>WorkingDirectory</key>\n    <string>"@
        + home + "</string>\n    <key>StandardErrorPath</key>\n    <string>"@ + home
        + "/.oxidepm/daemon.err.log</string>\n    <key>StandardOutPath</key>\n    <string>"@
        + home + "/.oxidepm/daemon.out.log</string>\n</dict>\n</plist>\n"@
}

/// The property list that has launchd run the daemon.
pub fn launchd_plist(binary: &str, home: &str) -> (r: String)
    ensures
        r@ == launchd_plist_text(binary@, home@),
{
    let mut out = copy_text(
        "<?xml version=\"1.0\" encoding=\"UTF-8\"?>\n<!DOCTYPE plist PUBLIC \"-//Apple//DTD PLIST 1.0//EN\" \"http://www.apple.com/DTDs/PropertyList-1.0.dtd\">\n<plist version=\"1.0\">\n<dict>\n    <key>Label</key>\n    <string>com.oxidepm.daemon</string>\n    <key>ProgramArguments</key>\n    <array>\n        <string>",
    );
    out.append(binary);
    out.append(
        "</string>\n        <string>daemon</string>\n    </array>\n    <key>RunAtLoad</key>\n    <true/>\n    <key>KeepAlive</key>\n    <true/>\n    <key>WorkingDirectory</key>\n    <string>",
    );
    out.append(home);
    out.append("</string>\n    <key>StandardErrorPath</key>\n    <string>");
    out.append(home);
    out.append("/.oxidepm/daemon.err.log</string>\n    <key>StandardOutPath</key>\n    <string>");
    out.append(home);
    out.append("/.oxidepm/daemon.out.log</string>\n</dict>\n</plist>\n");
    assert(out@ =~= launchd_plist_text(binary@, home@));
    out
}

/// What the `startup` command prints: the file for the target system, and
/// how it is installed.
pub open spec fn startup_lines(target: StartupTarget, user: Seq<char>, binary: Seq<char>, home: Seq<char>) -> Seq<
    NoteView,
> {
    match target {
        StartupTarget::Systemd => seq![
            info("Systemd unit file:"@),
            plain(""@),
            plain(systemd_unit_text(user, binary, home)),
            plain(""@),
            success("To install:"@),
            plain("  1. Save to /etc/systemd/system/oxidepmd.service"@),
            plain("  2. sudo systemctl daemon-reload"@),
            plain("  3. sudo systemctl enable oxidepmd"@),
            plain("  4. sudo systemctl start oxidepmd"@),
        ],
        StartupTarget::Launchd => seq![
            info("Launchd plist file:"@),
            plain(""@),
            plain(launchd_plist_text(binary, home)),
            plain(""@),
            success("To install:"@),
            plain("  1. Save to ~/Library/LaunchAgents/com.oxidepm.daemon.plist"@),
            plain("  2. launchctl load ~/Library/LaunchAgents/com.oxidepm.daemon.plist"@),
        ],
    }
}

fn push_note(notes: &mut Vec<Note>, mark: Mark, text: &str)
    ensures
        note_views(final(notes)@) == note_views(old(notes)@).push(
            NoteView { mark, text: text@ },
        ),
{
    let ghost before = note_views(notes@);
    notes.push(note(mark, copy_text(text)));
    assert(note_views(notes@) =~= before.push(NoteView { mark, text: text@ }));
}

/// What the `startup` command prints for `target`, where the daemon is
/// the program `binary`, run for `user` with the home directory `home`.
pub fn startup(target: StartupTarget, user: &str, binary: &str, home: &str) -> (r: Vec<Note>)
    ensures
        note_views(r@) == startup_lines(target, user@, binary@, home@),
{
    let mut notes: Vec<Note> = Vec::new();
    assert(note_views(notes@) =~= Seq::<NoteView>::empty());
    match target {
        StartupTarget::Systemd => {
            push_note(&mut notes, Mark::Info, "Systemd unit file:");
            push_note(&mut notes, Mark::Plain, "");
            push_plain(&mut notes, systemd_unit(user, binary, home));
            push_note(&mut notes, Mark::Plain, "");
            push_note(&mut notes, Mark::Success, "To install:");
            push_note(&mut notes, Mark::Plain, "  1. Save to /etc/systemd/system/oxidepmd.service");
            push_note(&mut notes, Mark::Plain, "  2. sudo systemctl daemon-reload");
            push_note(&mut notes, Mark::Plain, "  3. sudo systemctl enable oxidepmd");
            push_note(&mut notes, Mark::Plain, "  4. sudo systemctl start oxidepmd");
        },
        StartupTarget::Launchd => {
            push_note(&mut notes, Mark::Info, "Launchd plist file:");
            push_note(&mut notes, Mark::Plain, "");
            push_plain(&mut notes, launchd_plist(binary, home));
            push_note(&mut notes, Mark::Plain, "");
            push_note(&mut notes, Mark::Success, "To install:");
            push_note(
                &mut notes,
                Mark::Plain,
                "  1. Save to ~/Library/LaunchAgents/com.oxidepm.daemon.plist",
            );
            push_note(
                &mut notes,
                Mark::Plain,
                "  2. launchctl load ~/Library/LaunchAgents/com.oxidepm.daemon.plist",
            );
        },
    }
    assert(note_views(notes@) =~= startup_lines(target, user@, binary@, home@));
    notes
}

} // verus!
