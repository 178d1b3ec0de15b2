//! The local wire protocol: requests and responses, and the framing of
//! messages as lines with a ceiling on their size.

use crate::appspec::{AppInfo, AppSpec, Selector};
use crate::error::Error;
use crate::text::{copy_text, push_char};
use vstd::prelude::*;
use vstd::string::*;

verus! {

/// The most bytes that one message may take on the wire, its line feed
/// counted (10 MiB). No more than these are held of a message that is being
/// read.
pub const MAX_MESSAGE_SIZE: usize = 10485760;

/// A request from the command line to the daemon.
#[derive(Debug)]
pub enum Request {
    Ping,
    Start { spec: AppSpec },
    Stop { selector: Selector },
    Restart { selector: Selector },
    Delete { selector: Selector },
    Status,
    Show { selector: Selector },
    Logs { selector: Selector, lines: usize, follow: bool, stdout: bool, stderr: bool },
    Save,
    Resurrect,
    Kill,
    Reload { selector: Selector },
    Flush { selector: Selector },
    Describe { selector: Selector },
}

/// The name that tags a request on the wire.
pub open spec fn request_tag(r: Request) -> Seq<char> {
    match r {
        Request::Ping => "ping"@,
        Request::Start { .. } => "start"@,
        Request::Stop { .. } => "stop"@,
        Request::Restart { .. } => "restart"@,
        Request::Delete { .. } => "delete"@,
        Request::Status => "status"@,
        Request::Show { .. } => "show"@,
        Request::Logs { .. } => "logs"@,
        Request::Save => "save"@,
        Request::Resurrect => "resurrect"@,
        Request::Kill => "kill"@,
        Request::Reload { .. } => "reload"@,
        Request::Flush { .. } => "flush"@,
        Request::Describe { .. } => "describe"@,
    }
}

impl Request {
    /// The name that tags this request on the wire.
    pub fn tag(&self) -> (r: &'static str)
        ensures
            r@ == request_tag(*self),
    {
        match self {
            Request::Ping => "ping",
            Request::Start { .. } => "start",
            Request::Stop { .. } => "stop",
            Request::Restart { .. } => "restart",
            Request::Delete { .. } => "delete",
            Request::Status => "status",
            Request::Show { .. } => "show",
            Request::Logs { .. } => "logs",
            Request::Save => "save",
            Request::Resurrect => "resurrect",
            Request::Kill => "kill",
            Request::Reload { .. } => "reload",
            Request::Flush { .. } => "flush",
            Request::Describe { .. } => "describe",
        }
    }
}

/// A response from the daemon to the command line.
#[derive(Debug)]
pub enum Response {
    Pong,
    /// A success with a message; tagged `ok` on the wire.
    Success { message: String },
    /// Always the last response to its request.
    Error { message: String },
    Status { apps: Vec<AppInfo> },
    Show { app: AppInfo },
    LogLines { lines: Vec<String> },
    LogLine { line: String },
    Started { id: u32, name: String },
    Stopped { count: usize },
    Restarted { count: usize },
    Deleted { count: usize },
    Saved { count: usize, path: String },
    Resurrected { count: usize },
    Reloaded { count: usize },
    Flushed { count: usize },
    Described {
        name: String,
        command: String,
        args: Vec<String>,
        cwd: String,
        env: Vec<(String, String)>,
        mode: String,
    },
}

/// The name that tags a response on the wire.
pub open spec fn response_tag(r: Response) -> Seq<char> {
    match r {
        Response::Pong => "pong"@,
        Response::Success { .. } => "ok"@,
        Response::Error { .. } => "error"@,
        Response::Status { .. } => "status"@,
        Response::Show { .. } => "show"@,
        Response::LogLines { .. } => "log_lines"@,
        Response::LogLine { .. } => "log_line"@,
        Response::Started { .. } => "started"@,
        Response::Stopped { .. } => "stopped"@,
        Response::Restarted { .. } => "restarted"@,
        Response::Deleted { .. } => "deleted"@,
        Response::Saved { .. } => "saved"@,
        Response::Resurrected { .. } => "resurrected"@,
        Response::Reloaded { .. } => "reloaded"@,
        Response::Flushed { .. } => "flushed"@,
        Response::Described { .. } => "described"@,
    }
}

impl Response {
    /// A success with a message.
    pub fn ok(message: &str) -> (r: Response)
        ensures
            r matches Response::Success { message: m } && m@ == message@,
    {
        Response::Success { message: copy_text(message) }
    }

    /// An error with a message.
    pub fn error(message: &str) -> (r: Response)
        ensures
            r matches Response::Error { message: m } && m@ == message@,
    {
        Response::Error { message: copy_text(message) }
    }

    /// Whether this response is an error.
    pub fn is_error(&self) -> (r: bool)
        ensures
            r == (*self is Error),
    {
        match self {
            Response::Error { .. } => true,
            _ => false,
        }
    }

    /// The message of an error response.
    pub fn error_message(&self) -> (r: Option<&str>)
        ensures
            match *self {
                Response::Error { message } => r matches Some(m) && m@ == message@,
                _ => r is None,
            },
    {
        match self {
            Response::Error { message } => Some(message.as_str()),
            _ => None,
        }
    }

    /// The name that tags this response on the wire.
    pub fn tag(&self) -> (r: &'static str)
        ensures
            r@ == response_tag(*self),
    {
        match self {
            Response::Pong => "pong",
            Response::Success { .. } => "ok",
            Response::Error { .. } => "error",
            Response::Status { .. } => "status",
            Response::Show { .. } => "show",
            Response::LogLines { .. } => "log_lines",
            Response::LogLine { .. } => "log_line",
            Response::Started { .. } => "started",
            Response::Stopped { .. } => "stopped",
            Response::Restarted { .. } => "restarted",
            Response::Deleted { .. } => "deleted",
            Response::Saved { .. } => "saved",
            Response::Resurrected { .. } => "resurrected",
            Response::Reloaded { .. } => "reloaded",
            Response::Flushed { .. } => "flushed",
            Response::Described { .. } => "described",
        }
    }
}

/// What the bytes received so far hold.
#[derive(Debug, Clone, Copy, PartialEq, Eq, Structural)]
pub enum Frame {
    /// A whole message: the bytes before index `end`, where the line feed
    /// stands.
    Line { end: usize },
    /// No line feed yet, and room for more: read on.
    Partial,
    /// As many bytes as a message may take, and no line feed among them.
    TooLong,
}

/// The index of the first line feed in `buf`, or the length of `buf`.
pub open spec fn line_end(buf: Seq<u8>) -> int {
    crate::seqs::first_of(buf, 10u8)
}

/// Whether a message that takes `len` bytes on the wire, its line feed
/// counted, is within the ceiling.
pub open spec fn frame_accepted(len: nat) -> bool {
    len <= MAX_MESSAGE_SIZE
}

/// What `buf` holds: a message if its first line feed ends a line within
/// the ceiling; too much once as many bytes as the ceiling allows hold no
/// line feed.
pub open spec fn frame_of(buf: Seq<u8>) -> Frame {
    let end = line_end(buf);
    if end < buf.len() && end < MAX_MESSAGE_SIZE {
        Frame::Line { end: end as usize }
    } else if buf.len() >= MAX_MESSAGE_SIZE {
        Frame::TooLong
    } else {
        Frame::Partial
    }
}

/// The detail of the error for a message over the ceiling.
pub open spec fn too_long_detail() -> Seq<char> {
    "Message exceeds the limit of 10485760 bytes"@
}

/// A message of `len` bytes on the wire is accepted exactly when `len` is
/// at most the ceiling: one of exactly 10 MiB passes, one byte more does
/// not.
pub proof fn lemma_frame_ceiling()
    ensures
        frame_accepted(10485760),
        !frame_accepted(10485761),
        forall|n: nat| frame_accepted(n) <==> n <= 10485760,
{
}

/// A line is taken as a message exactly when it is within the ceiling:
/// where the first line feed of `buf` stands at index `end`, the line takes
/// `end + 1` bytes, and `buf` holds a message if that is accepted, and too
/// much if not.
pub proof fn lemma_frame_is_accepted_line(buf: Seq<u8>)
    requires
        line_end(buf) < buf.len(),
    ensures
        frame_accepted((line_end(buf) + 1) as nat) ==> frame_of(buf) == (Frame::Line {
            end: line_end(buf) as usize,
        }),
        !frame_accepted((line_end(buf) + 1) as nat) ==> frame_of(buf) == Frame::TooLong,
{
    crate::seqs::lemma_first_of(buf, 10u8);
}

/// At the ceiling: bytes without a line feed that take, with the line feed
/// after them, exactly 10 MiB are a whole message; one byte more, and they
/// are too long, with the line feed and already without it.
pub proof fn lemma_frame_at_ceiling(buf: Seq<u8>)
    requires
        forall|i: int| 0 <= i < buf.len() ==> buf[i] != 10u8,
    ensures
        buf.len() + 1 == MAX_MESSAGE_SIZE ==> frame_of(buf.push(10u8)) == (Frame::Line {
            end: (MAX_MESSAGE_SIZE - 1) as usize,
        }),
        buf.len() + 1 == MAX_MESSAGE_SIZE + 1 ==> frame_of(buf.push(10u8)) == Frame::TooLong,
        buf.len() + 1 == MAX_MESSAGE_SIZE + 1 ==> frame_of(buf) == Frame::TooLong,
        buf.len() < MAX_MESSAGE_SIZE ==> frame_of(buf) == Frame::Partial,
{
    let whole = buf.push(10u8);
    assert forall|j: int| 0 <= j < buf.len() implies whole[j] != 10u8 by {
        assert(whole[j] == buf[j]);
    }
    crate::seqs::lemma_first_of_is(whole, 10u8, buf.len() as int);
    crate::seqs::lemma_first_of_is(buf, 10u8, buf.len() as int);
}

/// Looks for a whole message in the bytes received so far.
pub fn read_frame(buf: &Vec<u8>) -> (r: Frame)
    ensures
        r == frame_of(buf@),
{
    let mut i: usize = 0;
    while i < buf.len() && i < MAX_MESSAGE_SIZE
        invariant
            i <= buf.len(),
            i <= MAX_MESSAGE_SIZE,
            forall|j: int| 0 <= j < i ==> buf@[j] != 10u8,
        decreases buf.len() - i,
    {
        if buf[i] == 10u8 {
            proof {
                crate::seqs::lemma_first_of_is(buf@, 10u8, i as int);
            }
            return Frame::Line { end: i };
        }
        i = i + 1;
    }
    proof {
        if i == buf.len() {
            crate::seqs::lemma_first_of_is(buf@, 10u8, i as int);
        } else {
            lemma_line_end_after(buf@, i as int);
        }
    }
    if buf.len() >= MAX_MESSAGE_SIZE {
        Frame::TooLong
    } else {
        Frame::Partial
    }
}

proof fn lemma_line_end_after(buf: Seq<u8>, i: int)
    requires
        0 <= i <= buf.len(),
        forall|j: int| 0 <= j < i ==> buf[j] != 10u8,
    ensures
        line_end(buf) >= i,
{
    crate::seqs::lemma_first_of(buf, 10u8);
    let f = line_end(buf);
    if f < i {
        assert(buf[f] == 10u8);
    }
}

/// The bytes that may still be read into a buffer that holds `held` bytes
/// of a message, so that no more than the ceiling is ever held.
pub fn read_room(held: usize) -> (r: usize)
    ensures
        held <= MAX_MESSAGE_SIZE ==> r == MAX_MESSAGE_SIZE - held,
        held > MAX_MESSAGE_SIZE ==> r == 0,
{
    if held <= MAX_MESSAGE_SIZE {
        MAX_MESSAGE_SIZE - held
    } else {
        0
    }
}

/// The message that the bytes received so far hold: the index of the line
/// feed that ends it; nothing yet, where more is to be read; or an
/// `IpcError` where the line is over the ceiling.
pub fn next_message(buf: &Vec<u8>) -> (r: Result<Option<usize>, Error>)
    ensures
        match frame_of(buf@) {
            Frame::Line { end } => r == Ok::<Option<usize>, Error>(Some(end)),
            Frame::Partial => r == Ok::<Option<usize>, Error>(None),
            Frame::TooLong => r matches Err(Error::IpcError(d)) && d@ == too_long_detail(),
        },
{
    match read_frame(buf) {
        Frame::Line { end } => Ok(Some(end)),
        Frame::Partial => Ok(None),
        Frame::TooLong => Err(
            Error::IpcError(copy_text("Message exceeds the limit of 10485760 bytes")),
        ),
    }
}

/// Accepts a message that takes `len` bytes on the wire if it is within
/// the ceiling; an `IpcError` otherwise.
pub fn check_message_size(len: usize) -> (r: Result<(), Error>)
    ensures
        frame_accepted(len as nat) ==> r is Ok,
        !frame_accepted(len as nat) ==> (r matches Err(Error::IpcError(d)) && d@
            == too_long_detail()),
{
    if len <= MAX_MESSAGE_SIZE {
        Ok(())
    } else {
        Err(Error::IpcError(copy_text("Message exceeds the limit of 10485760 bytes")))
    }
}

/// A message as it goes onto the wire: its text and a line feed.
pub fn frame_message(json: &str) -> (r: String)
    ensures
        r@ == json@.push('\n'),
{
    let mut out = copy_text(json);
    push_char(&mut out, '\n');
    out
}

/// The client's end of the wire.
#[derive(Debug)]
pub struct IpcClient {
    socket_path: String,
}

impl IpcClient {
    pub fn new(socket_path: String) -> (r: IpcClient)
        ensures
            r.path_text() == socket_path@,
    {
        IpcClient { socket_path }
    }

    pub closed spec fn path_text(&self) -> Seq<char> {
        self.socket_path@
    }

    /// The path of the daemon's socket.
    pub fn socket_path(&self) -> (r: &str)
        ensures
            r@ == self.path_text(),
    {
        self.socket_path.as_str()
    }
}

/// The client for the daemon's socket at its usual place.
pub fn get_client() -> (r: IpcClient)
    ensures
        exists|h: Option<Seq<char>>|
            r.path_text() == crate::constants::join_path(
                crate::constants::home_under(h),
                crate::constants::SOCKET_FILE@,
            ),
{
    IpcClient::new(crate::constants::socket_path())
}

} // verus!
