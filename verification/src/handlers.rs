//! The request handler: how the outcome of each request becomes its one
//! response, and how the lines of two log streams are put together.

use crate::appspec::{pairs, selector_text, AppSpec, AppSpecView, Selector, SelectorView};
use crate::constants::{join_path, log_file_name, log_path_in};
use crate::error::{error_message, Error};
use crate::ipc::Response;
use crate::logs::{last_n, tail_lines};

use crate::supervisor::{info_of, info_views, shown_row, status_of, Supervisor, SupervisorView};
use crate::text::{copy_text, texts};
use crate::types::mode_name;
use vstd::prelude::*;
use vstd::string::*;

verus! {

/// `a` comes before `b`, or equals it, in the order of their characters.
pub open spec fn text_le(a: Seq<char>, b: Seq<char>) -> bool
    decreases a.len(),
{
    if a.len() == 0 {
        true
    } else if b.len() == 0 {
        false
    } else if a[0] < b[0] {
        true
    } else if a[0] > b[0] {
        false
    } else {
        text_le(a.drop_first(), b.drop_first())
    }
}

/// The texts of `s` are in ascending order.
pub open spec fn ascending(s: Seq<Seq<char>>) -> bool {
    forall|i: int, j: int| 0 <= i <= j < s.len() ==> text_le(#[trigger] s[i], #[trigger] s[j])
}

/// `s` holds the texts of `of`, each as often, in ascending order.
pub open spec fn sorted_form(s: Seq<Seq<char>>, of: Seq<Seq<char>>) -> bool {
    ascending(s) && s.to_multiset() == of.to_multiset()
}

/// A text comes before itself.
pub proof fn lemma_text_le_reflexive(a: Seq<char>)
    ensures
        text_le(a, a),
    decreases a.len(),
{
    if a.len() > 0 {
        lemma_text_le_reflexive(a.drop_first());
    }
}

/// Two texts that come before each other are the same text.
pub proof fn lemma_text_le_antisymmetric(a: Seq<char>, b: Seq<char>)
    requires
        text_le(a, b),
        text_le(b, a),
    ensures
        a == b,
    decreases a.len(),
{
    if a.len() == 0 || b.len() == 0 {
        assert(a =~= b);
    } else {
        lemma_text_le_antisymmetric(a.drop_first(), b.drop_first());
        assert(a =~= seq![a[0]] + a.drop_first());
        assert(b =~= seq![b[0]] + b.drop_first());
    }
}

/// The order of texts is transitive.
pub proof fn lemma_text_le_transitive(a: Seq<char>, b: Seq<char>, c: Seq<char>)
    requires
        text_le(a, b),
        text_le(b, c),
    ensures
        text_le(a, c),
    decreases a.len(),
{
    if a.len() > 0 && b.len() > 0 && c.len() > 0 && a[0] == b[0] && b[0] == c[0] {
        lemma_text_le_transitive(a.drop_first(), b.drop_first(), c.drop_first());
    }
}

/// Of two texts, one comes before the other.
pub proof fn lemma_text_le_total(a: Seq<char>, b: Seq<char>)
    ensures
        text_le(a, b) || text_le(b, a),
    decreases a.len(),
{
    if a.len() > 0 && b.len() > 0 && a[0] == b[0] {
        lemma_text_le_total(a.drop_first(), b.drop_first());
    }
}

/// The sorted form is one: two lists that hold the same texts, each as
/// often, in ascending order are the same list.
pub proof fn lemma_sorted_form_unique(a: Seq<Seq<char>>, b: Seq<Seq<char>>, of: Seq<Seq<char>>)
    requires
        sorted_form(a, of),
        sorted_form(b, of),
    ensures
        a == b,
{
    let leq = |x: Seq<char>, y: Seq<char>| text_le(x, y);
    assert forall|x: Seq<char>| #[trigger] leq(x, x) by {
        lemma_text_le_reflexive(x);
    }
    assert forall|x: Seq<char>, y: Seq<char>| #[trigger] leq(x, y) && #[trigger] leq(y, x) implies x
        == y by {
        lemma_text_le_antisymmetric(x, y);
    }
    assert forall|x: Seq<char>, y: Seq<char>, z: Seq<char>| #[trigger]
        leq(x, y) && #[trigger] leq(y, z) implies leq(x, z) by {
        lemma_text_le_transitive(x, y, z);
    }
    assert forall|x: Seq<char>, y: Seq<char>| #[trigger] leq(x, y) || #[trigger] leq(y, x) by {
        lemma_text_le_total(x, y);
    }
    assert(vstd::relations::total_ordering(leq));
    assert(vstd::relations::sorted_by(a, leq)) by {
        assert forall|i: int, j: int| 0 <= i < j < a.len() implies #[trigger] leq(a[i], a[j]) by {
            assert(text_le(a[i], a[j]));
        }
    }
    assert(vstd::relations::sorted_by(b, leq)) by {
        assert forall|i: int, j: int| 0 <= i < j < b.len() implies #[trigger] leq(b[i], b[j]) by {
            assert(text_le(b[i], b[j]));
        }
    }
    vstd::seq_lib::lemma_sorted_unique(a, b, leq);
}

/// slice::sort on strings: afterwards the vector holds the same strings,
/// each as often as before, in ascending order of their characters.
#[verifier::external_body]
pub(crate) fn sort_texts(v: &mut Vec<String>)
    ensures
        sorted_form(texts(final(v)@), texts(old(v)@)),
{
    v.sort()
}

/// The lines that a logs request selects: those of the stdout log unless
/// only stderr is asked for, then those of the stderr log unless only
/// stdout is asked for.
pub open spec fn selected_lines(
    out: Seq<Seq<char>>,
    err: Seq<Seq<char>>,
    stdout: bool,
    stderr: bool,
) -> Seq<Seq<char>> {
    (if stdout || !stderr {
        out
    } else {
        Seq::empty()
    }) + (if stderr || !stdout {
        err
    } else {
        Seq::empty()
    })
}

/// The streams that a logs request asks for: the stdout log unless only
/// stderr is asked for, and the stderr log unless only stdout is asked for.
pub fn selected_streams(stdout: bool, stderr: bool) -> (r: (bool, bool))
    ensures
        r.0 == (stdout || !stderr),
        r.1 == (stderr || !stdout),
        forall|out: Seq<Seq<char>>, err: Seq<Seq<char>>|
            #[trigger] selected_lines(out, err, stdout, stderr) == (if r.0 {
                out
            } else {
                Seq::empty()
            }) + (if r.1 {
                err
            } else {
                Seq::empty()
            }),
{
    (stdout || !stderr, stderr || !stdout)
}

/// Puts the tails of the two logs together: the selected lines, sorted if
/// both streams are asked for by name, and of those the last `n`.
pub fn merge_logs(
    out_lines: &Vec<String>,
    err_lines: &Vec<String>,
    n: usize,
    stdout: bool,
    stderr: bool,
) -> (r: Vec<String>)
    ensures
        ({
            let selected = selected_lines(texts(out_lines@), texts(err_lines@), stdout, stderr);
            if stdout && stderr {
                exists|s: Seq<Seq<char>>| #[trigger]
                    sorted_form(s, selected) && texts(r@) == last_n(s, n as nat)
            } else {
                texts(r@) == last_n(selected, n as nat)
            }
        }),
{
    let mut all: Vec<String> = Vec::new();
    assert(texts(all@) =~= Seq::<Seq<char>>::empty());
    if stdout || !stderr {
        let mut i: usize = 0;
        while i < out_lines.len()
            invariant
                i <= out_lines.len(),
                texts(all@) == texts(out_lines@).subrange(0, i as int),
            decreases out_lines.len() - i,
        {
            let ghost earlier = texts(all@);
            all.push(out_lines[i].clone());
            assert(texts(all@) =~= earlier.push(out_lines[i as int]@));
            i = i + 1;
            assert(texts(all@) =~= texts(out_lines@).subrange(0, i as int));
        }
        assert(texts(out_lines@).subrange(0, out_lines.len() as int) =~= texts(out_lines@));
    }
    let ghost first = texts(all@);
    if stderr || !stdout {
        let mut i: usize = 0;
        assert(texts(all@) =~= first + texts(err_lines@).subrange(0, 0));
        while i < err_lines.len()
            invariant
                i <= err_lines.len(),
                texts(all@) == first + texts(err_lines@).subrange(0, i as int),
            decreases err_lines.len() - i,
        {
            let ghost earlier = texts(all@);
            all.push(err_lines[i].clone());
            assert(texts(all@) =~= earlier.push(err_lines[i as int]@));
            i = i + 1;
            assert(texts(all@) =~= first + texts(err_lines@).subrange(0, i as int));
        }
        assert(texts(err_lines@).subrange(0, err_lines.len() as int) =~= texts(err_lines@));
    }
    assert(texts(all@) =~= selected_lines(texts(out_lines@), texts(err_lines@), stdout, stderr));
    if stdout && stderr {
        sort_texts(&mut all);
    }
    tail_lines(all, n)
}

/// Counts the applications on which an operation succeeded.
#[derive(Debug, Clone, Copy, PartialEq, Eq, Structural)]
pub struct Tally {
    pub count: usize,
}

/// The operations whose response is a count.
#[derive(Debug, Clone, Copy, PartialEq, Eq, Structural)]
pub enum Counted {
    Stopped,
    Restarted,
    Deleted,
    Resurrected,
    Reloaded,
    Flushed,
}

impl Tally {
    pub fn new() -> (r: Tally)
        ensures
            r.count == 0,
    {
        Tally { count: 0 }
    }

    /// Takes note of the outcome for one application: only one that was
    /// done counts; one that had nothing to do, or failed, does not.
    pub fn record(&mut self, outcome: &Result<bool, Error>)
        requires
            old(self).count < usize::MAX,
        ensures
            final(self).count == old(self).count + (if *outcome matches Ok(true) {
                1int
            } else {
                0int
            }),
    {
        match outcome {
            Ok(done) => {
                if *done {
                    self.count = self.count + 1;
                }
            },
            Err(_) => {},
        }
    }

    /// The response that carries this count.
    pub fn response(&self, kind: Counted) -> (r: Response)
        ensures
            match kind {
                Counted::Stopped => r matches Response::Stopped { count } && count == self.count,
                Counted::Restarted => r matches Response::Restarted { count } && count
                    == self.count,
                Counted::Deleted => r matches Response::Deleted { count } && count == self.count,
                Counted::Resurrected => r matches Response::Resurrected { count } && count
                    == self.count,
                Counted::Reloaded => r matches Response::Reloaded { count } && count == self.count,
                Counted::Flushed => r matches Response::Flushed { count } && count == self.count,
            },
    {
        match kind {
            Counted::Stopped => Response::Stopped { count: self.count },
            Counted::Restarted => Response::Restarted { count: self.count },
            Counted::Deleted => Response::Deleted { count: self.count },
            Counted::Resurrected => Response::Resurrected { count: self.count },
            Counted::Reloaded => Response::Reloaded { count: self.count },
            Counted::Flushed => Response::Flushed { count: self.count },
        }
    }
}

/// Turns the outcomes of the supervisor into responses.
pub struct RequestHandler {
    pub supervisor: Supervisor,
}

/// What a selector asks the logs of.
pub enum LogTarget {
    /// This application.
    App(AppSpecView),
    /// Every application, which cannot be served.
    Everything,
    /// No application.
    Nothing,
}

/// The application whose logs a selector asks for, or why there is none.
pub open spec fn log_target(s: SupervisorView, sel: SelectorView) -> LogTarget {
    match sel {
        SelectorView::All => LogTarget::Everything,
        _ => match shown_row(s.registry.apps, sel) {
            Some(row) => LogTarget::App(row),
            None => LogTarget::Nothing,
        },
    }
}

impl RequestHandler {
    pub fn new(supervisor: Supervisor) -> (r: RequestHandler)
        ensures
            r.supervisor == supervisor,
    {
        RequestHandler { supervisor }
    }

    /// The response to a start that gave `outcome` for the application
    /// `name`.
    pub fn start(outcome: Result<u32, Error>, name: String) -> (r: Response)
        ensures
            match outcome {
                Ok(id) => r matches Response::Started { id: i, name: n } && i == id && n@ == name@,
                Err(e) => r matches Response::Error { message } && message@ == error_message(e),
            },
    {
        match outcome {
            Ok(id) => Response::Started { id, name },
            Err(e) => Response::Error { message: e.to_string() },
        }
    }

    /// The response to a status request.
    pub fn status(&self) -> (r: Response)
        ensures
            r matches Response::Status { apps } && info_views(apps@) == status_of(
                self.supervisor@,
            ),
    {
        Response::Status { apps: self.supervisor.status() }
    }

    /// The response to a show request: the application, or `App not found`.
    pub fn show(&self, selector: &Selector) -> (r: Response)
        ensures
            match shown_row(self.supervisor@.registry.apps, selector@) {
                Some(row) => r matches Response::Show { app } && app@ == info_of(
                    self.supervisor@,
                    row,
                ),
                None => r matches Response::Error { message } && message@ == "App not found"@,
            },
    {
        match self.supervisor.show(selector) {
            Some(app) => Response::Show { app },
            None => Response::error("App not found"),
        }
    }

    /// The response to a describe request: what would run, without
    /// starting anything; or `App not found`.
    pub fn describe(&self, selector: &Selector) -> (r: Response)
        ensures
            match shown_row(self.supervisor@.registry.apps, selector@) {
                Some(row) => r matches Response::Described {
                    name,
                    command,
                    args,
                    cwd,
                    env,
                    mode,
                } && name@ == row.name && command@ == row.command && texts(args@) == row.args
                    && cwd@ == row.cwd && pairs(env@) == row.env && mode@ == mode_name(row.mode),
                None => r matches Response::Error { message } && message@ == "App not found"@,
            },
    {
        match self.supervisor.show(selector) {
            Some(app) => {
                let spec = app.spec;
                Response::Described {
                    name: spec.name,
                    command: spec.command,
                    args: spec.args,
                    cwd: spec.cwd,
                    env: spec.env,
                    mode: spec.mode.to_string(),
                }
            },
            None => Response::error("App not found"),
        }
    }

    /// The response to a save that wrote `count` specifications to `path`.
    pub fn save(count: usize, path: &str) -> (r: Response)
        ensures
            r matches Response::Saved { count: c, path: p } && c == count && p@ == path@,
    {
        Response::Saved { count, path: copy_text(path) }
    }

    /// The application whose logs `selector` asks for. `all` is refused
    /// with `InvalidSelector`; a selector that shows nothing, with
    /// `AppNotFound` and the selector's text.
    pub fn logs_target(&self, selector: &Selector) -> (r: Result<AppSpec, Error>)
        ensures
            match log_target(self.supervisor@, selector@) {
                LogTarget::App(row) => r matches Ok(s) && s@ == row,
                LogTarget::Everything => r matches Err(Error::InvalidSelector(d)) && d@
                    == "Cannot get logs for 'all'"@,
                LogTarget::Nothing => r matches Err(Error::AppNotFound(d)) && d@ == selector_text(
                    selector@,
                ),
            },
    {
        match selector {
            Selector::All => Err(Error::InvalidSelector(copy_text("Cannot get logs for 'all'"))),
            _ => match self.supervisor.show(selector) {
                Some(app) => Ok(app.spec),
                None => Err(Error::AppNotFound(selector.to_string())),
            },
        }
    }

    /// The response to a logs request that gave `outcome`.
    pub fn logs(outcome: Result<Vec<String>, Error>) -> (r: Response)
        ensures
            match outcome {
                Ok(lines) => r matches Response::LogLines { lines: l } && l == lines,
                Err(e) => r matches Response::Error { message } && message@ == error_message(e),
            },
    {
        match outcome {
            Ok(lines) => Response::LogLines { lines },
            Err(e) => Response::Error { message: e.to_string() },
        }
    }

    /// The log files that a flush of the application `id` truncates, in the
    /// log directory `dir`: its stdout log and its stderr log. `None` if no
    /// application has the id.
    pub fn flush_targets(&self, id: u32, dir: &str) -> (r: Option<(String, String)>)
        ensures
            match shown_row(self.supervisor@.registry.apps, SelectorView::ById(id)) {
                Some(row) => r matches Some(p) && p.0@ == join_path(
                    dir@,
                    log_file_name(row.name, "out"@),
                ) && p.1@ == join_path(dir@, log_file_name(row.name, "err"@)),
                None => r is None,
            },
    {
        match self.supervisor.show(&Selector::ById(id)) {
            Some(app) => Some(
                (
                    log_path_in(dir, app.spec.name.as_str(), "out"),
                    log_path_in(dir, app.spec.name.as_str(), "err"),
                ),
            ),
            None => None,
        }
    }

    /// The response to a kill request, sent before the daemon shuts down.
    pub fn kill() -> (r: Response)
        ensures
            r matches Response::Success { message } && message@ == "shutting down"@,
    {
        Response::ok("shutting down")
    }

    /// The response to a ping.
    pub fn ping() -> (r: Response)
        ensures
            r is Pong,
    {
        Response::Pong
    }
}

} // verus!
