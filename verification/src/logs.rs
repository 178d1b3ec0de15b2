//! Log files: where they live, how lines are stamped and counted, when and
//! how a file is rotated, and how the tail of a log is taken.

use crate::constants::{
    join_path, log_file_name, log_path, logs_dir, DEFAULT_LOG_MAX_FILES, DEFAULT_LOG_MAX_SIZE,
    LOGS_DIR,
};
use crate::text::{
    chars_of, copy_text, decimal, find_char, first_index, lemma_first_index, lines, push_char,
    push_decimal, split_on, string_of, strip_cr, texts,
};
use crate::types::{is_name_char, valid_app_name};
use vstd::prelude::*;
use vstd::string::*;

verus! {

/// When a log file is rotated, and how many rotated files are kept.
#[derive(Debug, Clone, Copy, PartialEq, Eq, Structural)]
pub struct RotationConfig {
    /// The size at which the live file is rotated.
    pub max_size_bytes: u64,
    /// The number of rotated files kept.
    pub max_files: usize,
}

impl Default for RotationConfig {
    fn default() -> (r: RotationConfig)
        ensures
            r == (RotationConfig {
                max_size_bytes: DEFAULT_LOG_MAX_SIZE,
                max_files: DEFAULT_LOG_MAX_FILES,
            }),
    {
        RotationConfig { max_size_bytes: DEFAULT_LOG_MAX_SIZE, max_files: DEFAULT_LOG_MAX_FILES }
    }
}

impl RotationConfig {
    pub fn new(max_size_bytes: u64, max_files: usize) -> (r: RotationConfig)
        ensures
            r == (RotationConfig { max_size_bytes, max_files }),
    {
        RotationConfig { max_size_bytes, max_files }
    }
}

/// The log directory.
pub fn log_dir() -> (r: String)
    ensures
        exists|h: Option<Seq<char>>| r@ == join_path(crate::constants::home_under(h), LOGS_DIR@),
{
    logs_dir()
}

/// The path of the stdout log of `app_name`.
pub fn stdout_path(app_name: &str) -> (r: String)
    ensures
        exists|h: Option<Seq<char>>|
            r@ == join_path(
                join_path(crate::constants::home_under(h), LOGS_DIR@),
                log_file_name(app_name@, "out"@),
            ),
{
    log_path(app_name, "out")
}

/// The path of the stderr log of `app_name`.
pub fn stderr_path(app_name: &str) -> (r: String)
    ensures
        exists|h: Option<Seq<char>>|
            r@ == join_path(
                join_path(crate::constants::home_under(h), LOGS_DIR@),
                log_file_name(app_name@, "err"@),
            ),
{
    log_path(app_name, "err")
}

/// The index of the last `c` in `s`, or -1 when there is none.
pub open spec fn last_index(s: Seq<char>, c: char) -> int
    decreases s.len(),
{
    if s.len() == 0 {
        -1
    } else if s.last() == c {
        s.len() - 1
    } else {
        last_index(s.drop_last(), c)
    }
}

/// The directory part of a path: everything before its last `/`.
pub open spec fn parent_dir(p: Seq<char>) -> Seq<char> {
    let i = last_index(p, '/');
    if i < 0 {
        Seq::empty()
    } else {
        p.subrange(0, i)
    }
}

/// The file part of a path: everything after its last `/`.
pub open spec fn file_part(p: Seq<char>) -> Seq<char> {
    p.subrange(last_index(p, '/') + 1, p.len() as int)
}

proof fn lemma_last_index_after(a: Seq<char>, f: Seq<char>)
    requires
        !f.contains('/'),
    ensures
        last_index(a + seq!['/'] + f, '/') == a.len(),
    decreases f.len(),
{
    let s = a + seq!['/'] + f;
    if f.len() == 0 {
        assert(s.last() == '/');
    } else {
        assert(s.last() == f.last());
        assert(f.contains(f.last()));
        let g = f.drop_last();
        assert(s.drop_last() =~= a + seq!['/'] + g);
        assert(!g.contains('/')) by {
            if g.contains('/') {
                let j = choose|j: int| 0 <= j < g.len() && g[j] == '/';
                assert(f[j] == '/');
            }
        }
        lemma_last_index_after(a, g);
    }
}

/// A valid application name keeps its log file inside the log directory:
/// the file's name holds no `/` and is neither `.` nor `..`, so the log's
/// path has the directory as its parent and the file's name as its last
/// component.
pub proof fn lemma_valid_name_stays_in_log_dir(dir: Seq<char>, name: Seq<char>, stream: Seq<char>)
    requires
        valid_app_name(name),
        !stream.contains('/'),
        dir.len() > 0,
        dir.last() != '/',
    ensures
        ({
            let file = log_file_name(name, stream);
            let path = join_path(dir, file);
            &&& !file.contains('/')
            &&& file != seq!['.']
            &&& file != seq!['.', '.']
            &&& path == dir + seq!['/'] + file
            &&& parent_dir(path) == dir
            &&& file_part(path) == file
        }),
{
    reveal_strlit(".log");
    let file = log_file_name(name, stream);
    let ext = ".log"@;
    assert(ext.len() == 4);
    assert(file.len() == name.len() + 1 + stream.len() + 4);
    assert(file[0] == name[0]);
    assert(is_name_char(name[0]));
    assert(!file.contains('/')) by {
        if file.contains('/') {
            let j = choose|j: int| 0 <= j < file.len() && file[j] == '/';
            if j < name.len() {
                assert(file[j] == name[j]);
                assert(is_name_char(name[j]));
            } else if j == name.len() {
                assert(file[j] == '-');
            } else if j < name.len() + 1 + stream.len() {
                assert(file[j] == stream[j - name.len() - 1]);
                assert(stream.contains(stream[j - name.len() - 1]));
            } else {
                assert(file[j] == ext[j - name.len() - 1 - stream.len()]);
            }
        }
    }
    let path = join_path(dir, file);
    lemma_last_index_after(dir, file);
    assert(path.subrange(0, dir.len() as int) =~= dir);
    assert(path.subrange(dir.len() as int + 1, path.len() as int) =~= file);
}

/// The name of a rotated log file: the live file's path, a dot, and the
/// rotation index.
pub open spec fn rotated_name(base: Seq<char>, index: nat) -> Seq<char> {
    base + seq!['.'] + decimal(index)
}

/// The path of the rotated file `index` of the log `base`.
pub fn rotated_path(base: &str, index: usize) -> (r: String)
    ensures
        r@ == rotated_name(base@, index as nat),
{
    let mut out = copy_text(base);
    push_char(&mut out, '.');
    push_decimal(&mut out, index as u64);
    assert(out@ =~= rotated_name(base@, index as nat));
    out
}

/// The sizes of the files of one log: the live file, and the rotated files
/// from the newest (`.1`) to the oldest.
pub struct LogFiles {
    pub live: nat,
    pub rotated: Seq<nat>,
}

/// A log that holds nothing yet.
pub open spec fn empty_log() -> LogFiles {
    LogFiles { live: 0, rotated: Seq::empty() }
}

/// The first `n` elements of `s`, or all of `s` if it has fewer.
pub open spec fn at_most(s: Seq<nat>, n: nat) -> Seq<nat> {
    if s.len() <= n {
        s
    } else {
        s.subrange(0, n as int)
    }
}

/// The log after a rotation: the live file becomes `.1`, every rotated file
/// moves up by one, what would pass `max_files` is removed, and a fresh live
/// file is created.
pub open spec fn rotated_log(f: LogFiles, max_files: nat) -> LogFiles {
    LogFiles { live: 0, rotated: at_most(seq![f.live] + f.rotated, max_files) }
}

/// The log after `n` bytes were appended: the bytes go to the live file,
/// which is rotated if that brings it to the rotation size.
pub open spec fn appended(f: LogFiles, n: nat, c: RotationConfig) -> LogFiles {
    let grown = LogFiles { live: f.live + n, rotated: f.rotated };
    if grown.live >= c.max_size_bytes {
        rotated_log(grown, c.max_files as nat)
    } else {
        grown
    }
}

/// The log after `count` appends of `n` bytes each.
pub open spec fn after_appends(f: LogFiles, count: nat, n: nat, c: RotationConfig) -> LogFiles
    decreases count,
{
    if count == 0 {
        f
    } else {
        appended(after_appends(f, (count - 1) as nat, n, c), n, c)
    }
}

/// The smaller of two numbers.
pub open spec fn least(a: nat, b: nat) -> nat {
    if a <= b {
        a
    } else {
        b
    }
}

proof fn lemma_appends_fill_files(
    c: RotationConfig,
    chunk: nat,
    per_file: nat,
    full: nat,
    partial: nat,
)
    requires
        chunk > 0,
        per_file > 0,
        c.max_size_bytes == per_file * chunk,
        partial < per_file,
    ensures
        after_appends(empty_log(), full * per_file + partial, chunk, c).live == partial * chunk,
        after_appends(empty_log(), full * per_file + partial, chunk, c).rotated.len() == least(
            full,
            c.max_files as nat,
        ),
    decreases full, partial,
{
    let count = full * per_file + partial;
    if full == 0 && partial == 0 {
        assert(count == 0) by (nonlinear_arith)
            requires
                count == full * per_file + partial,
                full == 0,
                partial == 0,
        ;
    } else if partial > 0 {
        lemma_appends_fill_files(c, chunk, per_file, full, (partial - 1) as nat);
        let before = after_appends(empty_log(), (count - 1) as nat, chunk, c);
        assert(count - 1 == full * per_file + (partial - 1));
        assert(before.live + chunk == partial * chunk) by (nonlinear_arith)
            requires
                before.live == (partial - 1) * chunk,
        ;
        assert(partial * chunk < per_file * chunk) by (nonlinear_arith)
            requires
                partial < per_file,
                chunk > 0,
        ;
    } else {
        lemma_appends_fill_files(c, chunk, per_file, (full - 1) as nat, (per_file - 1) as nat);
        let before = after_appends(empty_log(), (count - 1) as nat, chunk, c);
        assert(count - 1 == (full - 1) * per_file + (per_file - 1)) by (nonlinear_arith)
            requires
                count == full * per_file + partial,
                partial == 0,
                full > 0,
        ;
        assert(before.live + chunk == per_file * chunk) by (nonlinear_arith)
            requires
                before.live == (per_file - 1) * chunk,
        ;
        assert(partial * chunk == 0) by (nonlinear_arith)
            requires
                partial == 0,
        ;
    }
}

/// Rotation at the size K: when ten times K bytes are written to an empty
/// log in chunks of one size that divides K, the live file ends up empty,
/// which is at most K, and exactly the smaller of ten and `max_files`
/// rotated files exist.
pub proof fn lemma_rotation_after_ten_sizes(c: RotationConfig, chunk: nat, per_file: nat)
    requires
        chunk > 0,
        per_file > 0,
        c.max_size_bytes == per_file * chunk,
    ensures
        after_appends(empty_log(), 10 * per_file, chunk, c).live == 0,
        after_appends(empty_log(), 10 * per_file, chunk, c).live <= c.max_size_bytes,
        after_appends(empty_log(), 10 * per_file, chunk, c).rotated.len() == least(
            10,
            c.max_files as nat,
        ),
{
    lemma_appends_fill_files(c, chunk, per_file, 10, 0);
    assert(10 * per_file + 0 == 10 * per_file);
    assert(0 * chunk == 0) by (nonlinear_arith);
}

/// A step of a rotation, on the files of one log.
#[derive(Debug)]
pub enum RotateOp {
    /// Remove the file.
    Remove(String),
    /// Rename the first file to the second.
    Rename(String, String),
    /// Create the file, empty.
    Create(String),
}

/// The mathematical value of [`RotateOp`].
pub enum RotateOpView {
    Remove(Seq<char>),
    Rename(Seq<char>, Seq<char>),
    Create(Seq<char>),
}

impl View for RotateOp {
    type V = RotateOpView;

    open spec fn view(&self) -> RotateOpView {
        match self {
            RotateOp::Remove(p) => RotateOpView::Remove(p@),
            RotateOp::Rename(a, b) => RotateOpView::Rename(a@, b@),
            RotateOp::Create(p) => RotateOpView::Create(p@),
        }
    }
}

/// The views of a list of steps, in order.
pub open spec fn op_views(v: Seq<RotateOp>) -> Seq<RotateOpView> {
    v.map_values(|o: RotateOp| o@)
}

/// The steps that move the rotated files `index`, `index - 1`, ..., 1 of
/// `base` up by one, oldest first; a file that does not exist is passed
/// over. `exists[i]` says whether the rotated file `i + 1` exists.
pub open spec fn shift_ops(base: Seq<char>, exists: Seq<bool>, index: nat) -> Seq<RotateOpView>
    decreases index,
{
    if index == 0 {
        Seq::empty()
    } else {
        let rest = shift_ops(base, exists, (index - 1) as nat);
        if index <= exists.len() && exists[index - 1] {
            seq![RotateOpView::Rename(rotated_name(base, index), rotated_name(base, index + 1))]
                + rest
        } else {
            rest
        }
    }
}

/// The steps of a rotation of the log `base` that keeps `max_files` rotated
/// files: the oldest is removed, the others move up by one, the live file
/// becomes `.1`, and a fresh live file is created. With no rotated files to
/// keep, the live file is removed instead.
pub open spec fn rotation_ops(base: Seq<char>, max_files: nat, exists: Seq<bool>) -> Seq<RotateOpView> {
    if max_files == 0 {
        seq![RotateOpView::Remove(base), RotateOpView::Create(base)]
    } else {
        (if max_files <= exists.len() && exists[max_files - 1] {
            seq![RotateOpView::Remove(rotated_name(base, max_files))]
        } else {
            Seq::empty()
        }) + shift_ops(base, exists, (max_files - 1) as nat) + seq![
            RotateOpView::Rename(base, rotated_name(base, 1)),
            RotateOpView::Create(base),
        ]
    }
}

/// The size of the live file after `n` more bytes, where `max` is the
/// rotation size: back to 0 if the file is rotated.
pub open spec fn live_after(size: u64, n: u64, max: u64) -> u64 {
    if size + n >= max {
        0
    } else {
        (size + n) as u64
    }
}

/// The text of a log line: the time in brackets, the line, a line feed.
pub open spec fn stamped_line(timestamp: Seq<char>, line: Seq<char>) -> Seq<char> {
    seq!['['] + timestamp + seq![']', ' '] + line + seq!['\n']
}

/// What chrono gives for the time `secs` seconds after the Unix epoch,
/// formatted as `%Y-%m-%d %H:%M:%S` in UTC; `None` where chrono has no such
/// time.
pub uninterp spec fn utc_stamp(secs: i64) -> Option<Seq<char>>;

/// chrono::DateTime::from_timestamp and DateTime::format: the UTC time
/// `secs` seconds after the Unix epoch as year, month, day, hour, minute and
/// second; `None` where chrono's calendar does not reach.
#[verifier::external_body]
fn format_utc(secs: i64) -> (r: Option<String>)
    ensures
        crate::text::opt_text(r) == utc_stamp(secs),
{
    match chrono::DateTime::from_timestamp(secs, 0) {
        Some(t) => Some(t.format("%Y-%m-%d %H:%M:%S").to_string()),
        None => None,
    }
}

/// The stamp that a log line written at `secs` carries: the formatted
/// time, or nothing where there is no such time.
pub open spec fn stamp_of(t: Option<Seq<char>>) -> Seq<char> {
    match t {
        Some(s) => s,
        None => Seq::empty(),
    }
}

/// The stamp for a formatted time.
pub fn stamp_text(formatted: Option<String>) -> (r: String)
    ensures
        r@ == stamp_of(crate::text::opt_text(formatted)),
{
    match formatted {
        Some(s) => s,
        None => String::new(),
    }
}

/// The stamp that a log line written at `secs` carries.
pub fn timestamp(secs: i64) -> (r: String)
    ensures
        r@ == stamp_of(utc_stamp(secs)),
{
    stamp_text(format_utc(secs))
}

/// The writer of one log file: it stamps lines, keeps count of the live
/// file's size, and says when and how to rotate.
#[derive(Debug)]
pub struct LogWriter {
    path: String,
    config: RotationConfig,
    current_size: u64,
}

impl LogWriter {
    /// A writer for the log at `path`, whose live file holds `existing_size`
    /// bytes.
    pub fn new(path: String, config: RotationConfig, existing_size: u64) -> (r: LogWriter)
        ensures
            r.path_text() == path@,
            r.rotation() == config,
            r.size() == existing_size,
    {
        LogWriter { path, config, current_size: existing_size }
    }

    pub closed spec fn path_text(&self) -> Seq<char> {
        self.path@
    }

    pub closed spec fn rotation(&self) -> RotationConfig {
        self.config
    }

    pub closed spec fn size(&self) -> u64 {
        self.current_size
    }

    /// The path of the live file.
    pub fn path(&self) -> (r: &str)
        ensures
            r@ == self.path_text(),
    {
        self.path.as_str()
    }

    /// The size of the live file.
    pub fn current_size(&self) -> (r: u64)
        ensures
            r == self.size(),
    {
        self.current_size
    }

    /// The text to append for `line` at the time stamped `timestamp`.
    pub fn format_line(timestamp: &str, line: &str) -> (r: String)
        ensures
            r@ == stamped_line(timestamp@, line@),
    {
        let mut out = String::new();
        push_char(&mut out, '[');
        out.append(timestamp);
        push_char(&mut out, ']');
        push_char(&mut out, ' ');
        out.append(line);
        push_char(&mut out, '\n');
        assert(out@ =~= stamped_line(timestamp@, line@));
        out
    }

    /// The text to append for `line`, written at `secs` seconds after the
    /// Unix epoch.
    pub fn write_line(secs: i64, line: &str) -> (r: String)
        ensures
            r@ == stamped_line(stamp_of(utc_stamp(secs)), line@),
    {
        let t = timestamp(secs);
        LogWriter::format_line(t.as_str(), line)
    }

    /// Takes note that `n` bytes were appended to the live file. Returns
    /// whether the file is to be rotated now; if so, the count starts again
    /// at 0.
    pub fn record_write(&mut self, n: u64) -> (r: bool)
        ensures
            r == (old(self).size() + n >= old(self).rotation().max_size_bytes),
            final(self).size() == live_after(
                old(self).size(),
                n,
                old(self).rotation().max_size_bytes,
            ),
            final(self).path_text() == old(self).path_text(),
            final(self).rotation() == old(self).rotation(),
    {
        let full = n >= self.config.max_size_bytes || self.current_size
            >= self.config.max_size_bytes - n;
        if full {
            self.current_size = 0;
        } else {
            self.current_size = self.current_size + n;
        }
        full
    }

    /// The steps of a rotation, where `exists[i]` says whether the rotated
    /// file `i + 1` exists.
    pub fn rotate(&self, exists: &Vec<bool>) -> (r: Vec<RotateOp>)
        ensures
            op_views(r@) == rotation_ops(
                self.path_text(),
                self.rotation().max_files as nat,
                exists@,
            ),
    {
        let base = self.path.as_str();
        let max = self.config.max_files;
        let mut ops: Vec<RotateOp> = Vec::new();
        if max == 0 {
            ops.push(RotateOp::Remove(copy_text(base)));
            ops.push(RotateOp::Create(copy_text(base)));
            assert(op_views(ops@) =~= rotation_ops(base@, 0, exists@));
            return ops;
        }
        if max <= exists.len() && exists[max - 1] {
            ops.push(RotateOp::Remove(rotated_path(base, max)));
        }
        let ghost head = op_views(ops@);
        let mut i: usize = max - 1;
        assert(shift_ops(base@, exists@, i as nat) =~= Seq::empty() + shift_ops(
            base@,
            exists@,
            i as nat,
        ));
        while i > 0
            invariant
                i <= max - 1,
                max >= 1,
                base@ == self.path_text(),
                head + shift_ops(base@, exists@, (max - 1) as nat) == op_views(ops@) + shift_ops(
                    base@,
                    exists@,
                    i as nat,
                ),
            decreases i,
        {
            let ghost earlier = op_views(ops@);
            if i <= exists.len() && exists[i - 1] {
                let op = RotateOp::Rename(rotated_path(base, i), rotated_path(base, i + 1));
                ops.push(op);
                assert(op_views(ops@) =~= earlier.push(op@));
                assert(op_views(ops@) + shift_ops(base@, exists@, (i - 1) as nat) =~= earlier
                    + shift_ops(base@, exists@, i as nat));
            }
            i = i - 1;
        }
        let ghost middle = op_views(ops@);
        assert(middle =~= head + shift_ops(base@, exists@, (max - 1) as nat)) by {
            assert(shift_ops(base@, exists@, 0) =~= Seq::empty());
        }
        let last = RotateOp::Rename(copy_text(base), rotated_path(base, 1));
        ops.push(last);
        let fresh = RotateOp::Create(copy_text(base));
        ops.push(fresh);
        assert(op_views(ops@) =~= middle + seq![last@, fresh@]);
        assert(op_views(ops@) =~= rotation_ops(base@, max as nat, exists@));
        ops
    }
}

/// The last `n` elements of `s`, or all of `s` if it has fewer.
pub open spec fn last_n<T>(s: Seq<T>, n: nat) -> Seq<T> {
    if s.len() <= n {
        s
    } else {
        s.subrange(s.len() - n, s.len() as int)
    }
}

proof fn lemma_split_on_nonempty(s: Seq<char>, sep: char)
    ensures
        split_on(s, sep).len() >= 1,
    decreases s.len(),
{
    let i = first_index(s, sep);
    if 0 <= i && i < s.len() {
        lemma_split_on_nonempty(s.subrange(i + 1, s.len() as int), sep);
    }
}

/// The lines of a text that holds a line feed are its first line and the
/// lines of the rest.
pub proof fn lemma_lines_unfold(s: Seq<char>)
    ensures
        ({
            let i = first_index(s, '\n');
            if i < s.len() {
                lines(s) == seq![strip_cr(s.subrange(0, i))] + lines(
                    s.subrange(i + 1, s.len() as int),
                )
            } else if s.len() == 0 {
                lines(s) == Seq::<Seq<char>>::empty()
            } else {
                lines(s) == seq![s]
            }
        }),
{
    lemma_first_index(s, '\n');
    let i = first_index(s, '\n');
    if i < s.len() {
        let head = s.subrange(0, i);
        let rest = s.subrange(i + 1, s.len() as int);
        lemma_split_on_nonempty(rest, '\n');
        let tail = split_on(rest, '\n');
        let parts = split_on(s, '\n');
        assert(parts == seq![head] + tail);
        assert(parts.last() == tail.last());
        assert(parts.drop_last() =~= seq![head] + tail.drop_last());
        let strip = |l: Seq<char>| strip_cr(l);
        assert(parts.drop_last().map_values(strip) =~= seq![strip_cr(head)] + tail.drop_last().map_values(
            strip,
        ));
        assert(lines(s) =~= seq![strip_cr(head)] + lines(rest));
    } else {
        let parts = split_on(s, '\n');
        assert(parts == seq![s]);
        assert(parts.drop_last() =~= Seq::<Seq<char>>::empty());
        let strip = |l: Seq<char>| strip_cr(l);
        assert(parts.drop_last().map_values(strip) =~= Seq::<Seq<char>>::empty());
        if s.len() > 0 {
            assert(lines(s) =~= seq![s]);
        }
    }
}

/// The lines of `content`.
pub fn split_lines(content: &str) -> (r: Vec<String>)
    ensures
        texts(r@) == lines(content@),
{
    let v = chars_of(content);
    let n = v.len();
    let mut out: Vec<String> = Vec::new();
    let mut pos: usize = 0;
    assert(v@.subrange(0, n as int) =~= v@);
    assert(texts(out@) =~= Seq::<Seq<char>>::empty());
    while pos < n
        invariant
            pos <= n,
            n == v.len(),
            v@ == content@,
            texts(out@) + lines(v@.subrange(pos as int, n as int)) == lines(v@),
        decreases n - pos,
    {
        let ghost rest = v@.subrange(pos as int, n as int);
        let ghost earlier = texts(out@);
        proof {
            lemma_lines_unfold(rest);
        }
        let i = find_char(&v, pos, n, '\n');
        if i < n {
            let mut end = i;
            if end > pos && v[end - 1] == '\r' {
                end = end - 1;
            }
            let line = string_of(&v, pos, end);
            proof {
                let head = rest.subrange(0, i - pos);
                assert(head =~= v@.subrange(pos as int, i as int));
                assert(line@ =~= strip_cr(head));
                assert(rest.subrange(i - pos + 1, rest.len() as int) =~= v@.subrange(
                    i + 1,
                    n as int,
                ));
            }
            out.push(line);
            assert(texts(out@) =~= earlier.push(line@));
            pos = i + 1;
        } else {
            let line = string_of(&v, pos, n);
            out.push(line);
            assert(texts(out@) =~= earlier.push(line@));
            pos = n;
            assert(v@.subrange(n as int, n as int) =~= Seq::<char>::empty());
            proof {
                lemma_lines_unfold(v@.subrange(n as int, n as int));
            }
        }
    }
    proof {
        lemma_lines_unfold(v@.subrange(n as int, n as int));
        assert(lines(v@.subrange(n as int, n as int)) =~= Seq::<Seq<char>>::empty());
        assert(texts(out@) =~= lines(v@));
    }
    out
}

/// The last `n` of `lines`.
pub fn tail_lines(lines: Vec<String>, n: usize) -> (r: Vec<String>)
    ensures
        texts(r@) == last_n(texts(lines@), n as nat),
{
    if lines.len() <= n {
        return lines;
    }
    let skip = lines.len() - n;
    let mut out: Vec<String> = Vec::new();
    let mut i: usize = skip;
    while i < lines.len()
        invariant
            skip <= i <= lines.len(),
            skip == lines.len() - n,
            out.len() == i - skip,
            forall|j: int| 0 <= j < out.len() ==> out[j]@ == lines[skip + j]@,
        decreases lines.len() - i,
    {
        out.push(lines[i].clone());
        i = i + 1;
    }
    assert(texts(out@) =~= last_n(texts(lines@), n as nat));
    out
}

/// The reader of one log file.
#[derive(Debug)]
pub struct LogReader {
    path: String,
}

impl LogReader {
    pub fn new(path: String) -> (r: LogReader)
        ensures
            r.path_text() == path@,
    {
        LogReader { path }
    }

    pub closed spec fn path_text(&self) -> Seq<char> {
        self.path@
    }

    /// The path of the file.
    pub fn path(&self) -> (r: &str)
        ensures
            r@ == self.path_text(),
    {
        self.path.as_str()
    }

    /// The last `n` lines of the file, whose content is `content`.
    pub fn tail(&self, content: &str, n: usize) -> (r: Vec<String>)
        ensures
            texts(r@) == last_n(lines(content@), n as nat),
    {
        tail_lines(split_lines(content), n)
    }
}

/// The number of bytes of `content` that hold whole lines: those up to
/// and with its last line feed; 0 if it holds no line feed. What follows is
/// the beginning of a line that is still being written.
pub open spec fn whole_len(content: Seq<u8>) -> nat
    decreases content.len(),
{
    if content.len() == 0 {
        0
    } else if content.last() == 10u8 {
        content.len()
    } else {
        whole_len(content.drop_last())
    }
}

/// The whole lines end with a line feed, and no line feed follows them.
pub proof fn lemma_whole_len(content: Seq<u8>)
    ensures
        whole_len(content) <= content.len(),
        whole_len(content) > 0 ==> content[whole_len(content) - 1] == 10u8,
        forall|j: int| whole_len(content) <= j < content.len() ==> content[j] != 10u8,
    decreases content.len(),
{
    if content.len() > 0 && content.last() != 10u8 {
        lemma_whole_len(content.drop_last());
        assert forall|j: int| whole_len(content) <= j < content.len() implies content[j]
            != 10u8 by {
            if j < content.len() - 1 {
                assert(content.drop_last()[j] == content[j]);
            }
        }
    }
}

/// How much of what was appended to a log since it was last read holds
/// whole lines, for a reader that follows the log: it takes these bytes,
/// and reads the unfinished rest again with what comes after it.
pub fn follow_len(content: &Vec<u8>) -> (r: usize)
    ensures
        r == whole_len(content@),
{
    let mut end: usize = content.len();
    assert(content@.subrange(0, end as int) =~= content@);
    while end > 0 && content[end - 1] != 10u8
        invariant
            end <= content.len(),
            whole_len(content@) == whole_len(content@.subrange(0, end as int)),
        decreases end,
    {
        let ghost cur = content@.subrange(0, end as int);
        assert(cur.last() == content[end - 1]);
        assert(cur.drop_last() =~= content@.subrange(0, end - 1));
        end = end - 1;
    }
    proof {
        let cur = content@.subrange(0, end as int);
        if end > 0 {
            assert(cur.last() == content[end - 1]);
        }
    }
    end
}

} // verus!
