//! Watch mode: which changed paths are ignored, and how rapid changes of a
//! path are debounced into one signal per window.

use crate::constants::{default_ignore_patterns, default_ignore_texts, DEFAULT_DEBOUNCE_MS};
use crate::process::elapsed;
use crate::seqs::{key_pos, lemma_key_pos, lemma_key_pos_is};
use crate::text::{
    chars_of,
    copy_text,
    copy_texts,
    find_char,
    lemma_first_index,
    same_text,
    split_on,
    string_of,
    texts,
};
use vstd::prelude::*;
use vstd::string::*;

verus! {

/// What watch mode ignores, and how long it debounces.
#[derive(Debug)]
pub struct WatchConfig {
    /// Glob patterns of paths to ignore.
    pub ignore: Vec<String>,
    /// The debounce window in milliseconds.
    pub debounce_ms: u64,
}

impl Default for WatchConfig {
    fn default() -> (r: WatchConfig)
        ensures
            texts(r.ignore@) == default_ignore_texts(),
            r.debounce_ms == DEFAULT_DEBOUNCE_MS,
    {
        WatchConfig { ignore: default_ignore_patterns(), debounce_ms: DEFAULT_DEBOUNCE_MS }
    }
}

/// The kind of a change.
#[derive(Debug, Clone, Copy, PartialEq, Eq, Structural)]
pub enum WatchEventKind {
    Create,
    Modify,
    Remove,
    Other,
}

/// One debounced change signal. The time is in milliseconds.
#[derive(Debug)]
pub struct WatchEvent {
    pub paths: Vec<String>,
    pub kind: WatchEventKind,
    pub timestamp: u64,
}

/// chrono::Utc::now and DateTime::timestamp_millis: the current time in
/// milliseconds since the Unix epoch. Nothing is claimed of the value.
#[verifier::external_body]
fn now_millis() -> (r: i64) {
    chrono::Utc::now().timestamp_millis()
}

/// The views of the entries of a debouncer, in order.
pub open spec fn entry_views(v: Seq<(String, u64)>) -> Seq<(Seq<char>, u64)> {
    v.map_values(|e: (String, u64)| (e.0@, e.1))
}

/// The index of the entry for `path`, or the number of entries.
pub open spec fn entry_pos(entries: Seq<(Seq<char>, u64)>, path: Seq<char>) -> int {
    key_pos(entries, path)
}

/// The entries after a change of `path` at `now`, and whether the change is
/// let through: a path without an entry gets one and is let through; a
/// path whose entry is at least `threshold` old has it renewed and is let
/// through; any other change is held back.
pub open spec fn noted(
    entries: Seq<(Seq<char>, u64)>,
    path: Seq<char>,
    now: u64,
    threshold: u64,
) -> (Seq<(Seq<char>, u64)>, bool) {
    let i = entry_pos(entries, path);
    if 0 <= i && i < entries.len() {
        if elapsed(now, entries[i].1) >= threshold {
            (entries.update(i, (path, now)), true)
        } else {
            (entries, false)
        }
    } else {
        (entries.push((path, now)), true)
    }
}

/// The entries after changes of `paths` at `now`, in order, and whether any
/// of them is let through.
pub open spec fn noted_all(
    entries: Seq<(Seq<char>, u64)>,
    paths: Seq<Seq<char>>,
    now: u64,
    threshold: u64,
) -> (Seq<(Seq<char>, u64)>, bool)
    decreases paths.len(),
{
    if paths.len() == 0 {
        (entries, false)
    } else {
        let before = noted_all(entries, paths.drop_last(), now, threshold);
        let after = noted(before.0, paths.last(), now, threshold);
        (after.0, before.1 || after.1)
    }
}

/// The entries that are less than `limit` old at `now`, in order.
pub open spec fn fresh(entries: Seq<(Seq<char>, u64)>, now: u64, limit: u64) -> Seq<(Seq<char>, u64)>
    decreases entries.len(),
{
    if entries.len() == 0 {
        Seq::empty()
    } else {
        let rest = fresh(entries.drop_last(), now, limit);
        if elapsed(now, entries.last().1) < limit {
            rest.push(entries.last())
        } else {
            rest
        }
    }
}

/// Ten times the threshold, or the greatest number if that is less.
pub open spec fn cleanup_limit(threshold: u64) -> u64 {
    if threshold * 10 <= u64::MAX {
        (threshold * 10) as u64
    } else {
        u64::MAX
    }
}

/// A change of a path that was let through less than `threshold` ago is
/// held back: within one window a path gives at most one signal.
pub proof fn lemma_one_signal_per_window(
    entries: Seq<(Seq<char>, u64)>,
    path: Seq<char>,
    first: u64,
    second: u64,
    threshold: u64,
)
    requires
        first <= second,
        second - first < threshold,
    ensures
        noted(entries, path, first, threshold).1 ==> !noted(
            noted(entries, path, first, threshold).0,
            path,
            second,
            threshold,
        ).1,
{
    lemma_key_pos(entries, path);
    let i = entry_pos(entries, path);
    let after = noted(entries, path, first, threshold).0;
    if noted(entries, path, first, threshold).1 {
        assert forall|j: int| 0 <= j < i implies after[j].0 != path by {
            assert(after[j] == entries[j]);
        }
        assert(after[i].0 == path);
        lemma_key_pos_is(after, path, i);
        assert(after[i].1 == first);
    }
}

/// Holds back rapid changes of a path.
#[derive(Debug)]
pub struct Debouncer {
    threshold_ms: u64,
    last_events: Vec<(String, u64)>,
}

impl Debouncer {
    /// The entries: each path with the time at which a change of it was
    /// last let through.
    pub closed spec fn entries(&self) -> Seq<(Seq<char>, u64)> {
        entry_views(self.last_events@)
    }

    pub closed spec fn window(&self) -> u64 {
        self.threshold_ms
    }

    /// A debouncer with a window of `threshold_ms` milliseconds.
    pub fn new(threshold_ms: u64) -> (r: Debouncer)
        ensures
            r.window() == threshold_ms,
            r.entries() == Seq::<(Seq<char>, u64)>::empty(),
    {
        let r = Debouncer { threshold_ms, last_events: Vec::new() };
        assert(r.entries() =~= Seq::<(Seq<char>, u64)>::empty());
        r
    }

    fn position(&self, path: &str) -> (r: usize)
        ensures
            r == entry_pos(self.entries(), path@),
            r <= self.last_events.len(),
            self.last_events.len() == self.entries().len(),
    {
        let mut i: usize = 0;
        while i < self.last_events.len()
            invariant
                i <= self.last_events.len(),
                forall|j: int| 0 <= j < i ==> entry_views(self.last_events@)[j].0 != path@,
            decreases self.last_events.len() - i,
        {
            if same_text(self.last_events[i].0.as_str(), path) {
                proof {
                    assert(entry_views(self.last_events@)[i as int].0 == path@);
                    lemma_key_pos_is(entry_views(self.last_events@), path@, i as int);
                }
                return i;
            }
            assert(entry_views(self.last_events@)[i as int].0 != path@);
            i = i + 1;
        }
        proof {
            lemma_key_pos_is(entry_views(self.last_events@), path@, i as int);
        }
        i
    }

    fn note(&mut self, path: &str, now_ms: u64) -> (r: bool)
        ensures
            final(self).window() == old(self).window(),
            (final(self).entries(), r) == noted(
                old(self).entries(),
                path@,
                now_ms,
                old(self).window(),
            ),
    {
        let i = self.position(path);
        if i < self.last_events.len() {
            let last = self.last_events[i].1;
            let gone: u64 = if now_ms >= last {
                now_ms - last
            } else {
                0
            };
            if gone >= self.threshold_ms {
                proof {
                    lemma_key_pos(entry_views(self.last_events@), path@);
                }
                self.last_events[i].1 = now_ms;
                assert(self.entries() =~= old(self).entries().update(i as int, (path@, now_ms)));
                true
            } else {
                false
            }
        } else {
            self.last_events.push((copy_text(path), now_ms));
            assert(self.entries() =~= old(self).entries().push((path@, now_ms)));
            true
        }
    }

    fn cleanup(&mut self, now_ms: u64)
        ensures
            final(self).window() == old(self).window(),
            final(self).entries() == fresh(
                old(self).entries(),
                now_ms,
                cleanup_limit(old(self).window()),
            ),
    {
        let limit: u64 = if self.threshold_ms <= 0xffff_ffff_ffff_ffff / 10 {
            self.threshold_ms * 10
        } else {
            0xffff_ffff_ffff_ffff
        };
        let mut kept: Vec<(String, u64)> = Vec::new();
        let mut i: usize = 0;
        assert(entry_views(kept@) =~= Seq::<(Seq<char>, u64)>::empty());
        while i < self.last_events.len()
            invariant
                i <= self.last_events.len(),
                self.last_events@ == old(self).last_events@,
                self.threshold_ms == old(self).threshold_ms,
                limit == cleanup_limit(self.threshold_ms),
                entry_views(kept@) == fresh(
                    entry_views(self.last_events@).subrange(0, i as int),
                    now_ms,
                    limit,
                ),
            decreases self.last_events.len() - i,
        {
            let ghost earlier = entry_views(kept@);
            proof {
                let next = entry_views(self.last_events@).subrange(0, i + 1);
                assert(next.drop_last() =~= entry_views(self.last_events@).subrange(0, i as int));
                assert(next.last() == (self.last_events[i as int].0@, self.last_events[i as int].1));
            }
            let last = self.last_events[i].1;
            let gone: u64 = if now_ms >= last {
                now_ms - last
            } else {
                0
            };
            if gone < limit {
                let entry = (self.last_events[i].0.clone(), last);
                kept.push(entry);
                assert(entry_views(kept@) =~= earlier.push(
                    (self.last_events[i as int].0@, self.last_events[i as int].1),
                ));
            }
            i = i + 1;
        }
        assert(entry_views(self.last_events@).subrange(0, self.last_events.len() as int)
            =~= entry_views(self.last_events@));
        self.last_events = kept;
    }

    /// Whether a change of `paths` at `now_ms` gives a signal: it does if
    /// one of the paths is let through. Entries that are ten windows old are
    /// forgotten afterwards.
    pub fn should_emit_at(&mut self, paths: &Vec<String>, now_ms: u64) -> (r: bool)
        ensures
            final(self).window() == old(self).window(),
            r == noted_all(old(self).entries(), texts(paths@), now_ms, old(self).window()).1,
            final(self).entries() == fresh(
                noted_all(old(self).entries(), texts(paths@), now_ms, old(self).window()).0,
                now_ms,
                cleanup_limit(old(self).window()),
            ),
    {
        let mut emit = false;
        let mut i: usize = 0;
        while i < paths.len()
            invariant
                i <= paths.len(),
                self.window() == old(self).window(),
                (self.entries(), emit) == noted_all(
                    old(self).entries(),
                    texts(paths@).subrange(0, i as int),
                    now_ms,
                    old(self).window(),
                ),
            decreases paths.len() - i,
        {
            proof {
                let next = texts(paths@).subrange(0, i + 1);
                assert(next.drop_last() =~= texts(paths@).subrange(0, i as int));
                assert(next.last() == paths[i as int]@);
            }
            let through = self.note(paths[i].as_str(), now_ms);
            emit = emit || through;
            i = i + 1;
        }
        assert(texts(paths@).subrange(0, paths.len() as int) =~= texts(paths@));
        self.cleanup(now_ms);
        emit
    }

    /// Whether a change of `paths` right now gives a signal.
    pub fn should_emit(&mut self, paths: &Vec<String>) -> (r: bool)
        ensures
            final(self).window() == old(self).window(),
            exists|now: u64|
                r == noted_all(old(self).entries(), texts(paths@), now, old(self).window()).1
                    && final(self).entries() == fresh(
                    noted_all(old(self).entries(), texts(paths@), now, old(self).window()).0,
                    now,
                    cleanup_limit(old(self).window()),
                ),
    {
        let t = now_millis();
        let now: u64 = if t >= 0 {
            t as u64
        } else {
            0
        };
        self.should_emit_at(paths, now)
    }

    /// Forgets every entry.
    pub fn reset(&mut self)
        ensures
            final(self).window() == old(self).window(),
            final(self).entries() == Seq::<(Seq<char>, u64)>::empty(),
    {
        self.last_events.clear();
        assert(self.entries() =~= Seq::<(Seq<char>, u64)>::empty());
    }

    /// The window in milliseconds.
    pub fn threshold(&self) -> (r: u64)
        ensures
            r == self.window(),
    {
        self.threshold_ms
    }
}

/// Whether the glob crate accepts `pattern` as a pattern.
pub uninterp spec fn glob_valid(pattern: Seq<char>) -> bool;

/// Whether the glob crate's pattern `pattern` matches `text`, under its
/// default match options.
pub uninterp spec fn glob_match(pattern: Seq<char>, text: Seq<char>) -> bool;

/// The glob `g` compiles and matches `text`.
pub open spec fn glob_hits_text(g: Seq<char>, text: Seq<char>) -> bool {
    glob_valid(g) && glob_match(g, text)
}

/// glob::Pattern::new: whether `pattern` compiles.
#[verifier::external_body]
fn pattern_valid(pattern: &str) -> (r: bool)
    ensures
        r == glob_valid(pattern@),
{
    glob::Pattern::new(pattern).is_ok()
}

/// glob::Pattern::matches, on the pattern that glob::Pattern::new compiles
/// from `pattern`: whether it matches `text`. A pattern that does not
/// compile matches nothing.
#[verifier::external_body]
fn pattern_matches(pattern: &str, text: &str) -> (r: bool)
    ensures
        r == (glob_valid(pattern@) && glob_match(pattern@, text@)),
{
    match glob::Pattern::new(pattern) {
        Ok(p) => p.matches(text),
        Err(_) => false,
    }
}

/// The glob that an ignore pattern stands for: a pattern with a wildcard
/// is taken as it is, any other is looked for at any depth.
pub open spec fn ignore_glob(pattern: Seq<char>) -> Seq<char> {
    if pattern.contains('*') || pattern.contains('?') {
        pattern
    } else {
        "**/"@ + pattern
    }
}

/// The globs that the ignore patterns stand for, without those that do not
/// compile. In order.
pub open spec fn ignore_globs(patterns: Seq<Seq<char>>) -> Seq<Seq<char>>
    decreases patterns.len(),
{
    if patterns.len() == 0 {
        Seq::empty()
    } else {
        let rest = ignore_globs(patterns.drop_last());
        if glob_valid(ignore_glob(patterns.last())) {
            rest.push(ignore_glob(patterns.last()))
        } else {
            rest
        }
    }
}

/// `c` is an ordinary component of a path: not empty, and neither `.` nor
/// `..`.
pub open spec fn is_normal(c: Seq<char>) -> bool {
    c.len() > 0 && c != seq!['.'] && c != seq!['.', '.']
}

/// The glob `g` matches the path as a whole, or one of its ordinary
/// components.
pub open spec fn glob_ignores(g: Seq<char>, path: Seq<char>) -> bool {
    glob_hits_text(g, path) || exists|k: int|
        0 <= k < split_on(path, '/').len() && is_normal(#[trigger] split_on(path, '/')[k])
            && glob_hits_text(g, split_on(path, '/')[k])
}

/// One of the globs matches the path or one of its components.
pub open spec fn path_ignored(globs: Seq<Seq<char>>, path: Seq<char>) -> bool {
    exists|i: int| 0 <= i < globs.len() && glob_ignores(#[trigger] globs[i], path)
}

/// Whether `v` holds the character `c`.
fn has_char(v: &Vec<char>, c: char) -> (r: bool)
    ensures
        r == v@.contains(c),
{
    let mut i: usize = 0;
    while i < v.len()
        invariant
            i <= v.len(),
            forall|j: int| 0 <= j < i ==> v@[j] != c,
        decreases v.len() - i,
    {
        if v[i] == c {
            return true;
        }
        i = i + 1;
    }
    false
}

/// The parts of `s` between occurrences of `sep`.
pub fn split_text(s: &str, sep: char) -> (r: Vec<String>)
    ensures
        texts(r@) == split_on(s@, sep),
{
    let v = chars_of(s);
    let n = v.len();
    let mut out: Vec<String> = Vec::new();
    let mut pos: usize = 0;
    let mut done = false;
    assert(v@.subrange(0, n as int) =~= v@);
    assert(texts(out@) =~= Seq::<Seq<char>>::empty());
    while !done
        invariant
            pos <= n,
            n == v.len(),
            v@ == s@,
            !done ==> texts(out@) + split_on(v@.subrange(pos as int, n as int), sep) == split_on(
                v@,
                sep,
            ),
            done ==> texts(out@) == split_on(v@, sep),
        decreases n - pos, !done as int,
    {
        let ghost rest = v@.subrange(pos as int, n as int);
        let ghost earlier = texts(out@);
        proof {
            lemma_first_index(rest, sep);
        }
        let i = find_char(&v, pos, n, sep);
        if i < n {
            let part = string_of(&v, pos, i);
            proof {
                assert(part@ =~= rest.subrange(0, i - pos));
                assert(rest.subrange(i - pos + 1, rest.len() as int) =~= v@.subrange(
                    i + 1,
                    n as int,
                ));
            }
            out.push(part);
            assert(texts(out@) =~= earlier.push(part@));
            pos = i + 1;
        } else {
            let part = string_of(&v, pos, n);
            out.push(part);
            assert(texts(out@) =~= earlier.push(part@));
            done = true;
        }
    }
    out
}

/// What a change is checked against, and the paths that are watched.
#[derive(Debug)]
pub struct FileWatcher {
    ignore_patterns: Vec<String>,
    debouncer: Debouncer,
    watched_paths: Vec<String>,
}

impl FileWatcher {
    /// The globs that are ignored.
    pub closed spec fn globs(&self) -> Seq<Seq<char>> {
        texts(self.ignore_patterns@)
    }

    /// The paths that are watched, in the order in which they were added.
    pub closed spec fn watched(&self) -> Seq<Seq<char>> {
        texts(self.watched_paths@)
    }

    /// The debouncer's entries.
    pub closed spec fn entries(&self) -> Seq<(Seq<char>, u64)> {
        self.debouncer.entries()
    }

    /// The debounce window in milliseconds.
    pub closed spec fn window(&self) -> u64 {
        self.debouncer.window()
    }

    /// A watcher for `config` that watches nothing yet. An ignore pattern
    /// that does not compile is left out.
    pub fn new(config: WatchConfig) -> (r: FileWatcher)
        ensures
            r.globs() == ignore_globs(texts(config.ignore@)),
            r.window() == config.debounce_ms,
            r.watched() == Seq::<Seq<char>>::empty(),
            r.entries() == Seq::<(Seq<char>, u64)>::empty(),
    {
        let mut globs: Vec<String> = Vec::new();
        let mut i: usize = 0;
        assert(texts(globs@) =~= Seq::<Seq<char>>::empty());
        while i < config.ignore.len()
            invariant
                i <= config.ignore.len(),
                texts(globs@) == ignore_globs(texts(config.ignore@).subrange(0, i as int)),
            decreases config.ignore.len() - i,
        {
            let ghost earlier = texts(globs@);
            proof {
                let next = texts(config.ignore@).subrange(0, i + 1);
                assert(next.drop_last() =~= texts(config.ignore@).subrange(0, i as int));
                assert(next.last() == config.ignore[i as int]@);
            }
            let p = config.ignore[i].as_str();
            let chars = chars_of(p);
            let glob = if has_char(&chars, '*') || has_char(&chars, '?') {
                copy_text(p)
            } else {
                let mut g = copy_text("**/");
                g.append(p);
                g
            };
            assert(glob@ =~= ignore_glob(p@));
            if pattern_valid(glob.as_str()) {
                globs.push(glob);
                assert(texts(globs@) =~= earlier.push(ignore_glob(p@)));
            }
            i = i + 1;
        }
        assert(texts(config.ignore@).subrange(0, config.ignore.len() as int) =~= texts(
            config.ignore@,
        ));
        let r = FileWatcher {
            ignore_patterns: globs,
            debouncer: Debouncer::new(config.debounce_ms),
            watched_paths: Vec::new(),
        };
        assert(r.watched() =~= Seq::<Seq<char>>::empty());
        r
    }

    /// Takes note that `path` is watched now.
    pub fn watch(&mut self, path: &str)
        ensures
            final(self).watched() == old(self).watched().push(path@),
            final(self).globs() == old(self).globs(),
            final(self).entries() == old(self).entries(),
            final(self).window() == old(self).window(),
    {
        self.watched_paths.push(copy_text(path));
        assert(self.watched() =~= old(self).watched().push(path@));
    }

    /// Takes note that `path` is watched no longer.
    pub fn unwatch(&mut self, path: &str)
        ensures
            final(self).watched() == crate::watch::without_text(old(self).watched(), path@),
            final(self).globs() == old(self).globs(),
            final(self).entries() == old(self).entries(),
            final(self).window() == old(self).window(),
    {
        let mut kept: Vec<String> = Vec::new();
        let mut i: usize = 0;
        assert(texts(kept@) =~= Seq::<Seq<char>>::empty());
        while i < self.watched_paths.len()
            invariant
                i <= self.watched_paths.len(),
                self.watched_paths@ == old(self).watched_paths@,
                self.ignore_patterns@ == old(self).ignore_patterns@,
                self.debouncer == old(self).debouncer,
                texts(kept@) == crate::watch::without_text(
                    texts(self.watched_paths@).subrange(0, i as int),
                    path@,
                ),
            decreases self.watched_paths.len() - i,
        {
            let ghost earlier = texts(kept@);
            proof {
                let next = texts(self.watched_paths@).subrange(0, i + 1);
                assert(next.drop_last() =~= texts(self.watched_paths@).subrange(0, i as int));
                assert(next.last() == self.watched_paths[i as int]@);
            }
            if !same_text(self.watched_paths[i].as_str(), path) {
                kept.push(self.watched_paths[i].clone());
                assert(texts(kept@) =~= earlier.push(self.watched_paths[i as int]@));
            }
            i = i + 1;
        }
        assert(texts(self.watched_paths@).subrange(0, self.watched_paths.len() as int) =~= texts(
            self.watched_paths@,
        ));
        self.watched_paths = kept;
    }

    /// The paths that are watched.
    pub fn watched_paths(&self) -> (r: Vec<String>)
        ensures
            texts(r@) == self.watched(),
    {
        copy_texts(&self.watched_paths)
    }

    fn glob_hits(glob: &str, path: &str, parts: &Vec<String>) -> (r: bool)
        requires
            texts(parts@) == split_on(path@, '/'),
        ensures
            r == glob_ignores(glob@, path@),
    {
        if pattern_matches(glob, path) {
            return true;
        }
        let mut k: usize = 0;
        while k < parts.len()
            invariant
                k <= parts.len(),
                texts(parts@) == split_on(path@, '/'),
                forall|j: int|
                    0 <= j < k ==> !(is_normal(#[trigger] split_on(path@, '/')[j])
                        && glob_hits_text(glob@, split_on(path@, '/')[j])),
            decreases parts.len() - k,
        {
            let part = parts[k].as_str();
            assert(texts(parts@)[k as int] == part@);
            let normal = !part.is_empty() && !same_text(part, ".") && !same_text(part, "..");
            proof {
                reveal_strlit(".");
                reveal_strlit("..");
                assert("."@ =~= seq!['.']);
                assert(".."@ =~= seq!['.', '.']);
            }
            if normal && pattern_matches(glob, part) {
                return true;
            }
            k = k + 1;
        }
        false
    }

    /// Whether a change of `path` is ignored: one of the globs matches the
    /// path as a whole or one of its ordinary components.
    pub fn should_ignore(&self, path: &str) -> (r: bool)
        ensures
            r == path_ignored(self.globs(), path@),
    {
        let parts = split_text(path, '/');
        let mut i: usize = 0;
        while i < self.ignore_patterns.len()
            invariant
                i <= self.ignore_patterns.len(),
                texts(parts@) == split_on(path@, '/'),
                forall|j: int|
                    0 <= j < i ==> !glob_ignores(#[trigger] texts(self.ignore_patterns@)[j], path@),
            decreases self.ignore_patterns.len() - i,
        {
            assert(texts(self.ignore_patterns@)[i as int] == self.ignore_patterns[i as int]@);
            if FileWatcher::glob_hits(self.ignore_patterns[i].as_str(), path, &parts) {
                return true;
            }
            i = i + 1;
        }
        false
    }

    /// Takes note of a change of `paths` at `now_ms`: ignored paths are left
    /// out, and what is left gives a signal unless the debouncer holds it
    /// back.
    pub fn on_change(&mut self, paths: &Vec<String>, kind: WatchEventKind, now_ms: u64) -> (r:
        Option<WatchEvent>)
        ensures
            final(self).globs() == old(self).globs(),
            final(self).watched() == old(self).watched(),
            final(self).window() == old(self).window(),
            ({
                let kept = crate::watch::not_ignored(old(self).globs(), texts(paths@));
                let outcome = noted_all(old(self).entries(), kept, now_ms, old(self).window());
                if kept.len() == 0 {
                    r is None && final(self).entries() == old(self).entries()
                } else {
                    final(self).entries() == fresh(
                        outcome.0,
                        now_ms,
                        cleanup_limit(old(self).window()),
                    ) && (if outcome.1 {
                        r matches Some(e) && texts(e.paths@) == kept && e.kind == kind
                            && e.timestamp == now_ms
                    } else {
                        r is None
                    })
                }
            }),
    {
        let mut kept: Vec<String> = Vec::new();
        let mut i: usize = 0;
        assert(texts(kept@) =~= Seq::<Seq<char>>::empty());
        while i < paths.len()
            invariant
                i <= paths.len(),
                *self == *old(self),
                texts(kept@) == crate::watch::not_ignored(
                    self.globs(),
                    texts(paths@).subrange(0, i as int),
                ),
            decreases paths.len() - i,
        {
            let ghost earlier = texts(kept@);
            proof {
                let next = texts(paths@).subrange(0, i + 1);
                assert(next.drop_last() =~= texts(paths@).subrange(0, i as int));
                assert(next.last() == paths[i as int]@);
            }
            if !self.should_ignore(paths[i].as_str()) {
                kept.push(paths[i].clone());
                assert(texts(kept@) =~= earlier.push(paths[i as int]@));
            }
            i = i + 1;
        }
        assert(texts(paths@).subrange(0, paths.len() as int) =~= texts(paths@));
        if kept.len() == 0 {
            return None;
        }
        if self.debouncer.should_emit_at(&kept, now_ms) {
            Some(WatchEvent { paths: kept, kind, timestamp: now_ms })
        } else {
            None
        }
    }
}

/// `s` without every occurrence of `t`.
pub open spec fn without_text(s: Seq<Seq<char>>, t: Seq<char>) -> Seq<Seq<char>>
    decreases s.len(),
{
    if s.len() == 0 {
        Seq::empty()
    } else {
        let rest = without_text(s.drop_last(), t);
        if s.last() == t {
            rest
        } else {
            rest.push(s.last())
        }
    }
}

/// The paths of `paths` that the globs do not ignore, in order.
pub open spec fn not_ignored(globs: Seq<Seq<char>>, paths: Seq<Seq<char>>) -> Seq<Seq<char>>
    decreases paths.len(),
{
    if paths.len() == 0 {
        Seq::empty()
    } else {
        let rest = not_ignored(globs, paths.drop_last());
        if path_ignored(globs, paths.last()) {
            rest
        } else {
            rest.push(paths.last())
        }
    }
}

} // verus!
