//! The registry: the durable relation of application specifications, unique
//! by name, with ids that the registry assigns.

use crate::appspec::{spec_views, AppSpec, AppSpecView};
use crate::error::Error;
use crate::seqs::{first_where, lemma_first_where, lemma_first_where_is};
use crate::text::{copy_text, same_text};
use vstd::prelude::*;
use vstd::string::*;

verus! {

/// The application specifications of a daemon, in ascending order of id.
pub struct Registry {
    apps: Vec<AppSpec>,
    next: u32,
}

/// The mathematical value of [`Registry`]: its rows, and the id that the next
/// insert assigns.
pub struct RegistryView {
    pub apps: Seq<AppSpecView>,
    pub next: u32,
}

/// The index of the row named `name`, or the number of rows.
pub open spec fn name_pos(apps: Seq<AppSpecView>, name: Seq<char>) -> int {
    first_where(apps, |a: AppSpecView| a.name == name)
}

/// The index of the row with the id `id`, or the number of rows.
pub open spec fn id_pos(apps: Seq<AppSpecView>, id: u32) -> int {
    first_where(apps, |a: AppSpecView| a.id == id)
}

/// The row named `name`, if there is one.
pub open spec fn row_by_name(apps: Seq<AppSpecView>, name: Seq<char>) -> Option<AppSpecView> {
    let i = name_pos(apps, name);
    if 0 <= i && i < apps.len() {
        Some(apps[i])
    } else {
        None
    }
}

/// The row with the id `id`, if there is one.
pub open spec fn row_by_id(apps: Seq<AppSpecView>, id: u32) -> Option<AppSpecView> {
    let i = id_pos(apps, id);
    if 0 <= i && i < apps.len() {
        Some(apps[i])
    } else {
        None
    }
}

/// The registry's invariant: no two rows share a name; ids ascend, start at
/// 1 and lie below the next id to assign.
pub open spec fn registry_wf(r: RegistryView) -> bool {
    &&& r.next >= 1
    &&& forall|i: int, j: int|
        0 <= i < j < r.apps.len() ==> (#[trigger] r.apps[i]).name != (#[trigger] r.apps[j]).name
    &&& forall|i: int, j: int|
        0 <= i < j < r.apps.len() ==> (#[trigger] r.apps[i]).id < (#[trigger] r.apps[j]).id
    &&& forall|i: int| 0 <= i < r.apps.len() ==> 1 <= (#[trigger] r.apps[i]).id < r.next
}

/// The empty registry.
pub open spec fn empty_registry() -> RegistryView {
    RegistryView { apps: Seq::empty(), next: 1 }
}

/// A row named `name` can be inserted: the name is free and an id is left.
pub open spec fn can_insert(r: RegistryView, name: Seq<char>) -> bool {
    name_pos(r.apps, name) >= r.apps.len() && r.next < u32::MAX
}

/// The registry after `spec` was inserted under the next id.
pub open spec fn inserted(r: RegistryView, spec: AppSpecView) -> RegistryView {
    RegistryView {
        apps: r.apps.push(AppSpecView { id: r.next, ..spec }),
        next: (r.next + 1) as u32,
    }
}

/// The registry without the row at index `i`.
pub open spec fn without_row(r: RegistryView, i: int) -> RegistryView {
    if 0 <= i && i < r.apps.len() {
        RegistryView { apps: r.apps.remove(i), next: r.next }
    } else {
        r
    }
}

/// The registry with the row `id` renamed to `name`, where that keeps names
/// unique; unchanged otherwise.
pub open spec fn renamed(r: RegistryView, id: u32, name: Seq<char>) -> RegistryView {
    let i = id_pos(r.apps, id);
    let n = name_pos(r.apps, name);
    if 0 <= i && i < r.apps.len() && (n >= r.apps.len() || n == i) {
        RegistryView { apps: r.apps.update(i, AppSpecView { name, ..r.apps[i] }), next: r.next }
    } else {
        r
    }
}

/// The detail of the error for an insert that the registry refuses.
pub open spec fn insert_refused_detail(r: RegistryView, name: Seq<char>) -> Seq<char> {
    if name_pos(r.apps, name) < r.apps.len() {
        "UNIQUE constraint failed: apps.name"@
    } else {
        "no application id is left"@
    }
}

/// A search ends within the rows or right after them.
pub proof fn lemma_pos_bounds(apps: Seq<AppSpecView>, name: Seq<char>, id: u32)
    ensures
        0 <= name_pos(apps, name) <= apps.len(),
        0 <= id_pos(apps, id) <= apps.len(),
        name_pos(apps, name) < apps.len() ==> apps[name_pos(apps, name)].name == name,
        id_pos(apps, id) < apps.len() ==> apps[id_pos(apps, id)].id == id,
{
    lemma_first_where(apps, |a: AppSpecView| a.name == name);
    lemma_first_where(apps, |a: AppSpecView| a.id == id);
}

/// In a well-formed registry a name identifies its row: exactly one row
/// carries it.
pub proof fn lemma_name_identifies_row(r: RegistryView, i: int, j: int)
    requires
        registry_wf(r),
        0 <= i < r.apps.len(),
        0 <= j < r.apps.len(),
        r.apps[i].name == r.apps[j].name,
    ensures
        i == j,
        name_pos(r.apps, r.apps[i].name) == i,
{
    if i < j {
        assert(r.apps[i].name != r.apps[j].name);
    } else if j < i {
        assert(r.apps[j].name != r.apps[i].name);
    }
    let name = r.apps[i].name;
    let p = |a: AppSpecView| a.name == name;
    assert forall|k: int| 0 <= k < i implies !p(#[trigger] r.apps[k]) by {
        assert(r.apps[k].name != r.apps[i].name);
    }
    assert(p(r.apps[i]));
    lemma_first_where_is(r.apps, p, i);
}

/// In a well-formed registry an id identifies its row.
pub proof fn lemma_id_identifies_row(r: RegistryView, i: int)
    requires
        registry_wf(r),
        0 <= i < r.apps.len(),
    ensures
        id_pos(r.apps, r.apps[i].id) == i,
{
    let id = r.apps[i].id;
    let p = |a: AppSpecView| a.id == id;
    assert forall|k: int| 0 <= k < i implies !p(#[trigger] r.apps[k]) by {
        assert(r.apps[k].id < r.apps[i].id);
    }
    assert(p(r.apps[i]));
    lemma_first_where_is(r.apps, p, i);
}

/// Inserting keeps the registry well formed.
pub proof fn lemma_inserted_wf(r: RegistryView, spec: AppSpecView)
    requires
        registry_wf(r),
        can_insert(r, spec.name),
    ensures
        registry_wf(inserted(r, spec)),
        id_pos(inserted(r, spec).apps, r.next) == r.apps.len(),
        name_pos(inserted(r, spec).apps, spec.name) == r.apps.len(),
{
    let after = inserted(r, spec);
    let p = |a: AppSpecView| a.name == spec.name;
    lemma_first_where(r.apps, p);
    assert forall|i: int, j: int| 0 <= i < j < after.apps.len() implies (#[trigger] after.apps[i]).name
        != (#[trigger] after.apps[j]).name by {
        if j == r.apps.len() {
            assert(after.apps[i] == r.apps[i]);
            assert(!p(r.apps[i]));
        } else {
            assert(after.apps[i] == r.apps[i]);
            assert(after.apps[j] == r.apps[j]);
        }
    }
    assert forall|i: int, j: int| 0 <= i < j < after.apps.len() implies (#[trigger] after.apps[i]).id
        < (#[trigger] after.apps[j]).id by {
        assert(after.apps[i] == r.apps[i]);
        if j < r.apps.len() {
            assert(after.apps[j] == r.apps[j]);
        }
    }
    assert forall|i: int| 0 <= i < after.apps.len() implies 1 <= (#[trigger] after.apps[i]).id
        < after.next by {
        if i < r.apps.len() {
            assert(after.apps[i] == r.apps[i]);
        }
    }
    lemma_id_identifies_row(after, r.apps.len() as int);
    lemma_name_identifies_row(after, r.apps.len() as int, r.apps.len() as int);
}

/// Removing a row keeps the registry well formed.
pub proof fn lemma_without_row_wf(r: RegistryView, i: int)
    requires
        registry_wf(r),
    ensures
        registry_wf(without_row(r, i)),
{
    if 0 <= i && i < r.apps.len() {
        let after = without_row(r, i);
        assert forall|a: int| 0 <= a < after.apps.len() implies #[trigger] after.apps[a]
            == r.apps[if a < i {
            a
        } else {
            a + 1
        }] by {}
        assert forall|a: int, b: int| 0 <= a < b < after.apps.len() implies (#[trigger] after.apps[a]).name
            != (#[trigger] after.apps[b]).name by {
            let a0 = if a < i { a } else { a + 1 };
            let b0 = if b < i { b } else { b + 1 };
            assert(r.apps[a0].name != r.apps[b0].name);
        }
        assert forall|a: int, b: int| 0 <= a < b < after.apps.len() implies (#[trigger] after.apps[a]).id
            < (#[trigger] after.apps[b]).id by {
            let a0 = if a < i { a } else { a + 1 };
            let b0 = if b < i { b } else { b + 1 };
            assert(r.apps[a0].id < r.apps[b0].id);
        }
        assert forall|a: int| 0 <= a < after.apps.len() implies 1 <= (#[trigger] after.apps[a]).id
            < after.next by {
            let a0 = if a < i { a } else { a + 1 };
            assert(1 <= r.apps[a0].id < r.next);
        }
    }
}

/// Renaming a row keeps the registry well formed.
pub proof fn lemma_renamed_wf(r: RegistryView, id: u32, name: Seq<char>)
    requires
        registry_wf(r),
    ensures
        registry_wf(renamed(r, id, name)),
{
    let i = id_pos(r.apps, id);
    let n = name_pos(r.apps, name);
    let p = |a: AppSpecView| a.name == name;
    lemma_first_where(r.apps, p);
    if 0 <= i && i < r.apps.len() && (n >= r.apps.len() || n == i) {
        let after = renamed(r, id, name);
        assert forall|a: int, b: int| 0 <= a < b < after.apps.len() implies (#[trigger] after.apps[a]).name
            != (#[trigger] after.apps[b]).name by {
            assert(r.apps[a].name != r.apps[b].name);
            if a == i {
                if r.apps[b].name == name {
                    lemma_name_identifies_row(r, b, b);
                }
            } else if b == i {
                if r.apps[a].name == name {
                    lemma_name_identifies_row(r, a, a);
                }
            }
        }
        assert forall|a: int, b: int| 0 <= a < b < after.apps.len() implies (#[trigger] after.apps[a]).id
            < (#[trigger] after.apps[b]).id by {
            assert(r.apps[a].id < r.apps[b].id);
        }
        assert forall|a: int| 0 <= a < after.apps.len() implies 1 <= (#[trigger] after.apps[a]).id
            < after.next by {
            assert(1 <= r.apps[a].id < r.next);
        }
    }
}

impl View for Registry {
    type V = RegistryView;

    closed spec fn view(&self) -> RegistryView {
        RegistryView { apps: spec_views(self.apps@), next: self.next }
    }
}

impl Registry {
    /// The registry's invariant holds of this value.
    pub open spec fn wf(&self) -> bool {
        registry_wf(self@)
    }

    /// The empty registry.
    pub fn new() -> (r: Registry)
        ensures
            r@ == empty_registry(),
            r.wf(),
    {
        let r = Registry { apps: Vec::new(), next: 1 };
        assert(r@.apps =~= Seq::empty());
        r
    }

    /// The registry with the rows `rows`, which assigns `next` next: what a
    /// daemon finds when it opens its store. `None` if the rows break the
    /// registry's invariant.
    pub fn restore(rows: Vec<AppSpec>, next: u32) -> (r: Option<Registry>)
        ensures
            registry_wf(RegistryView { apps: spec_views(rows@), next }) ==> (r matches Some(reg)
                && reg.wf() && reg@ == (RegistryView { apps: spec_views(rows@), next })),
            !registry_wf(RegistryView { apps: spec_views(rows@), next }) ==> r is None,
    {
        let ghost view = RegistryView { apps: spec_views(rows@), next };
        if next < 1 {
            return None;
        }
        let mut i: usize = 0;
        while i < rows.len()
            invariant
                i <= rows.len(),
                next >= 1,
                view == (RegistryView { apps: spec_views(rows@), next }),
                forall|a: int, b: int|
                    0 <= a < b < i ==> (#[trigger] view.apps[a]).name != (#[trigger] view.apps[b]).name,
                forall|a: int, b: int|
                    0 <= a < b < i ==> (#[trigger] view.apps[a]).id < (#[trigger] view.apps[b]).id,
                forall|a: int| 0 <= a < i ==> 1 <= (#[trigger] view.apps[a]).id < next,
            decreases rows.len() - i,
        {
            assert(view.apps[i as int] == rows[i as int]@);
            if rows[i].id < 1 || rows[i].id >= next {
                return None;
            }
            if i > 0 {
                assert(view.apps[i - 1] == rows[i - 1]@);
                if rows[i - 1].id >= rows[i].id {
                    assert(!(view.apps[i - 1].id < view.apps[i as int].id));
                    return None;
                }
            }
            let mut k: usize = 0;
            while k < i
                invariant
                    k <= i < rows.len(),
                    view == (RegistryView { apps: spec_views(rows@), next }),
                    forall|a: int| 0 <= a < k ==> (#[trigger] view.apps[a]).name != view.apps[i as int].name,
                decreases i - k,
            {
                assert(view.apps[k as int] == rows[k as int]@);
                assert(view.apps[i as int] == rows[i as int]@);
                if same_text(rows[k].name.as_str(), rows[i].name.as_str()) {
                    assert(!(view.apps[k as int].name != view.apps[i as int].name));
                    return None;
                }
                k = k + 1;
            }
            proof {
                assert forall|a: int, b: int| 0 <= a < b < i + 1 implies (#[trigger] view.apps[a]).id
                    < (#[trigger] view.apps[b]).id by {
                    if b == i && a < i - 1 {
                        assert(view.apps[a].id < view.apps[i - 1].id);
                    }
                }
            }
            i = i + 1;
        }
        Some(Registry { apps: rows, next })
    }

    /// The id that the next insert assigns.
    pub fn sequence(&self) -> (r: u32)
        ensures
            r == self@.next,
    {
        self.next
    }

    /// The number of rows.
    pub fn len(&self) -> (r: usize)
        ensures
            r == self@.apps.len(),
    {
        self.apps.len()
    }

    fn position_by_name(&self, name: &str) -> (r: usize)
        ensures
            r == name_pos(self@.apps, name@),
            r <= self.apps.len(),
            self.apps.len() == self@.apps.len(),
    {
        let ghost p = |a: AppSpecView| a.name == name@;
        let mut i: usize = 0;
        while i < self.apps.len()
            invariant
                i <= self.apps.len(),
                p == (|a: AppSpecView| a.name == name@),
                forall|j: int| 0 <= j < i ==> !p(#[trigger] spec_views(self.apps@)[j]),
            decreases self.apps.len() - i,
        {
            if same_text(self.apps[i].name.as_str(), name) {
                proof {
                    assert(p(spec_views(self.apps@)[i as int]));
                    lemma_first_where_is(spec_views(self.apps@), p, i as int);
                }
                return i;
            }
            assert(!p(spec_views(self.apps@)[i as int]));
            i = i + 1;
        }
        proof {
            lemma_first_where_is(spec_views(self.apps@), p, i as int);
        }
        i
    }

    fn position_by_id(&self, id: u32) -> (r: usize)
        ensures
            r == id_pos(self@.apps, id),
            r <= self.apps.len(),
            self.apps.len() == self@.apps.len(),
    {
        let ghost p = |a: AppSpecView| a.id == id;
        let mut i: usize = 0;
        while i < self.apps.len()
            invariant
                i <= self.apps.len(),
                p == (|a: AppSpecView| a.id == id),
                forall|j: int| 0 <= j < i ==> !p(#[trigger] spec_views(self.apps@)[j]),
            decreases self.apps.len() - i,
        {
            if self.apps[i].id == id {
                proof {
                    assert(p(spec_views(self.apps@)[i as int]));
                    lemma_first_where_is(spec_views(self.apps@), p, i as int);
                }
                return i;
            }
            assert(!p(spec_views(self.apps@)[i as int]));
            i = i + 1;
        }
        proof {
            lemma_first_where_is(spec_views(self.apps@), p, i as int);
        }
        i
    }

    /// Inserts a row for `spec` under the next id and returns that id. The
    /// insert is refused with a `DbError`, and nothing changes, when a row
    /// of that name exists or no id is left.
    pub fn insert(&mut self, spec: &AppSpec) -> (r: Result<u32, Error>)
        requires
            old(self).wf(),
        ensures
            final(self).wf(),
            can_insert(old(self)@, spec@.name) ==> r == Ok::<u32, Error>(old(self)@.next)
                && final(self)@ == inserted(old(self)@, spec@),
            !can_insert(old(self)@, spec@.name) ==> final(self)@ == old(self)@ && (r matches Err(
                Error::DbError(d),
            ) && d@ == insert_refused_detail(old(self)@, spec@.name)),
    {
        let pos = self.position_by_name(spec.name.as_str());
        if pos < self.apps.len() {
            return Err(Error::DbError(copy_text("UNIQUE constraint failed: apps.name")));
        }
        if self.next == 0xffff_ffff {
            return Err(Error::DbError(copy_text("no application id is left")));
        }
        let mut row = spec.clone();
        row.id = self.next;
        proof {
            lemma_inserted_wf(self@, spec@);
        }
        self.apps.push(row);
        self.next = self.next + 1;
        assert(self@.apps =~= inserted(old(self)@, spec@).apps);
        Ok(self.next - 1)
    }

    /// The row with the id `id`.
    pub fn get_by_id(&self, id: u32) -> (r: Option<AppSpec>)
        ensures
            crate::registry::opt_spec(r) == row_by_id(self@.apps, id),
    {
        let pos = self.position_by_id(id);
        if pos < self.apps.len() {
            Some(self.apps[pos].clone())
        } else {
            None
        }
    }

    /// The row named `name`.
    pub fn get_by_name(&self, name: &str) -> (r: Option<AppSpec>)
        ensures
            crate::registry::opt_spec(r) == row_by_name(self@.apps, name@),
    {
        let pos = self.position_by_name(name);
        if pos < self.apps.len() {
            Some(self.apps[pos].clone())
        } else {
            None
        }
    }

    /// All rows, in ascending order of id.
    pub fn get_all(&self) -> (r: Vec<AppSpec>)
        ensures
            spec_views(r@) == self@.apps,
    {
        let mut out: Vec<AppSpec> = Vec::new();
        let mut i: usize = 0;
        while i < self.apps.len()
            invariant
                i <= self.apps.len(),
                out.len() == i,
                forall|j: int| 0 <= j < i ==> out[j]@ == self.apps[j]@,
            decreases self.apps.len() - i,
        {
            out.push(self.apps[i].clone());
            i = i + 1;
        }
        assert(spec_views(out@) =~= self@.apps);
        out
    }

    /// Deletes the row with the id `id`; whether there was one.
    pub fn delete(&mut self, id: u32) -> (r: bool)
        requires
            old(self).wf(),
        ensures
            final(self).wf(),
            r == (id_pos(old(self)@.apps, id) < old(self)@.apps.len()),
            final(self)@ == without_row(old(self)@, id_pos(old(self)@.apps, id)),
    {
        let pos = self.position_by_id(id);
        proof {
            lemma_without_row_wf(self@, pos as int);
        }
        if pos < self.apps.len() {
            self.apps.remove(pos);
            assert(self@.apps =~= old(self)@.apps.remove(pos as int));
            true
        } else {
            false
        }
    }

    /// Deletes the row named `name`; whether there was one.
    pub fn delete_by_name(&mut self, name: &str) -> (r: bool)
        requires
            old(self).wf(),
        ensures
            final(self).wf(),
            r == (name_pos(old(self)@.apps, name@) < old(self)@.apps.len()),
            final(self)@ == without_row(old(self)@, name_pos(old(self)@.apps, name@)),
    {
        let pos = self.position_by_name(name);
        proof {
            lemma_without_row_wf(self@, pos as int);
        }
        if pos < self.apps.len() {
            self.apps.remove(pos);
            assert(self@.apps =~= old(self)@.apps.remove(pos as int));
            true
        } else {
            false
        }
    }

    /// Deletes every row; how many there were. Ids are not given out again.
    pub fn delete_all(&mut self) -> (r: usize)
        requires
            old(self).wf(),
        ensures
            final(self).wf(),
            r == old(self)@.apps.len(),
            final(self)@ == (RegistryView { apps: Seq::empty(), next: old(self)@.next }),
    {
        let n = self.apps.len();
        self.apps.clear();
        assert(self@.apps =~= Seq::empty());
        n
    }

    /// Whether a row named `name` exists.
    pub fn contains_name(&self, name: &str) -> (r: bool)
        ensures
            r == (name_pos(self@.apps, name@) < self@.apps.len()),
    {
        let pos = self.position_by_name(name);
        pos < self.apps.len()
    }

    /// One more than the greatest id in use; 1 for an empty registry.
    pub fn next_id(&self) -> (r: u32)
        requires
            self.wf(),
        ensures
            r == (if self@.apps.len() == 0 {
                1
            } else {
                self@.apps.last().id + 1
            }),
    {
        if self.apps.len() == 0 {
            1
        } else {
            assert(spec_views(self.apps@)[self.apps.len() - 1].id < self.next);
            self.apps[self.apps.len() - 1].id + 1
        }
    }

    /// Renames the row `id` to `name` if that keeps names unique; whether
    /// the row now carries the name.
    pub fn rename(&mut self, id: u32, name: &str) -> (r: bool)
        requires
            old(self).wf(),
        ensures
            final(self).wf(),
            final(self)@ == renamed(old(self)@, id, name@),
            r == ({
                let i = id_pos(old(self)@.apps, id);
                let n = name_pos(old(self)@.apps, name@);
                i < old(self)@.apps.len() && (n >= old(self)@.apps.len() || n == i)
            }),
    {
        let i = self.position_by_id(id);
        let n = self.position_by_name(name);
        proof {
            lemma_renamed_wf(self@, id, name@);
        }
        if i < self.apps.len() && (n >= self.apps.len() || n == i) {
            self.apps[i].name = copy_text(name);
            assert(self@.apps =~= renamed(old(self)@, id, name@).apps);
            true
        } else {
            false
        }
    }
}

/// The view of an optional specification.
pub open spec fn opt_spec(o: Option<AppSpec>) -> Option<AppSpecView> {
    match o {
        Some(s) => Some(s@),
        None => None,
    }
}

/// The greatest id among `apps`, or 0 if there is none.
pub open spec fn greatest_id(apps: Seq<AppSpecView>) -> u32
    decreases apps.len(),
{
    if apps.len() == 0 {
        0
    } else {
        let before = greatest_id(apps.drop_last());
        if apps.last().id > before {
            apps.last().id
        } else {
            before
        }
    }
}

/// The id that a registry with the rows `apps` assigns next, where
/// `stored` is the one that was written down, if one was: the one after the
/// greatest id of a row, or the stored one if that is greater.
pub open spec fn sequence_after(apps: Seq<AppSpecView>, stored: Option<u32>) -> u32 {
    let after = if greatest_id(apps) == u32::MAX {
        u32::MAX
    } else {
        (greatest_id(apps) + 1) as u32
    };
    match stored {
        Some(n) => if n > after {
            n
        } else {
            after
        },
        None => after,
    }
}

/// The id that a registry restored from `rows` assigns next.
pub fn sequence_for(rows: &Vec<AppSpec>, stored: Option<u32>) -> (r: u32)
    ensures
        r == sequence_after(spec_views(rows@), stored),
{
    let mut greatest: u32 = 0;
    let mut i: usize = 0;
    assert(spec_views(rows@).subrange(0, 0) =~= Seq::<AppSpecView>::empty());
    while i < rows.len()
        invariant
            i <= rows.len(),
            greatest == greatest_id(spec_views(rows@).subrange(0, i as int)),
        decreases rows.len() - i,
    {
        proof {
            let next = spec_views(rows@).subrange(0, i + 1);
            assert(next.drop_last() =~= spec_views(rows@).subrange(0, i as int));
            assert(next.last() == rows[i as int]@);
        }
        if rows[i].id > greatest {
            greatest = rows[i].id;
        }
        i = i + 1;
    }
    assert(spec_views(rows@).subrange(0, rows.len() as int) =~= spec_views(rows@));
    let after: u32 = if greatest == u32::MAX {
        u32::MAX
    } else {
        greatest + 1
    };
    match stored {
        Some(n) => if n > after {
            n
        } else {
            after
        },
        None => after,
    }
}

} // verus!
