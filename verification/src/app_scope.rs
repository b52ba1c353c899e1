//! App instance ids and their names: a name is given to an id once, and no two ids share a
//! name.
use vstd::prelude::*;

verus! {

/// Identifies an app instance.
#[derive(Clone, Copy, Debug, PartialEq, Eq, Structural)]
pub struct AppId(pub u32);

/// Error of naming an id.
pub enum IdNameError {
    /// The id already has another name, given here.
    AlreadyNamed(String),
    /// Another id, given here, has the name.
    NameUsed(AppId),
}

/// Names of app ids.
pub struct AppIdNames {
    pub entries: Vec<(String, AppId)>,
}

/// No id has two names, no name two ids, and no name is empty.
pub open spec fn names_wf(e: Seq<(String, AppId)>) -> bool {
    &&& forall|i: int, j: int|
        0 <= i < j < e.len() ==> (#[trigger] e[i]).1 != (#[trigger] e[j]).1 && e[i].0@ != e[j].0@
    &&& forall|i: int| 0 <= i < e.len() ==> (#[trigger] e[i]).0@.len() > 0
}

/// If the id has a name.
pub open spec fn is_named(e: Seq<(String, AppId)>, id: AppId) -> bool {
    exists|i: int| 0 <= i < e.len() && (#[trigger] e[i]).1 == id
}

/// The name of an id, empty if it has none.
pub open spec fn name_of(e: Seq<(String, AppId)>, id: AppId) -> Seq<char> {
    if is_named(e, id) {
        e[choose|i: int| 0 <= i < e.len() && (#[trigger] e[i]).1 == id].0@
    } else {
        Seq::empty()
    }
}

/// If some id has the name.
pub open spec fn name_used(e: Seq<(String, AppId)>, name: Seq<char>) -> bool {
    exists|i: int| 0 <= i < e.len() && (#[trigger] e[i]).0@ == name
}

/// The id that has the name.
pub open spec fn id_of(e: Seq<(String, AppId)>, name: Seq<char>) -> AppId {
    e[choose|i: int| 0 <= i < e.len() && (#[trigger] e[i]).0@ == name].1
}

/// The names after naming `id` with `name`: a new entry when the name is not empty, not used
/// and the id has no name yet; otherwise unchanged.
pub open spec fn set_name_step(e: Seq<(String, AppId)>, id: AppId, name: String) -> Seq<(String, AppId)> {
    if name@.len() > 0 && !name_used(e, name@) && !is_named(e, id) {
        e.push((name, id))
    } else {
        e
    }
}

/// The names after each of `calls` (an id and a name) is made in turn.
pub open spec fn names_after(e: Seq<(String, AppId)>, calls: Seq<(AppId, String)>) -> Seq<(String, AppId)>
    decreases calls.len(),
{
    if calls.len() == 0 {
        e
    } else {
        set_name_step(names_after(e, calls.drop_last()), calls.last().0, calls.last().1)
    }
}

impl AppIdNames {
    /// No names.
    pub fn new() -> (r: AppIdNames)
        ensures
            r.entries@.len() == 0,
    {
        AppIdNames { entries: Vec::new() }
    }

    fn find_id(&self, id: AppId) -> (r: Option<usize>)
        requires
            names_wf(self.entries@),
        ensures
            match r {
                Some(i) => i < self.entries@.len() && self.entries@[i as int].1 == id && name_of(self.entries@, id)
                    == self.entries@[i as int].0@,
                None => !is_named(self.entries@, id),
            },
    {
        let mut i: usize = 0;
        while i < self.entries.len()
            invariant
                i <= self.entries@.len(),
                names_wf(self.entries@),
                forall|j: int| 0 <= j < i ==> (#[trigger] self.entries@[j]).1 != id,
            decreases self.entries@.len() - i,
        {
            if self.entries[i].1 == id {
                proof {
                    let c = choose|k: int| 0 <= k < self.entries@.len() && (#[trigger] self.entries@[k]).1 == id;
                    if c != i {
                        if c < i {
                            assert(self.entries@[c].1 != self.entries@[i as int].1);
                        } else {
                            assert(self.entries@[i as int].1 != self.entries@[c].1);
                        }
                    }
                }
                return Some(i);
            }
            i = i + 1;
        }
        None
    }

    fn find_name(&self, name: &str) -> (r: Option<usize>)
        requires
            names_wf(self.entries@),
        ensures
            match r {
                Some(i) => i < self.entries@.len() && self.entries@[i as int].0@ == name@ && id_of(self.entries@, name@)
                    == self.entries@[i as int].1,
                None => !name_used(self.entries@, name@),
            },
    {
        let mut i: usize = 0;
        while i < self.entries.len()
            invariant
                i <= self.entries@.len(),
                names_wf(self.entries@),
                forall|j: int| 0 <= j < i ==> (#[trigger] self.entries@[j]).0@ != name@,
            decreases self.entries@.len() - i,
        {
            if crate::property::str_eq(self.entries[i].0.as_str(), name) {
                proof {
                    let c = choose|k: int| 0 <= k < self.entries@.len() && (#[trigger] self.entries@[k]).0@ == name@;
                    if c != i {
                        if c < i {
                            assert(self.entries@[c].0@ != self.entries@[i as int].0@);
                        } else {
                            assert(self.entries@[i as int].0@ != self.entries@[c].0@);
                        }
                    }
                }
                return Some(i);
            }
            i = i + 1;
        }
        None
    }
}

impl AppId {
    /// The name of the id, or an empty text.
    pub fn name(self, names: &AppIdNames) -> (r: String)
        requires
            names_wf(names.entries@),
        ensures
            r@ == name_of(names.entries@, self),
    {
        match names.find_id(self) {
            Some(i) => names.entries[i].0.clone(),
            None => String::new(),
        }
    }

    /// Names the id. An empty name, or the name the id already has, changes nothing; a name
    /// of another id is an error, and so is a second name for the id.
    pub fn set_name(self, names: &mut AppIdNames, name: String) -> (r: Result<(), IdNameError>)
        requires
            names_wf(old(names).entries@),
        ensures
            names_wf(final(names).entries@),
            final(names).entries@ == set_name_step(old(names).entries@, self, name),
            (name@.len() == 0 || name_of(old(names).entries@, self) == name@) ==> r is Ok && final(names).entries
                == old(names).entries,
            name@.len() > 0 && name_of(old(names).entries@, self) != name@ && name_used(old(names).entries@, name@)
                ==> r == Err::<(), IdNameError>(IdNameError::NameUsed(id_of(old(names).entries@, name@)))
                && final(names).entries == old(names).entries,
            name@.len() > 0 && name_of(old(names).entries@, self) != name@ && !name_used(old(names).entries@, name@)
                && is_named(old(names).entries@, self) ==> (match r {
                Err(IdNameError::AlreadyNamed(n)) => n@ == name_of(old(names).entries@, self),
                _ => false,
            }) && final(names).entries == old(names).entries,
            name@.len() > 0 && !name_used(old(names).entries@, name@) && !is_named(old(names).entries@, self) ==> r is Ok
                && final(names).entries@.len() == old(names).entries@.len() + 1 && final(names).entries@.drop_last()
                == old(names).entries@ && final(names).entries@.last().0@ == name@ && final(names).entries@.last().1
                == self,
    {
        if name.as_str().unicode_len() == 0 {
            return Ok(());
        }
        let own = names.find_id(self);
        if let Some(i) = own {
            if crate::property::str_eq(names.entries[i].0.as_str(), name.as_str()) {
                return Ok(());
            }
        }
        proof {
            if is_named(old(names).entries@, self) {
                assert(set_name_step(old(names).entries@, self, name) == old(names).entries@);
            }
        }
        match names.find_name(name.as_str()) {
            Some(j) => {
                proof {
                    if !is_named(old(names).entries@, self) {
                        assert(name_of(old(names).entries@, self) == Seq::<char>::empty());
                    }
                }
                return Err(IdNameError::NameUsed(names.entries[j].1));
            },
            None => {},
        }
        match own {
            Some(i) => Err(IdNameError::AlreadyNamed(names.entries[i].0.clone())),
            None => {
                let ghost k = name@;
                names.entries.push((name, self));
                proof {
                    assert forall|a: int, b: int| 0 <= a < b < names.entries@.len() implies (
                    #[trigger] names.entries@[a]).1 != (#[trigger] names.entries@[b]).1 && names.entries@[a].0@
                        != names.entries@[b].0@ by {
                        if b == names.entries@.len() - 1 {
                            assert(old(names).entries@[a].1 != self);
                            assert(old(names).entries@[a].0@ != k);
                        }
                    }
                    assert(names.entries@.drop_last() =~= old(names).entries@);
                }
                Ok(())
            },
        }
    }
}

/// A value per app instance, created by `init` on first use in each app and dropped when the
/// app ends.
pub struct AppLocal<T> {
    pub values: Vec<(AppId, T)>,
}

/// If the app has a value.
pub open spec fn has_app<T>(v: Seq<(AppId, T)>, id: AppId) -> bool {
    exists|i: int| 0 <= i < v.len() && (#[trigger] v[i]).0 == id
}

/// No app has two values.
pub open spec fn apps_unique<T>(v: Seq<(AppId, T)>) -> bool {
    forall|i: int, j: int| 0 <= i < j < v.len() ==> (#[trigger] v[i]).0 != (#[trigger] v[j]).0
}

impl<T> AppLocal<T> {
    /// No values.
    pub fn new() -> (r: AppLocal<T>)
        ensures
            r.values@.len() == 0,
    {
        AppLocal { values: Vec::new() }
    }

    fn position(&self, id: AppId) -> (r: Option<usize>)
        ensures
            match r {
                Some(i) => i < self.values@.len() && self.values@[i as int].0 == id,
                None => !has_app(self.values@, id),
            },
    {
        let mut i: usize = 0;
        while i < self.values.len()
            invariant
                i <= self.values@.len(),
                forall|j: int| 0 <= j < i ==> (#[trigger] self.values@[j]).0 != id,
            decreases self.values@.len() - i,
        {
            if self.values[i].0 == id {
                return Some(i);
            }
            i = i + 1;
        }
        None
    }

    /// The value of the app `id`, created with `init` if the app has none yet.
    pub fn read<F: FnOnce() -> T>(&mut self, id: AppId, init: F) -> (r: &T)
        requires
            apps_unique(old(self).values@),
            init.requires(()),
        ensures
            apps_unique(final(self).values@),
            has_app(old(self).values@, id) ==> final(self).values@ == old(self).values@ && exists|i: int|
                0 <= i < old(self).values@.len() && old(self).values@[i].0 == id && *r == old(self).values@[i].1,
            !has_app(old(self).values@, id) ==> final(self).values@.len() == old(self).values@.len() + 1
                && final(self).values@.drop_last() == old(self).values@ && final(self).values@.last().0 == id
                && *r == final(self).values@.last().1 && init.ensures((), *r),
    {
        match self.position(id) {
            Some(i) => &self.values[i].1,
            None => {
                let v = init();
                let i = self.values.len();
                self.values.push((id, v));
                proof {
                    assert forall|a: int, b: int| 0 <= a < b < self.values@.len() implies (
                    #[trigger] self.values@[a]).0 != (#[trigger] self.values@[b]).0 by {
                        if b == i as int {
                            assert(old(self).values@[a].0 != id);
                        }
                    }
                    assert(self.values@.drop_last() =~= old(self).values@);
                }
                &self.values[i].1
            },
        }
    }

    /// Sets the value of the app `id`.
    pub fn set(&mut self, id: AppId, value: T)
        requires
            apps_unique(old(self).values@),
        ensures
            apps_unique(final(self).values@),
            has_app(old(self).values@, id) ==> exists|i: int|
                0 <= i < old(self).values@.len() && old(self).values@[i].0 == id && final(self).values@
                    == old(self).values@.update(i, (id, value)),
            !has_app(old(self).values@, id) ==> final(self).values@ == old(self).values@.push((id, value)),
    {
        match self.position(id) {
            Some(i) => {
                let mut e = (id, value);
                self.values.set_and_swap(i, &mut e);
                proof {
                    assert forall|a: int, b: int| 0 <= a < b < self.values@.len() implies (
                    #[trigger] self.values@[a]).0 != (#[trigger] self.values@[b]).0 by {
                        assert(self.values@[a].0 == old(self).values@[a].0);
                        assert(self.values@[b].0 == old(self).values@[b].0);
                    }
                }
            },
            None => {
                self.values.push((id, value));
                proof {
                    assert forall|a: int, b: int| 0 <= a < b < self.values@.len() implies (
                    #[trigger] self.values@[a]).0 != (#[trigger] self.values@[b]).0 by {
                        if b == self.values@.len() - 1 {
                            assert(old(self).values@[a].0 != id);
                        }
                    }
                }
            },
        }
    }

    /// Drops the value of an app that ended.
    pub fn cleanup(&mut self, id: AppId)
        requires
            apps_unique(old(self).values@),
        ensures
            apps_unique(final(self).values@),
            !has_app(final(self).values@, id),
            forall|x: AppId| x != id ==> (has_app(final(self).values@, x) <==> has_app(old(self).values@, x)),
            forall|i: int| 0 <= i < final(self).values@.len() ==> old(self).values@.contains(#[trigger] final(self).values@[i]),
    {
        match self.position(id) {
            Some(i) => {
                self.values.swap_remove(i);
                proof {
                    let o = old(self).values@;
                    let n = self.values@;
                    assert forall|k: int| 0 <= k < n.len() implies (#[trigger] n[k]) == (if k == i { o.last() } else { o[k] }) by {}
                    assert forall|a: int, b: int| 0 <= a < b < n.len() implies (#[trigger] n[a]).0 != (#[trigger] n[b]).0 by {
                        let a2 = if a == i { o.len() - 1 } else { a };
                        let b2 = if b == i { o.len() - 1 } else { b };
                        assert(n[a] == o[a2]);
                        assert(n[b] == o[b2]);
                        if a2 < b2 {
                            assert(o[a2].0 != o[b2].0);
                        } else {
                            assert(o[b2].0 != o[a2].0);
                        }
                    }
                    assert forall|k: int| 0 <= k < n.len() implies n[k].0 != id by {
                        let k2 = if k == i { o.len() - 1 } else { k };
                        assert(n[k] == o[k2]);
                        if k2 < i {
                            assert(o[k2].0 != o[i as int].0);
                        } else if k2 > i {
                            assert(o[i as int].0 != o[k2].0);
                        }
                    }
                    assert forall|x: AppId| x != id implies (has_app(n, x) <==> has_app(o, x)) by {
                        if has_app(o, x) {
                            let k = choose|k: int| 0 <= k < o.len() && (#[trigger] o[k]).0 == x;
                            if k == o.len() - 1 && i < o.len() - 1 {
                                assert(n[i as int] == o[k]);
                            } else if k != i {
                                assert(n[k] == o[k]);
                            }
                        }
                        if has_app(n, x) {
                            let k = choose|k: int| 0 <= k < n.len() && (#[trigger] n[k]).0 == x;
                            let k2 = if k == i { o.len() - 1 } else { k };
                            assert(n[k] == o[k2]);
                        }
                    }
                    assert forall|k: int| 0 <= k < n.len() implies o.contains(#[trigger] n[k]) by {
                        let k2 = if k == i { o.len() - 1 } else { k };
                        assert(n[k] == o[k2]);
                    }
                }
            },
            None => {},
        }
    }
}

/// A name given to an unnamed id is read back, and the names stay consistent.
pub proof fn law_name_read_back(e: Seq<(String, AppId)>, id: AppId, name: String)
    requires
        names_wf(e),
        !is_named(e, id),
        !name_used(e, name@),
        name@.len() > 0,
    ensures
        names_wf(e.push((name, id))),
        name_of(e.push((name, id)), id) == name@,
        id_of(e.push((name, id)), name@) == id,
{
    let n = e.push((name, id));
    let last = e.len() as int;
    assert forall|i: int, j: int| 0 <= i < j < n.len() implies (#[trigger] n[i]).1 != (#[trigger] n[j]).1 && n[i].0@
        != n[j].0@ by {
        if j == last {
            assert(n[i] == e[i]);
        }
    }
    assert(n[last].1 == id);
    assert(is_named(n, id));
    let c = choose|i: int| 0 <= i < n.len() && (#[trigger] n[i]).1 == id;
    if c != last {
        assert(n[c] == e[c]);
    }
    assert(n[last].0@ == name@);
    assert(name_used(n, name@));
    let d = choose|i: int| 0 <= i < n.len() && (#[trigger] n[i]).0@ == name@;
    if d != last {
        assert(n[d] == e[d]);
    }
}

/// Naming an unnamed id with a new name keeps the names consistent and every name already
/// given.
proof fn lemma_push_keeps_names(e: Seq<(String, AppId)>, other: AppId, name: String, id: AppId)
    requires
        names_wf(e),
        !is_named(e, other),
        !name_used(e, name@),
        name@.len() > 0,
        is_named(e, id),
    ensures
        names_wf(e.push((name, other))),
        is_named(e.push((name, other)), id),
        name_of(e.push((name, other)), id) == name_of(e, id),
{
    let n = e.push((name, other));
    let last = e.len() as int;
    assert forall|i: int, j: int| 0 <= i < j < n.len() implies (#[trigger] n[i]).1 != (#[trigger] n[j]).1 && n[i].0@
        != n[j].0@ by {
        if j == last {
            assert(n[i] == e[i]);
        }
    }
    let c = choose|i: int| 0 <= i < e.len() && (#[trigger] e[i]).1 == id;
    assert(n[c] == e[c]);
    assert(is_named(n, id));
    let d = choose|i: int| 0 <= i < n.len() && (#[trigger] n[i]).1 == id;
    assert(d != last);
    assert(n[d] == e[d]);
    if d != c {
        if d < c {
            assert(e[d].1 != e[c].1);
        } else {
            assert(e[c].1 != e[d].1);
        }
    }
}

/// Once an id has a name, it keeps that name whatever names are set afterwards, on it or on
/// other ids, and the names stay consistent.
pub proof fn law_name_stays(e: Seq<(String, AppId)>, id: AppId, calls: Seq<(AppId, String)>)
    requires
        names_wf(e),
        is_named(e, id),
    ensures
        names_wf(names_after(e, calls)),
        is_named(names_after(e, calls), id),
        name_of(names_after(e, calls), id) == name_of(e, id),
    decreases calls.len(),
{
    if calls.len() > 0 {
        law_name_stays(e, id, calls.drop_last());
        let before = names_after(e, calls.drop_last());
        let (other, name) = calls.last();
        if name@.len() > 0 && !name_used(before, name@) && !is_named(before, other) {
            lemma_push_keeps_names(before, other, name, id);
        }
    }
}

} // verus!
