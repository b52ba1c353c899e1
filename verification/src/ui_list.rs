//! Widget and node vectors that can be edited at runtime.
//!
//! A [`WidgetVec`] owns its widgets and a [`WidgetVecRef`] controller. Edits requested through
//! the controller (insert, push, remove, move, clear) are queued and applied in one batch by
//! [`WidgetVec::fullfill_requests`], which reports each change as a [`ListChange`].
use vstd::prelude::*;

verus! {

/// Unique identifier of a widget.
#[derive(Clone, Copy, Debug, PartialEq, Eq, Hash, Structural)]
pub struct WidgetId(pub u64);

/// A widget in a list: its identity and whether it is initialized in a context.
#[derive(Clone, Copy, Debug, PartialEq, Eq, Hash, Structural)]
pub struct BoxedWidget {
    pub id: WidgetId,
    pub inited: bool,
}

impl BoxedWidget {
    /// A new, not initialized widget.
    pub fn new(id: WidgetId) -> (r: BoxedWidget)
        ensures
            r.id == id,
            !r.inited,
    {
        BoxedWidget { id, inited: false }
    }

    /// The widget identifier.
    pub fn id(&self) -> (r: WidgetId)
        ensures
            r == self.id,
    {
        self.id
    }

    /// Initializes the widget.
    pub fn init(&mut self)
        ensures
            final(self).id == old(self).id,
            final(self).inited,
    {
        self.inited = true;
    }

    /// Deinitializes the widget.
    pub fn deinit(&mut self)
        ensures
            final(self).id == old(self).id,
            !final(self).inited,
    {
        self.inited = false;
    }
}

/// The widget `w` after initialization.
pub open spec fn inited(w: BoxedWidget) -> BoxedWidget {
    BoxedWidget { id: w.id, inited: true }
}

/// A change applied to a list, as reported to list observers.
#[derive(Clone, Copy, Debug, PartialEq, Eq, Structural)]
pub enum ListChange {
    /// All items were removed, the list was rebuilt.
    Reseted,
    /// The item at the index was removed.
    Removed(usize),
    /// An item was inserted at the index.
    Inserted(usize),
    /// The item at the first index was moved to the second index.
    Moved(usize, usize),
}

/// Where a widget found by id is moved, computed from its index and the list length.
#[derive(Clone, Copy, Debug, PartialEq, Eq, Structural)]
pub enum WidgetMoveTo {
    /// One position up, stopping at the top: `i.saturating_sub(1)`.
    Prev,
    /// One position down, stopping at the bottom: `i.saturating_add(1)`.
    Next,
    /// One position down, wrapping to the top after the last item.
    NextWrap,
    /// A fixed index.
    Index(usize),
}

/// Index that a widget at `i` in a list of length `len` is moved to.
pub open spec fn move_to_spec(m: WidgetMoveTo, i: usize, len: usize) -> usize {
    match m {
        WidgetMoveTo::Prev => if i == 0 { 0 } else { (i - 1) as usize },
        WidgetMoveTo::Next => if i == usize::MAX { usize::MAX } else { (i + 1) as usize },
        WidgetMoveTo::NextWrap => {
            let next: usize = if i == usize::MAX { usize::MAX } else { (i + 1) as usize };
            if next < len { next } else { 0 }
        },
        WidgetMoveTo::Index(k) => k,
    }
}

impl WidgetMoveTo {
    /// Index that a widget at `index` in a list of length `len` is moved to.
    pub fn move_to(&self, index: usize, len: usize) -> (r: usize)
        ensures
            r == move_to_spec(*self, index, len),
    {
        match self {
            WidgetMoveTo::Prev => index.saturating_sub(1),
            WidgetMoveTo::Next => index.saturating_add(1),
            WidgetMoveTo::NextWrap => {
                let next = index.saturating_add(1);
                if next < len {
                    next
                } else {
                    0
                }
            },
            WidgetMoveTo::Index(k) => *k,
        }
    }
}

/// `p` is the first index of a widget with `id` in `s`.
pub open spec fn is_first_pos(s: Seq<BoxedWidget>, id: WidgetId, p: int) -> bool {
    &&& 0 <= p < s.len()
    &&& s[p].id == id
    &&& forall|j: int| 0 <= j < p ==> s[j].id != id
}

/// The first index of a widget with `id` in `s`, or `-1`.
pub open spec fn first_pos(s: Seq<BoxedWidget>, id: WidgetId) -> int {
    if exists|p: int| is_first_pos(s, id, p) {
        choose|p: int| is_first_pos(s, id, p)
    } else {
        -1
    }
}

proof fn lemma_first_pos_unique(s: Seq<BoxedWidget>, id: WidgetId, p: int)
    requires
        is_first_pos(s, id, p),
    ensures
        first_pos(s, id) == p,
{
    let q = choose|q: int| is_first_pos(s, id, q);
    assert(is_first_pos(s, id, q));
    if q < p {
        assert(s[q].id != id);
    }
    if p < q {
        assert(s[p].id != id);
    }
}

proof fn lemma_first_pos_none(s: Seq<BoxedWidget>, id: WidgetId)
    requires
        forall|j: int| 0 <= j < s.len() ==> s[j].id != id,
    ensures
        first_pos(s, id) == -1,
{
    if exists|p: int| is_first_pos(s, id, p) {
        let p = choose|p: int| is_first_pos(s, id, p);
        assert(s[p].id == id);
    }
}

/// Index of the first widget with `id`.
pub fn position(v: &Vec<BoxedWidget>, id: WidgetId) -> (r: Option<usize>)
    ensures
        r matches Some(p) ==> first_pos(v@, id) == p,
        r is None ==> first_pos(v@, id) == -1,
{
    let mut i: usize = 0;
    while i < v.len()
        invariant
            i <= v@.len(),
            forall|j: int| 0 <= j < i ==> v@[j].id != id,
        decreases v@.len() - i,
    {
        if v[i].id.0 == id.0 {
            proof {
                lemma_first_pos_unique(v@, id, i as int);
            }
            return Some(i);
        }
        i = i + 1;
    }
    proof {
        lemma_first_pos_none(v@, id);
    }
    None
}

/// List items and reported changes.
pub type ListState = (Seq<BoxedWidget>, Seq<ListChange>);

/// The changes with `c` reported when `notify`.
pub open spec fn note(changes: Seq<ListChange>, notify: bool, c: ListChange) -> Seq<ListChange> {
    if notify { changes.push(c) } else { changes }
}

/// Removes the first widget with `id`, if any.
pub open spec fn remove_step(st: ListState, id: WidgetId) -> ListState {
    let p = first_pos(st.0, id);
    if p >= 0 {
        (st.0.remove(p), st.1.push(ListChange::Removed(p as usize)))
    } else {
        st
    }
}

/// Applies the remove requests in order.
pub open spec fn remove_all(st: ListState, ids: Seq<WidgetId>) -> ListState
    decreases ids.len(),
{
    if ids.len() == 0 {
        st
    } else {
        remove_step(remove_all(st, ids.drop_last()), ids.last())
    }
}

/// Inserts the initialized widget at `i`, or pushes it when `i` is out of bounds.
pub open spec fn insert_step(st: ListState, req: (usize, BoxedWidget), notify: bool) -> ListState {
    let (i, w) = req;
    if i < st.0.len() {
        (st.0.insert(i as int, inited(w)), note(st.1, notify, ListChange::Inserted(i)))
    } else {
        (st.0.push(inited(w)), note(st.1, notify, ListChange::Inserted(st.0.len() as usize)))
    }
}

/// Applies the insert requests in order.
pub open spec fn insert_all(st: ListState, reqs: Seq<(usize, BoxedWidget)>, notify: bool) -> ListState
    decreases reqs.len(),
{
    if reqs.len() == 0 {
        st
    } else {
        insert_step(insert_all(st, reqs.drop_last(), notify), reqs.last(), notify)
    }
}

/// Pushes the initialized widget.
pub open spec fn push_step(st: ListState, w: BoxedWidget, notify: bool) -> ListState {
    (st.0.push(inited(w)), note(st.1, notify, ListChange::Inserted(st.0.len() as usize)))
}

/// Applies the push requests in order.
pub open spec fn push_all(st: ListState, reqs: Seq<BoxedWidget>, notify: bool) -> ListState
    decreases reqs.len(),
{
    if reqs.len() == 0 {
        st
    } else {
        push_step(push_all(st, reqs.drop_last(), notify), reqs.last(), notify)
    }
}

/// Removes the item at `r` and re-inserts it at `i`, or pushes it when `i` is out of bounds
/// after the removal.
pub open spec fn relocate(st: ListState, r: usize, i: usize, notify: bool) -> ListState {
    let w = st.0[r as int];
    let s1 = st.0.remove(r as int);
    if i < s1.len() {
        (s1.insert(i as int, w), note(st.1, notify, ListChange::Moved(r, i)))
    } else {
        (s1.push(w), note(st.1, notify, ListChange::Moved(r, s1.len() as usize)))
    }
}

/// Moves the item at `r` to `i`; nothing happens when `r` is out of bounds.
pub open spec fn move_index_step(st: ListState, req: (usize, usize), notify: bool) -> ListState {
    let (r, i) = req;
    if r < st.0.len() {
        relocate(st, r, i, notify)
    } else {
        st
    }
}

/// Applies the index moves in order.
pub open spec fn move_index_all(st: ListState, reqs: Seq<(usize, usize)>, notify: bool) -> ListState
    decreases reqs.len(),
{
    if reqs.len() == 0 {
        st
    } else {
        move_index_step(move_index_all(st, reqs.drop_last(), notify), reqs.last(), notify)
    }
}

/// Moves the first widget with `id` to the index its rule gives; nothing happens when the
/// widget is not found or the index is the same.
pub open spec fn move_id_step(st: ListState, req: (WidgetId, WidgetMoveTo), notify: bool) -> ListState {
    let (id, to) = req;
    let p = first_pos(st.0, id);
    if p >= 0 {
        let i = move_to_spec(to, p as usize, st.0.len() as usize);
        if p != i {
            relocate(st, p as usize, i, notify)
        } else {
            st
        }
    } else {
        st
    }
}

/// Applies the moves by id in order.
pub open spec fn move_id_all(st: ListState, reqs: Seq<(WidgetId, WidgetMoveTo)>, notify: bool) -> ListState
    decreases reqs.len(),
{
    if reqs.len() == 0 {
        st
    } else {
        move_id_step(move_id_all(st, reqs.drop_last(), notify), reqs.last(), notify)
    }
}

/// Applies a batch of requests to the list `s`.
///
/// With `clear` the list is emptied (reported as one [`ListChange::Reseted`]), the remove
/// requests are ignored and the other edits are not reported. Otherwise removes happen first,
/// then inserts, pushes, index moves and id moves, each reported.
pub open spec fn apply_requests(
    s: Seq<BoxedWidget>,
    clear: bool,
    remove: Seq<WidgetId>,
    insert: Seq<(usize, BoxedWidget)>,
    push: Seq<BoxedWidget>,
    move_index: Seq<(usize, usize)>,
    move_id: Seq<(WidgetId, WidgetMoveTo)>,
) -> ListState {
    if clear {
        let st: ListState = (Seq::empty(), seq![ListChange::Reseted]);
        move_id_all(
            move_index_all(push_all(insert_all(st, insert, false), push, false), move_index, false),
            move_id,
            false,
        )
    } else {
        let st = remove_all((s, Seq::empty()), remove);
        move_id_all(
            move_index_all(push_all(insert_all(st, insert, true), push, true), move_index, true),
            move_id,
            true,
        )
    }
}

/// Update requests collected while handling list edits.
pub struct Updates {
    requests: Vec<Option<WidgetId>>,
}

impl Updates {
    /// No requests.
    pub fn new() -> (r: Updates)
        ensures
            r@ == Seq::<Option<WidgetId>>::empty(),
    {
        Updates { requests: Vec::new() }
    }

    /// Request an update of the `target` widget, or of the app when `None`.
    pub fn update(&mut self, target: Option<WidgetId>)
        ensures
            final(self)@ == old(self)@.push(target),
    {
        self.requests.push(target);
    }

    /// The requested update targets, in request order.
    pub fn requests(&self) -> (r: &Vec<Option<WidgetId>>)
        ensures
            r@ == self@,
    {
        &self.requests
    }
}

impl View for Updates {
    type V = Seq<Option<WidgetId>>;

    closed spec fn view(&self) -> Seq<Option<WidgetId>> {
        self.requests@
    }
}

/// Controller of a [`WidgetVec`]: queues insert, push, remove, move and clear requests that the
/// vector applies in its next update.
pub struct WidgetVecRef {
    target: Option<WidgetId>,
    insert: Vec<(usize, BoxedWidget)>,
    push: Vec<BoxedWidget>,
    remove: Vec<WidgetId>,
    move_index: Vec<(usize, usize)>,
    move_id: Vec<(WidgetId, WidgetMoveTo)>,
    clear: bool,
    alive: bool,
}

impl WidgetVecRef {
    /// Widget that owns the list, updated when a request is made.
    pub closed spec fn target(self) -> Option<WidgetId> {
        self.target
    }

    pub closed spec fn is_alive(self) -> bool {
        self.alive
    }

    pub closed spec fn clear_requested(self) -> bool {
        self.clear
    }

    pub closed spec fn insert_requests(self) -> Seq<(usize, BoxedWidget)> {
        self.insert@
    }

    pub closed spec fn push_requests(self) -> Seq<BoxedWidget> {
        self.push@
    }

    pub closed spec fn remove_requests(self) -> Seq<WidgetId> {
        self.remove@
    }

    pub closed spec fn move_index_requests(self) -> Seq<(usize, usize)> {
        self.move_index@
    }

    pub closed spec fn move_id_requests(self) -> Seq<(WidgetId, WidgetMoveTo)> {
        self.move_id@
    }

    /// No request is queued.
    pub open spec fn is_idle(self) -> bool {
        &&& !self.clear_requested()
        &&& self.insert_requests().len() == 0
        &&& self.push_requests().len() == 0
        &&& self.remove_requests().len() == 0
        &&& self.move_index_requests().len() == 0
        &&& self.move_id_requests().len() == 0
    }

    /// The list `s` after the queued requests are applied, with the changes reported.
    pub open spec fn applied_to(self, s: Seq<BoxedWidget>) -> ListState {
        apply_requests(
            s,
            self.clear_requested(),
            self.remove_requests(),
            self.insert_requests(),
            self.push_requests(),
            self.move_index_requests(),
            self.move_id_requests(),
        )
    }

    /// The same requests, target and liveness.
    pub open spec fn same_queue(self, other: WidgetVecRef) -> bool {
        &&& self.target() == other.target()
        &&& self.is_alive() == other.is_alive()
        &&& self.clear_requested() == other.clear_requested()
        &&& self.insert_requests() == other.insert_requests()
        &&& self.push_requests() == other.push_requests()
        &&& self.remove_requests() == other.remove_requests()
        &&& self.move_index_requests() == other.move_index_requests()
        &&& self.move_id_requests() == other.move_id_requests()
    }

    /// A live controller with no target and no requests.
    pub fn new() -> (r: WidgetVecRef)
        ensures
            r.is_idle(),
            r.is_alive(),
            r.target() is None,
    {
        WidgetVecRef {
            target: None,
            insert: Vec::new(),
            push: Vec::new(),
            remove: Vec::new(),
            move_index: Vec::new(),
            move_id: Vec::new(),
            clear: false,
            alive: true,
        }
    }

    /// Returns `true` if the [`WidgetVec`] still exists.
    pub fn alive(&self) -> (r: bool)
        ensures
            r == self.is_alive(),
    {
        self.alive
    }

    /// Request the insertion of `widget` at `index`; the index is resolved after all remove
    /// requests and the widget is pushed when it is out of bounds.
    pub fn insert(&mut self, updates: &mut Updates, index: usize, widget: BoxedWidget)
        ensures
            final(self).insert_requests() == old(self).insert_requests().push((index, widget)),
            final(self).push_requests() == old(self).push_requests(),
            final(self).remove_requests() == old(self).remove_requests(),
            final(self).move_index_requests() == old(self).move_index_requests(),
            final(self).move_id_requests() == old(self).move_id_requests(),
            final(self).clear_requested() == old(self).clear_requested(),
            final(self).target() == old(self).target(),
            final(self).is_alive() == old(self).is_alive(),
            final(updates)@ == old(updates)@.push(old(self).target()),
    {
        self.insert.push((index, widget));
        updates.update(self.target);
    }

    /// Request the insertion of `widget` at the end of the list, after all insert requests.
    pub fn push(&mut self, updates: &mut Updates, widget: BoxedWidget)
        ensures
            final(self).push_requests() == old(self).push_requests().push(widget),
            final(self).insert_requests() == old(self).insert_requests(),
            final(self).remove_requests() == old(self).remove_requests(),
            final(self).move_index_requests() == old(self).move_index_requests(),
            final(self).move_id_requests() == old(self).move_id_requests(),
            final(self).clear_requested() == old(self).clear_requested(),
            final(self).target() == old(self).target(),
            final(self).is_alive() == old(self).is_alive(),
            final(updates)@ == old(updates)@.push(old(self).target()),
    {
        self.push.push(widget);
        updates.update(self.target);
    }

    /// Request the removal of the widget identified by `id`; nothing happens if it is not found.
    pub fn remove(&mut self, updates: &mut Updates, id: WidgetId)
        ensures
            final(self).remove_requests() == old(self).remove_requests().push(id),
            final(self).insert_requests() == old(self).insert_requests(),
            final(self).push_requests() == old(self).push_requests(),
            final(self).move_index_requests() == old(self).move_index_requests(),
            final(self).move_id_requests() == old(self).move_id_requests(),
            final(self).clear_requested() == old(self).clear_requested(),
            final(self).target() == old(self).target(),
            final(self).is_alive() == old(self).is_alive(),
            final(updates)@ == old(updates)@.push(old(self).target()),
    {
        self.remove.push(id);
        updates.update(self.target);
    }

    /// Request a widget remove and re-insert; nothing is requested if the indexes are equal.
    pub fn move_index(&mut self, updates: &mut Updates, remove_index: usize, insert_index: usize)
        ensures
            remove_index == insert_index ==> final(self).same_queue(*old(self)) && final(updates)@
                == old(updates)@,
            remove_index != insert_index ==> {
                &&& final(self).move_index_requests() == old(self).move_index_requests().push(
                    (remove_index, insert_index),
                )
                &&& final(updates)@ == old(updates)@.push(old(self).target())
            },
            final(self).insert_requests() == old(self).insert_requests(),
            final(self).push_requests() == old(self).push_requests(),
            final(self).remove_requests() == old(self).remove_requests(),
            final(self).move_id_requests() == old(self).move_id_requests(),
            final(self).clear_requested() == old(self).clear_requested(),
            final(self).target() == old(self).target(),
            final(self).is_alive() == old(self).is_alive(),
    {
        if remove_index != insert_index {
            self.move_index.push((remove_index, insert_index));
            updates.update(self.target);
        }
    }

    /// Request a move of the widget identified by `id` to the index that `get_move_to` gives.
    pub fn move_id(&mut self, updates: &mut Updates, id: WidgetId, get_move_to: WidgetMoveTo)
        ensures
            final(self).move_id_requests() == old(self).move_id_requests().push((id, get_move_to)),
            final(self).insert_requests() == old(self).insert_requests(),
            final(self).push_requests() == old(self).push_requests(),
            final(self).remove_requests() == old(self).remove_requests(),
            final(self).move_index_requests() == old(self).move_index_requests(),
            final(self).clear_requested() == old(self).clear_requested(),
            final(self).target() == old(self).target(),
            final(self).is_alive() == old(self).is_alive(),
            final(updates)@ == old(updates)@.push(old(self).target()),
    {
        self.move_id.push((id, get_move_to));
        updates.update(self.target);
    }

    /// Request the removal of all current widgets; the other requests happen after the clear.
    pub fn clear(&mut self, updates: &mut Updates)
        ensures
            final(self).clear_requested(),
            final(self).insert_requests() == old(self).insert_requests(),
            final(self).push_requests() == old(self).push_requests(),
            final(self).remove_requests() == old(self).remove_requests(),
            final(self).move_index_requests() == old(self).move_index_requests(),
            final(self).move_id_requests() == old(self).move_id_requests(),
            final(self).target() == old(self).target(),
            final(self).is_alive() == old(self).is_alive(),
            final(updates)@ == old(updates)@.push(old(self).target()),
    {
        self.clear = true;
        updates.update(self.target);
    }

    /// Takes the queued requests, leaving the controller idle with the same target and liveness;
    /// `None` when no request is queued.
    fn take_requests(&mut self) -> (r: Option<WidgetVecRef>)
        ensures
            final(self).is_idle(),
            final(self).target() == old(self).target(),
            final(self).is_alive() == old(self).is_alive(),
            old(self).is_idle() ==> r is None,
            !old(self).is_idle() ==> (r matches Some(q) && q.same_queue(*old(self))),
    {
        if self.clear || self.insert.len() > 0 || self.push.len() > 0 || self.remove.len() > 0
            || self.move_index.len() > 0 || self.move_id.len() > 0 {
            let mut taken = WidgetVecRef {
                target: self.target,
                alive: self.alive,
                insert: Vec::new(),
                push: Vec::new(),
                remove: Vec::new(),
                move_index: Vec::new(),
                move_id: Vec::new(),
                clear: false,
            };
            std::mem::swap(self, &mut taken);
            Some(taken)
        } else {
            None
        }
    }
}

/// Removes the first widget with each id in turn, deinitializing it.
fn apply_remove(vec: &mut Vec<BoxedWidget>, changes: &mut Vec<ListChange>, ids: &Vec<WidgetId>)
    ensures
        final(vec)@ == remove_all((old(vec)@, old(changes)@), ids@).0,
        final(changes)@ == remove_all((old(vec)@, old(changes)@), ids@).1,
{
    let ghost st0: ListState = (vec@, changes@);
    let mut k: usize = 0;
    while k < ids.len()
        invariant
            k <= ids@.len(),
            vec@ == remove_all(st0, ids@.take(k as int)).0,
            changes@ == remove_all(st0, ids@.take(k as int)).1,
        decreases ids@.len() - k,
    {
        let id = ids[k];
        proof {
            assert(ids@.take(k + 1).drop_last() =~= ids@.take(k as int));
            assert(ids@.take(k + 1).last() == id);
        }
        match position(vec, id) {
            Some(i) => {
                let mut w = vec.remove(i);
                w.deinit();
                changes.push(ListChange::Removed(i));
            },
            None => {},
        }
        k = k + 1;
    }
    proof {
        assert(ids@.take(ids@.len() as int) =~= ids@);
    }
}

/// Inserts each widget initialized at its index, or pushes it when the index is out of bounds.
fn apply_insert(
    vec: &mut Vec<BoxedWidget>,
    changes: &mut Vec<ListChange>,
    reqs: &Vec<(usize, BoxedWidget)>,
    notify: bool,
)
    ensures
        final(vec)@ == insert_all((old(vec)@, old(changes)@), reqs@, notify).0,
        final(changes)@ == insert_all((old(vec)@, old(changes)@), reqs@, notify).1,
{
    let ghost st0: ListState = (vec@, changes@);
    let mut k: usize = 0;
    while k < reqs.len()
        invariant
            k <= reqs@.len(),
            vec@ == insert_all(st0, reqs@.take(k as int), notify).0,
            changes@ == insert_all(st0, reqs@.take(k as int), notify).1,
        decreases reqs@.len() - k,
    {
        let (i, w) = reqs[k];
        proof {
            assert(reqs@.take(k + 1).drop_last() =~= reqs@.take(k as int));
            assert(reqs@.take(k + 1).last() == (i, w));
        }
        let mut w = w;
        w.init();
        assert(w == inited(reqs@[k as int].1));
        if i < vec.len() {
            vec.insert(i, w);
            if notify {
                changes.push(ListChange::Inserted(i));
            }
        } else {
            let len = vec.len();
            vec.push(w);
            if notify {
                changes.push(ListChange::Inserted(len));
            }
        }
        k = k + 1;
    }
    proof {
        assert(reqs@.take(reqs@.len() as int) =~= reqs@);
    }
}

/// Pushes each widget initialized.
fn apply_push(vec: &mut Vec<BoxedWidget>, changes: &mut Vec<ListChange>, reqs: &Vec<BoxedWidget>, notify: bool)
    ensures
        final(vec)@ == push_all((old(vec)@, old(changes)@), reqs@, notify).0,
        final(changes)@ == push_all((old(vec)@, old(changes)@), reqs@, notify).1,
{
    let ghost st0: ListState = (vec@, changes@);
    let mut k: usize = 0;
    while k < reqs.len()
        invariant
            k <= reqs@.len(),
            vec@ == push_all(st0, reqs@.take(k as int), notify).0,
            changes@ == push_all(st0, reqs@.take(k as int), notify).1,
        decreases reqs@.len() - k,
    {
        let mut w = reqs[k];
        proof {
            assert(reqs@.take(k + 1).drop_last() =~= reqs@.take(k as int));
            assert(reqs@.take(k + 1).last() == w);
        }
        w.init();
        let len = vec.len();
        vec.push(w);
        if notify {
            changes.push(ListChange::Inserted(len));
        }
        k = k + 1;
    }
    proof {
        assert(reqs@.take(reqs@.len() as int) =~= reqs@);
    }
}

/// Moves the item at `r` to `i`, pushing it when `i` is out of bounds after the removal.
fn apply_relocate(vec: &mut Vec<BoxedWidget>, changes: &mut Vec<ListChange>, r: usize, i: usize, notify: bool)
    requires
        r < old(vec)@.len(),
    ensures
        final(vec)@ == relocate((old(vec)@, old(changes)@), r, i, notify).0,
        final(changes)@ == relocate((old(vec)@, old(changes)@), r, i, notify).1,
{
    let w = vec.remove(r);
    if i < vec.len() {
        vec.insert(i, w);
        if notify {
            changes.push(ListChange::Moved(r, i));
        }
    } else {
        let len = vec.len();
        vec.push(w);
        if notify {
            changes.push(ListChange::Moved(r, len));
        }
    }
}

fn apply_move_index(
    vec: &mut Vec<BoxedWidget>,
    changes: &mut Vec<ListChange>,
    reqs: &Vec<(usize, usize)>,
    notify: bool,
)
    ensures
        final(vec)@ == move_index_all((old(vec)@, old(changes)@), reqs@, notify).0,
        final(changes)@ == move_index_all((old(vec)@, old(changes)@), reqs@, notify).1,
{
    let ghost st0: ListState = (vec@, changes@);
    let mut k: usize = 0;
    while k < reqs.len()
        invariant
            k <= reqs@.len(),
            vec@ == move_index_all(st0, reqs@.take(k as int), notify).0,
            changes@ == move_index_all(st0, reqs@.take(k as int), notify).1,
        decreases reqs@.len() - k,
    {
        let (r, i) = reqs[k];
        proof {
            assert(reqs@.take(k + 1).drop_last() =~= reqs@.take(k as int));
            assert(reqs@.take(k + 1).last() == (r, i));
        }
        if r < vec.len() {
            apply_relocate(vec, changes, r, i, notify);
        }
        k = k + 1;
    }
    proof {
        assert(reqs@.take(reqs@.len() as int) =~= reqs@);
    }
}

fn apply_move_id(
    vec: &mut Vec<BoxedWidget>,
    changes: &mut Vec<ListChange>,
    reqs: &Vec<(WidgetId, WidgetMoveTo)>,
    notify: bool,
)
    ensures
        final(vec)@ == move_id_all((old(vec)@, old(changes)@), reqs@, notify).0,
        final(changes)@ == move_id_all((old(vec)@, old(changes)@), reqs@, notify).1,
{
    let ghost st0: ListState = (vec@, changes@);
    let mut k: usize = 0;
    while k < reqs.len()
        invariant
            k <= reqs@.len(),
            vec@ == move_id_all(st0, reqs@.take(k as int), notify).0,
            changes@ == move_id_all(st0, reqs@.take(k as int), notify).1,
        decreases reqs@.len() - k,
    {
        let (id, to) = reqs[k];
        proof {
            assert(reqs@.take(k + 1).drop_last() =~= reqs@.take(k as int));
            assert(reqs@.take(k + 1).last() == (id, to));
        }
        match position(vec, id) {
            Some(r) => {
                let i = to.move_to(r, vec.len());
                if r != i {
                    apply_relocate(vec, changes, r, i, notify);
                }
            },
            None => {},
        }
        k = k + 1;
    }
    proof {
        assert(reqs@.take(reqs@.len() as int) =~= reqs@);
    }
}

/// A vector of widgets that can be edited at runtime through its [`WidgetVecRef`].
pub struct WidgetVec {
    vec: Vec<BoxedWidget>,
    ctrl: WidgetVecRef,
}

impl View for WidgetVec {
    type V = Seq<BoxedWidget>;

    closed spec fn view(&self) -> Seq<BoxedWidget> {
        self.vec@
    }
}

impl WidgetVec {
    /// The controller of this vector.
    pub closed spec fn controller(self) -> WidgetVecRef {
        self.ctrl
    }

    /// New empty vector (default).
    pub fn new() -> (r: WidgetVec)
        ensures
            r@ == Seq::<BoxedWidget>::empty(),
            r.controller().is_idle(),
            r.controller().is_alive(),
            r.controller().target() is None,
    {
        WidgetVec { vec: Vec::new(), ctrl: WidgetVecRef::new() }
    }

    /// New empty vector with pre-allocated capacity.
    pub fn with_capacity(capacity: usize) -> (r: WidgetVec)
        ensures
            r@ == Seq::<BoxedWidget>::empty(),
            r.controller().is_idle(),
            r.controller().is_alive(),
            r.controller().target() is None,
    {
        WidgetVec { vec: Vec::with_capacity(capacity), ctrl: WidgetVecRef::new() }
    }

    /// A vector with the `vec` widgets and a new controller.
    pub fn from_vec(vec: Vec<BoxedWidget>) -> (r: WidgetVec)
        ensures
            r@ == vec@,
            r.controller().is_idle(),
            r.controller().is_alive(),
            r.controller().target() is None,
    {
        WidgetVec { vec, ctrl: WidgetVecRef::new() }
    }

    /// The controller that can insert, move and remove widgets after the vector is placed in
    /// a widget.
    pub fn reference(&mut self) -> (r: &mut WidgetVecRef)
        ensures
            *r == old(self).controller(),
            final(self).controller() == *final(r),
            final(self)@ == old(self)@,
    {
        &mut self.ctrl
    }

    /// Number of widgets.
    pub fn len(&self) -> (r: usize)
        ensures
            r == self@.len(),
    {
        self.vec.len()
    }

    /// If the vector has no widgets.
    pub fn is_empty(&self) -> (r: bool)
        ensures
            r == (self@.len() == 0),
    {
        self.vec.len() == 0
    }

    /// The widgets, in order.
    pub fn as_vec(&self) -> (r: &Vec<BoxedWidget>)
        ensures
            r@ == self@,
    {
        &self.vec
    }

    /// Appends the widget.
    pub fn push(&mut self, widget: BoxedWidget)
        ensures
            final(self)@ == old(self)@.push(widget),
            final(self).controller() == old(self).controller(),
    {
        self.vec.push(widget);
    }

    /// Inserts the widget at `index`.
    pub fn insert(&mut self, index: usize, widget: BoxedWidget)
        requires
            index <= old(self)@.len(),
        ensures
            final(self)@ == old(self)@.insert(index as int, widget),
            final(self).controller() == old(self).controller(),
    {
        self.vec.insert(index, widget);
    }

    /// The first widget with the `id`.
    pub fn get(&self, id: WidgetId) -> (r: Option<&BoxedWidget>)
        ensures
            first_pos(self@, id) >= 0 ==> r == Some(&self@[first_pos(self@, id)]),
            first_pos(self@, id) < 0 ==> r is None,
    {
        match position(&self.vec, id) {
            Some(i) => Some(&self.vec[i]),
            None => None,
        }
    }

    /// Removes and returns the first widget with the `id`, without affecting the order of the
    /// other widgets.
    pub fn remove(&mut self, id: WidgetId) -> (r: Option<BoxedWidget>)
        ensures
            first_pos(old(self)@, id) >= 0 ==> {
                &&& r == Some(old(self)@[first_pos(old(self)@, id)])
                &&& final(self)@ == old(self)@.remove(first_pos(old(self)@, id))
            },
            first_pos(old(self)@, id) < 0 ==> r is None && final(self)@ == old(self)@,
            final(self).controller() == old(self).controller(),
    {
        match position(&self.vec, id) {
            Some(i) => Some(self.vec.remove(i)),
            None => None,
        }
    }

    /// Initializes all widgets, the controller targets `widget_id` for updates.
    pub fn init_all(&mut self, widget_id: WidgetId)
        ensures
            final(self)@.len() == old(self)@.len(),
            forall|i: int| 0 <= i < old(self)@.len() ==> #[trigger] final(self)@[i] == inited(old(self)@[i]),
            final(self).controller().target() == Some(widget_id),
    {
        self.ctrl.target = Some(widget_id);
        let ghost s0 = self.vec@;
        let mut i: usize = 0;
        while i < self.vec.len()
            invariant
                self.vec@.len() == s0.len(),
                i <= s0.len(),
                forall|j: int| 0 <= j < i ==> #[trigger] self.vec@[j] == inited(s0[j]),
                forall|j: int| i <= j < s0.len() ==> #[trigger] self.vec@[j] == s0[j],
                self.ctrl.target == Some(widget_id),
            decreases s0.len() - i,
        {
            let mut w = self.vec[i];
            w.init();
            self.vec.set(i, w);
            i = i + 1;
        }
    }

    /// Deinitializes all widgets, the controller has no target.
    pub fn deinit_all(&mut self)
        ensures
            final(self)@.len() == old(self)@.len(),
            forall|i: int| 0 <= i < old(self)@.len() ==> #[trigger] final(self)@[i] == (BoxedWidget {
                id: old(self)@[i].id,
                inited: false,
            }),
            final(self).controller().target() is None,
    {
        self.ctrl.target = None;
        let ghost s0 = self.vec@;
        let mut i: usize = 0;
        while i < self.vec.len()
            invariant
                self.vec@.len() == s0.len(),
                i <= s0.len(),
                forall|j: int| 0 <= j < i ==> #[trigger] self.vec@[j] == (BoxedWidget {
                    id: s0[j].id,
                    inited: false,
                }),
                forall|j: int| i <= j < s0.len() ==> #[trigger] self.vec@[j] == s0[j],
                self.ctrl.target is None,
            decreases s0.len() - i,
        {
            let mut w = self.vec[i];
            w.deinit();
            self.vec.set(i, w);
            i = i + 1;
        }
    }

    /// Applies all requests queued in the controller and returns the reported changes; the
    /// controller is left idle with the same target and liveness.
    pub fn fullfill_requests(&mut self) -> (changes: Vec<ListChange>)
        ensures
            final(self)@ == old(self).controller().applied_to(old(self)@).0,
            changes@ == old(self).controller().applied_to(old(self)@).1,
            final(self).controller().is_idle(),
            final(self).controller().target() == old(self).controller().target(),
            final(self).controller().is_alive() == old(self).controller().is_alive(),
    {
        let mut changes: Vec<ListChange> = Vec::new();
        let ghost s0 = self.vec@;
        match self.ctrl.take_requests() {
            None => {
                proof {
                    let q = old(self).controller();
                    assert(q.remove_requests() =~= Seq::<WidgetId>::empty());
                    assert(q.insert_requests() =~= Seq::<(usize, BoxedWidget)>::empty());
                    assert(q.push_requests() =~= Seq::<BoxedWidget>::empty());
                    assert(q.move_index_requests() =~= Seq::<(usize, usize)>::empty());
                    assert(q.move_id_requests() =~= Seq::<(WidgetId, WidgetMoveTo)>::empty());
                    assert(changes@ =~= Seq::<ListChange>::empty());
                }
                changes
            },
            Some(r) => {
                if r.clear {
                    self.vec.clear();
                    changes.push(ListChange::Reseted);
                    assert(changes@ =~= seq![ListChange::Reseted]);
                    assert(self.vec@ =~= Seq::<BoxedWidget>::empty());
                    apply_insert(&mut self.vec, &mut changes, &r.insert, false);
                    apply_push(&mut self.vec, &mut changes, &r.push, false);
                    apply_move_index(&mut self.vec, &mut changes, &r.move_index, false);
                    apply_move_id(&mut self.vec, &mut changes, &r.move_id, false);
                } else {
                    assert(changes@ =~= Seq::<ListChange>::empty());
                    apply_remove(&mut self.vec, &mut changes, &r.remove);
                    apply_insert(&mut self.vec, &mut changes, &r.insert, true);
                    apply_push(&mut self.vec, &mut changes, &r.push, true);
                    apply_move_index(&mut self.vec, &mut changes, &r.move_index, true);
                    apply_move_id(&mut self.vec, &mut changes, &r.move_id, true);
                }
                changes
            },
        }
    }
}

/// A node in a node list: whether it is initialized in a context.
#[derive(Clone, Copy, Debug, PartialEq, Eq, Hash, Structural)]
pub struct BoxedUiNode {
    pub inited: bool,
}

/// A vector of nodes that can be modified at runtime.
pub struct UiNodeVec {
    vec: Vec<BoxedUiNode>,
}

impl View for UiNodeVec {
    type V = Seq<BoxedUiNode>;

    closed spec fn view(&self) -> Seq<BoxedUiNode> {
        self.vec@
    }
}

impl UiNodeVec {
    /// New empty vector (default).
    pub fn new() -> (r: UiNodeVec)
        ensures
            r@ == Seq::<BoxedUiNode>::empty(),
    {
        UiNodeVec { vec: Vec::new() }
    }

    /// New empty vector with pre-allocated capacity.
    pub fn with_capacity(capacity: usize) -> (r: UiNodeVec)
        ensures
            r@ == Seq::<BoxedUiNode>::empty(),
    {
        UiNodeVec { vec: Vec::with_capacity(capacity) }
    }

    /// Appends the node.
    pub fn push(&mut self, node: BoxedUiNode)
        ensures
            final(self)@ == old(self)@.push(node),
    {
        self.vec.push(node);
    }

    /// Inserts the node at `index`.
    pub fn insert(&mut self, index: usize, node: BoxedUiNode)
        requires
            index <= old(self)@.len(),
        ensures
            final(self)@ == old(self)@.insert(index as int, node),
    {
        self.vec.insert(index, node);
    }

    /// Number of nodes.
    pub fn len(&self) -> (r: usize)
        ensures
            r == self@.len(),
    {
        self.vec.len()
    }

    /// If the vector has no nodes.
    pub fn is_empty(&self) -> (r: bool)
        ensures
            r == (self@.len() == 0),
    {
        self.vec.len() == 0
    }
}

/// A remove request for a widget that is not in the list changes nothing and reports nothing.
pub proof fn law_remove_absent(st: ListState, id: WidgetId)
    requires
        first_pos(st.0, id) < 0,
    ensures
        remove_step(st, id) == st,
{
}

/// A move keeps the same widgets, only their order changes.
pub proof fn law_move_keeps_widgets(st: ListState, r: usize, i: usize, notify: bool)
    requires
        r < st.0.len(),
    ensures
        relocate(st, r, i, notify).0.len() == st.0.len(),
        relocate(st, r, i, notify).0.to_multiset() == st.0.to_multiset(),
{
    broadcast use vstd::seq_lib::group_to_multiset_ensures;
    broadcast use vstd::multiset::group_multiset_axioms;

    let w = st.0[r as int];
    let s1 = st.0.remove(r as int);
    assert(st.0.to_multiset().count(w) > 0) by {
        assert(st.0.contains(w));
    }
    assert(s1.to_multiset().insert(w) =~= st.0.to_multiset());
    if i < s1.len() {
        assert(s1.insert(i as int, w).to_multiset() == s1.to_multiset().insert(w));
    } else {
        assert(s1.push(w).to_multiset() == s1.to_multiset().insert(w));
    }
}

/// Moving a widget to its own index leaves the list as it was.
pub proof fn law_move_to_same_index(st: ListState, r: usize, notify: bool)
    requires
        r < st.0.len(),
    ensures
        relocate(st, r, r, notify).0 == st.0,
{
    let w = st.0[r as int];
    let s1 = st.0.remove(r as int);
    if r < s1.len() {
        assert(s1.insert(r as int, w) =~= st.0);
    } else {
        assert(s1.push(w) =~= st.0);
    }
}

/// After a clear request the list holds only what was pushed after it, and the change is
/// reported as one reset.
pub proof fn law_clear_then_push(s: Seq<BoxedWidget>, remove: Seq<WidgetId>, w: BoxedWidget)
    ensures
        apply_requests(s, true, remove, Seq::empty(), seq![w], Seq::empty(), Seq::empty()) == (
            seq![inited(w)],
            seq![ListChange::Reseted],
        ),
{
    let st: ListState = (Seq::empty(), seq![ListChange::Reseted]);
    assert(insert_all(st, Seq::empty(), false) == st);
    let reqs = seq![w];
    assert(reqs.drop_last() =~= Seq::<BoxedWidget>::empty());
    assert(push_all(st, reqs.drop_last(), false) == st);
    assert(reqs.last() == w);
    assert(push_all(st, reqs, false) == push_step(st, w, false));
    assert(move_index_all(push_step(st, w, false), Seq::empty(), false) == push_step(st, w, false));
    assert(push_step(st, w, false).0 =~= seq![inited(w)]);
}

/// Leaving out an element that `f` rejects does not change what `f` keeps.
proof fn lemma_filter_splice(a: Seq<BoxedWidget>, x: BoxedWidget, b: Seq<BoxedWidget>, f: spec_fn(BoxedWidget) -> bool)
    requires
        !f(x),
    ensures
        (a + seq![x] + b).filter(f) == (a + b).filter(f),
{
    Seq::filter_distributes_over_add(a + seq![x], b, f);
    Seq::filter_distributes_over_add(a, seq![x], f);
    Seq::filter_distributes_over_add(a, b, f);
    reveal_with_fuel(Seq::filter, 2);
    assert(seq![x].drop_last() =~= Seq::<BoxedWidget>::empty());
    assert(seq![x].filter(f) =~= Seq::<BoxedWidget>::empty());
    assert(a.filter(f) + Seq::<BoxedWidget>::empty() =~= a.filter(f));
}

/// Removing an element that `f` rejects does not change what `f` keeps.
proof fn lemma_filter_remove(s: Seq<BoxedWidget>, p: int, f: spec_fn(BoxedWidget) -> bool)
    requires
        0 <= p < s.len(),
        !f(s[p]),
    ensures
        s.remove(p).filter(f) == s.filter(f),
{
    let a = s.take(p);
    let b = s.skip(p + 1);
    assert(s =~= a + seq![s[p]] + b);
    assert(s.remove(p) =~= a + b);
    lemma_filter_splice(a, s[p], b, f);
}

/// Inserting an element that `f` rejects does not change what `f` keeps.
proof fn lemma_filter_insert(s: Seq<BoxedWidget>, i: int, w: BoxedWidget, f: spec_fn(BoxedWidget) -> bool)
    requires
        0 <= i <= s.len(),
        !f(w),
    ensures
        s.insert(i, w).filter(f) == s.filter(f),
{
    let a = s.take(i);
    let b = s.skip(i);
    assert(s =~= a + b);
    assert(s.insert(i, w) =~= a + seq![w] + b);
    lemma_filter_splice(a, w, b, f);
}

/// Pushing an element that `f` rejects does not change what `f` keeps.
proof fn lemma_filter_push(s: Seq<BoxedWidget>, w: BoxedWidget, f: spec_fn(BoxedWidget) -> bool)
    requires
        !f(w),
    ensures
        s.push(w).filter(f) == s.filter(f),
{
    assert(s.push(w) =~= s.insert(s.len() as int, w));
    lemma_filter_insert(s, s.len() as int, w, f);
}

/// Moving an element that `f` rejects does not change what `f` keeps.
proof fn lemma_filter_relocate(st: ListState, r: usize, i: usize, notify: bool, f: spec_fn(BoxedWidget) -> bool)
    requires
        r < st.0.len(),
        !f(st.0[r as int]),
    ensures
        relocate(st, r, i, notify).0.filter(f) == st.0.filter(f),
{
    let w = st.0[r as int];
    let s1 = st.0.remove(r as int);
    lemma_filter_remove(st.0, r as int, f);
    if i < s1.len() {
        lemma_filter_insert(s1, i as int, w, f);
    } else {
        lemma_filter_push(s1, w, f);
    }
}

/// Removing widgets whose ids `f` rejects does not change what `f` keeps.
proof fn lemma_remove_all_keeps(st: ListState, ids: Seq<WidgetId>, f: spec_fn(BoxedWidget) -> bool)
    requires
        forall|w: BoxedWidget| ids.contains(w.id) ==> !f(w),
    ensures
        remove_all(st, ids).0.filter(f) == st.0.filter(f),
        remove_all(st, ids).0.len() <= st.0.len(),
    decreases ids.len(),
{
    if ids.len() > 0 {
        assert forall|w: BoxedWidget| ids.drop_last().contains(w.id) implies !f(w) by {
            let k = choose|k: int| 0 <= k < ids.drop_last().len() && ids.drop_last()[k] == w.id;
            assert(ids[k] == w.id);
            assert(ids.contains(w.id));
        }
        lemma_remove_all_keeps(st, ids.drop_last(), f);
        let before = remove_all(st, ids.drop_last());
        let p = first_pos(before.0, ids.last());
        if p >= 0 {
            let q = choose|q: int| is_first_pos(before.0, ids.last(), q);
            assert(ids[ids.len() - 1] == ids.last());
            assert(ids.contains(ids.last()));
            assert(before.0[p].id == ids.last());
            lemma_filter_remove(before.0, p, f);
        }
    }
}

/// Inserting widgets that `f` rejects does not change what `f` keeps.
proof fn lemma_insert_all_keeps(st: ListState, reqs: Seq<(usize, BoxedWidget)>, notify: bool, f: spec_fn(BoxedWidget) -> bool)
    requires
        forall|k: int| 0 <= k < reqs.len() ==> !f(inited(#[trigger] reqs[k].1)),
    ensures
        insert_all(st, reqs, notify).0.filter(f) == st.0.filter(f),
        insert_all(st, reqs, notify).0.len() == st.0.len() + reqs.len(),
    decreases reqs.len(),
{
    if reqs.len() > 0 {
        lemma_insert_all_keeps(st, reqs.drop_last(), notify, f);
        let before = insert_all(st, reqs.drop_last(), notify);
        let (i, w) = reqs.last();
        assert(!f(inited(reqs[reqs.len() - 1].1)));
        if i < before.0.len() {
            lemma_filter_insert(before.0, i as int, inited(w), f);
        } else {
            lemma_filter_push(before.0, inited(w), f);
        }
    }
}

/// Pushing widgets that `f` rejects does not change what `f` keeps.
proof fn lemma_push_all_keeps(st: ListState, reqs: Seq<BoxedWidget>, notify: bool, f: spec_fn(BoxedWidget) -> bool)
    requires
        forall|k: int| 0 <= k < reqs.len() ==> !f(inited(#[trigger] reqs[k])),
    ensures
        push_all(st, reqs, notify).0.filter(f) == st.0.filter(f),
        push_all(st, reqs, notify).0.len() == st.0.len() + reqs.len(),
    decreases reqs.len(),
{
    if reqs.len() > 0 {
        lemma_push_all_keeps(st, reqs.drop_last(), notify, f);
        let before = push_all(st, reqs.drop_last(), notify);
        assert(!f(inited(reqs[reqs.len() - 1])));
        lemma_filter_push(before.0, inited(reqs.last()), f);
    }
}

/// Moving widgets whose ids `f` rejects does not change what `f` keeps.
proof fn lemma_move_id_all_keeps(
    st: ListState,
    reqs: Seq<(WidgetId, WidgetMoveTo)>,
    notify: bool,
    f: spec_fn(BoxedWidget) -> bool,
)
    requires
        st.0.len() <= usize::MAX,
        forall|w: BoxedWidget, k: int| #![trigger f(w), reqs[k]] 0 <= k < reqs.len() && reqs[k].0 == w.id ==> !f(w),
    ensures
        move_id_all(st, reqs, notify).0.filter(f) == st.0.filter(f),
        move_id_all(st, reqs, notify).0.len() == st.0.len(),
    decreases reqs.len(),
{
    if reqs.len() > 0 {
        lemma_move_id_all_keeps(st, reqs.drop_last(), notify, f);
        let before = move_id_all(st, reqs.drop_last(), notify);
        let (id, to) = reqs.last();
        let p = first_pos(before.0, id);
        if p >= 0 {
            let q = choose|q: int| is_first_pos(before.0, id, q);
            let i = move_to_spec(to, p as usize, before.0.len() as usize);
            if p != i {
                assert(reqs[reqs.len() - 1].0 == before.0[p].id);
                assert(!f(before.0[p]));
                lemma_filter_relocate(before, p as usize, i, notify, f);
            }
        }
    }
}

/// If a request names the widget id: removes it, inserts or pushes a widget with it, or moves
/// it by id.
pub open spec fn named_in_requests(
    id: WidgetId,
    remove: Seq<WidgetId>,
    insert: Seq<(usize, BoxedWidget)>,
    push: Seq<BoxedWidget>,
    move_id: Seq<(WidgetId, WidgetMoveTo)>,
) -> bool {
    ||| remove.contains(id)
    ||| exists|k: int| 0 <= k < insert.len() && (#[trigger] insert[k]).1.id == id
    ||| exists|k: int| 0 <= k < push.len() && (#[trigger] push[k]).id == id
    ||| exists|k: int| 0 <= k < move_id.len() && (#[trigger] move_id[k]).0 == id
}

/// Widgets whose ids no request names keep their relative order when a batch of requests
/// without a clear is applied: taken in order, they are the same before and after. Index
/// moves are left out: they move whatever widget is at an index.
pub proof fn law_unnamed_keep_order(
    s: Seq<BoxedWidget>,
    remove: Seq<WidgetId>,
    insert: Seq<(usize, BoxedWidget)>,
    push: Seq<BoxedWidget>,
    move_id: Seq<(WidgetId, WidgetMoveTo)>,
)
    requires
        s.len() + insert.len() + push.len() <= usize::MAX,
    ensures
        ({
            let f = |w: BoxedWidget| !named_in_requests(w.id, remove, insert, push, move_id);
            apply_requests(s, false, remove, insert, push, Seq::empty(), move_id).0.filter(f) == s.filter(f)
        }),
{
    let f = |w: BoxedWidget| !named_in_requests(w.id, remove, insert, push, move_id);
    let st0: ListState = (s, Seq::empty());
    lemma_remove_all_keeps(st0, remove, f);
    let st1 = remove_all(st0, remove);
    assert forall|k: int| 0 <= k < insert.len() implies !f(inited(#[trigger] insert[k].1)) by {
        assert(inited(insert[k].1).id == insert[k].1.id);
    }
    lemma_insert_all_keeps(st1, insert, true, f);
    let st2 = insert_all(st1, insert, true);
    assert forall|k: int| 0 <= k < push.len() implies !f(inited(#[trigger] push[k])) by {
        assert(inited(push[k]).id == push[k].id);
    }
    lemma_push_all_keeps(st2, push, true, f);
    let st3 = push_all(st2, push, true);
    assert(move_index_all(st3, Seq::empty(), true) == st3);
    lemma_move_id_all_keeps(st3, move_id, true, f);
}

} // verus!
