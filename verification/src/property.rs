//! Property instances in a widget: priorities, importance overrides, unset requests and the
//! instantiation order of a widget builder.
use linear_map::LinearMap;
use vstd::prelude::*;

use crate::ui_list::BoxedUiNode;

verus! {

/// Property priority in a widget, from outermost group to innermost.
#[derive(Clone, Copy, Debug, PartialEq, Eq, Hash, Structural)]
pub enum Priority {
    Context,
    Event,
    Layout,
    Size,
    Border,
    Fill,
    ChildContext,
    ChildLayout,
}

/// Rank of a priority, in declaration order.
pub open spec fn priority_rank(p: Priority) -> int {
    match p {
        Priority::Context => 0,
        Priority::Event => 1,
        Priority::Layout => 2,
        Priority::Size => 3,
        Priority::Border => 4,
        Priority::Fill => 5,
        Priority::ChildContext => 6,
        Priority::ChildLayout => 7,
    }
}

impl Priority {
    /// Rank of the priority, in declaration order.
    pub fn rank(&self) -> (r: u8)
        ensures
            r == priority_rank(*self),
    {
        match self {
            Priority::Context => 0,
            Priority::Event => 1,
            Priority::Layout => 2,
            Priority::Size => 3,
            Priority::Border => 4,
            Priority::Fill => 5,
            Priority::ChildContext => 6,
            Priority::ChildLayout => 7,
        }
    }
}

/// Kind of property input.
#[derive(Clone, Copy, Debug, PartialEq, Eq, Hash, Structural)]
pub enum InputKind {
    /// Input is a variable.
    Var,
    /// Input is a state variable.
    StateVar,
    /// Input is a value.
    Value,
    /// Input is a node, widget or handler that can only be used once.
    Takeout,
}

/// Override importance of a property instance, higher overrides lower.
#[derive(Clone, Copy, Debug, PartialEq, Eq, Hash, Structural)]
pub struct Importance(pub usize);

/// Where a property was declared or instantiated.
#[derive(Clone, Copy, Debug, PartialEq, Eq, Hash)]
pub struct SourceLocation {
    pub file: &'static str,
    pub line: u32,
    pub column: u32,
}

/// Unique identifier of a property in a widget: instances with the same id override each
/// other.
#[derive(Clone, Copy, Debug, PartialEq, Eq, Hash)]
pub struct PropertyId {
    /// Identifies the property declaration.
    pub unique_id: u64,
    /// The property name in the widget instance.
    pub name: &'static str,
}

/// String equality by chars.
pub fn str_eq(a: &str, b: &str) -> (r: bool)
    ensures
        r == (a@ == b@),
{
    let n = a.unicode_len();
    if n != b.unicode_len() {
        return false;
    }
    let mut i: usize = 0;
    while i < n
        invariant
            n == a@.len(),
            n == b@.len(),
            i <= n,
            forall|j: int| 0 <= j < i ==> a@[j] == b@[j],
        decreases n - i,
    {
        if a.get_char(i) != b.get_char(i) {
            return false;
        }
        i = i + 1;
    }
    assert(a@ =~= b@);
    true
}

/// Two property ids are equal: the same declaration id and the same instance name.
pub open spec fn same_property(a: PropertyId, b: PropertyId) -> bool {
    a.unique_id == b.unique_id && a.name@ == b.name@
}

impl PropertyId {
    /// If both ids identify the same property instance.
    pub fn same(&self, other: &PropertyId) -> (r: bool)
        ensures
            r == same_property(*self, *other),
    {
        self.unique_id == other.unique_id && str_eq(self.name, other.name)
    }
}

/// Property input info.
#[derive(Clone, Copy, Debug, PartialEq, Eq, Hash)]
pub struct PropertyInput {
    /// Input name.
    pub name: &'static str,
    /// Input kind.
    pub kind: InputKind,
    /// Identifies the input type.
    pub ty: u64,
    /// Type name.
    pub ty_name: &'static str,
}

/// Property declaration info.
pub struct PropertyInfo {
    /// Property insert order.
    pub priority: Priority,
    /// Identifies the property declaration.
    pub unique_id: u64,
    /// Property original name.
    pub name: &'static str,
    /// Property declaration location.
    pub location: SourceLocation,
    /// Property inputs, at least one.
    pub inputs: Vec<PropertyInput>,
}

/// Property instance info.
#[derive(Clone, Copy, Debug, PartialEq, Eq, Hash)]
pub struct PropertyInstInfo {
    /// Property name in this instance, can differ from the declaration name if renamed.
    pub name: &'static str,
    /// Property instantiation location.
    pub location: SourceLocation,
}

/// A property instantiation request.
pub struct PropertyArgs {
    pub property: PropertyInfo,
    pub instance: PropertyInstInfo,
}

impl PropertyArgs {
    /// The instance id: the declaration id and the instance name.
    pub open spec fn spec_id(self) -> PropertyId {
        PropertyId { unique_id: self.property.unique_id, name: self.instance.name }
    }

    /// Unique id of the property instance.
    pub fn id(&self) -> (r: PropertyId)
        ensures
            r == self.spec_id(),
    {
        PropertyId { unique_id: self.property.unique_id, name: self.instance.name }
    }

    /// The declaration priority.
    pub fn priority(&self) -> (r: Priority)
        ensures
            r == self.property.priority,
    {
        self.property.priority
    }
}

/// A value that can only be taken once: a node, widget or handler input.
pub enum TakeoutValue {
    UiNode(BoxedUiNode),
    Widget(crate::ui_list::BoxedWidget),
    WidgetHandler(u64),
}

/// An input value that cannot be cloned and can only be used in one instance.
pub struct InputTakeout {
    val: Option<TakeoutValue>,
}

impl InputTakeout {
    pub closed spec fn value(self) -> Option<TakeoutValue> {
        self.val
    }

    /// New from a node input.
    pub fn new_ui_node(node: BoxedUiNode) -> (r: InputTakeout)
        ensures
            r.value() == Some(TakeoutValue::UiNode(node)),
    {
        InputTakeout { val: Some(TakeoutValue::UiNode(node)) }
    }

    /// New from a widget input.
    pub fn new_widget(wgt: crate::ui_list::BoxedWidget) -> (r: InputTakeout)
        ensures
            r.value() == Some(TakeoutValue::Widget(wgt)),
    {
        InputTakeout { val: Some(TakeoutValue::Widget(wgt)) }
    }

    /// New from a widget handler input, identified by `handler`.
    pub fn new_widget_handler(handler: u64) -> (r: InputTakeout)
        ensures
            r.value() == Some(TakeoutValue::WidgetHandler(handler)),
    {
        InputTakeout { val: Some(TakeoutValue::WidgetHandler(handler)) }
    }

    /// If the value was not taken yet.
    pub fn is_available(&self) -> (r: bool)
        ensures
            r == self.value() is Some,
    {
        self.val.is_some()
    }

    /// Takes the node value.
    pub fn take_ui_node(&mut self) -> (r: BoxedUiNode)
        requires
            old(self).value() matches Some(TakeoutValue::UiNode(_)),
        ensures
            old(self).value() == Some(TakeoutValue::UiNode(r)),
            final(self).value() is None,
    {
        match self.val.take() {
            Some(TakeoutValue::UiNode(n)) => n,
            _ => {
                proof {
                    assert(false);
                }
                BoxedUiNode { inited: false }
            },
        }
    }

    /// Takes the widget value.
    pub fn take_widget(&mut self) -> (r: crate::ui_list::BoxedWidget)
        requires
            old(self).value() matches Some(TakeoutValue::Widget(_)),
        ensures
            old(self).value() == Some(TakeoutValue::Widget(r)),
            final(self).value() is None,
    {
        match self.val.take() {
            Some(TakeoutValue::Widget(w)) => w,
            _ => {
                proof {
                    assert(false);
                }
                crate::ui_list::BoxedWidget { id: crate::ui_list::WidgetId(0), inited: false }
            },
        }
    }

    /// Takes the widget handler value.
    pub fn take_widget_handler(&mut self) -> (r: u64)
        requires
            old(self).value() matches Some(TakeoutValue::WidgetHandler(_)),
        ensures
            old(self).value() == Some(TakeoutValue::WidgetHandler(r)),
            final(self).value() is None,
    {
        match self.val.take() {
            Some(TakeoutValue::WidgetHandler(h)) => h,
            _ => {
                proof {
                    assert(false);
                }
                0
            },
        }
    }
}

/// `linear_map::LinearMap`, opaque; what a map holds is named per use.
#[verifier::external_type_specification]
#[verifier::external_body]
#[verifier::reject_recursive_types(K)]
#[verifier::reject_recursive_types(V)]
pub struct ExLinearMap<K, V>(LinearMap<K, V>);

/// Unset requests: importance by property id.
pub type UnsetMap = LinearMap<PropertyId, usize>;

/// Key of an unset request: declaration id and instance name chars.
pub type UnsetKey = (u64, Seq<char>);

/// The entries of a `LinearMap<PropertyId, usize>`, keyed by the id's declaration id and name
/// chars (the map compares keys with `PartialEq`, which compares those).
pub uninterp spec fn unset_entries(m: UnsetMap) -> Map<UnsetKey, usize>;

/// The map key of a property id.
pub open spec fn id_key(id: PropertyId) -> UnsetKey {
    (id.unique_id, id.name@)
}

/// `LinearMap::new`: an empty map.
#[verifier::external_body]
fn unset_map_new() -> (r: UnsetMap)
    ensures
        unset_entries(r).dom() == Set::<UnsetKey>::empty(),
{
    LinearMap::new()
}

/// `LinearMap::get`, copying the value.
#[verifier::external_body]
fn unset_map_get(m: &UnsetMap, k: &PropertyId) -> (r: Option<usize>)
    ensures
        unset_entries(*m).contains_key(id_key(*k)) ==> r == Some(unset_entries(*m)[id_key(*k)]),
        !unset_entries(*m).contains_key(id_key(*k)) ==> r is None,
{
    m.get(k).copied()
}

/// `LinearMap::insert`: sets the value of `k`, returns the previous value.
#[verifier::external_body]
fn unset_map_insert(m: &mut UnsetMap, k: PropertyId, v: usize) -> (r: Option<usize>)
    ensures
        unset_entries(*final(m)) == unset_entries(*old(m)).insert(id_key(k), v),
        unset_entries(*old(m)).contains_key(id_key(k)) ==> r == Some(unset_entries(*old(m))[id_key(k)]),
        !unset_entries(*old(m)).contains_key(id_key(k)) ==> r is None,
{
    m.insert(k, v)
}

/// An item of a widget: a core node that cannot be overridden, or a property instance.
pub enum WidgetItem {
    Intrinsic(BoxedUiNode),
    Property { importance: Importance, args: PropertyArgs },
}

/// Input variable read in a `when` condition.
#[derive(Clone, Copy, Debug, PartialEq, Eq, Hash)]
pub struct WhenInput {
    /// Property name.
    pub property_name: &'static str,
    /// Id of the named property.
    pub property_id: u64,
    /// Property input name.
    pub member_name: &'static str,
    /// Property input index.
    pub member_i: usize,
}

/// A `when` block of a widget.
pub struct When {
    /// Properties referenced in the condition.
    pub inputs: Vec<WhenInput>,
    /// Current value of the condition.
    pub state: bool,
    /// Properties assigned in the block.
    pub assigns: Vec<PropertyArgs>,
}

/// The property at `i` has the id `id`.
pub open spec fn is_prop_with(item: WidgetItem, id: PropertyId) -> bool {
    match item {
        WidgetItem::Property { args, .. } => same_property(args.spec_id(), id),
        WidgetItem::Intrinsic(_) => false,
    }
}

/// `p` is the first item that is a property with the id.
pub open spec fn is_first_prop(items: Seq<(Priority, WidgetItem)>, id: PropertyId, p: int) -> bool {
    &&& 0 <= p < items.len()
    &&& is_prop_with(items[p].1, id)
    &&& forall|j: int| 0 <= j < p ==> !is_prop_with(items[j].1, id)
}

/// Index of the first property item with `id`, or `-1`.
pub open spec fn first_prop_pos(items: Seq<(Priority, WidgetItem)>, id: PropertyId) -> int {
    if exists|p: int| is_first_prop(items, id, p) {
        choose|p: int| is_first_prop(items, id, p)
    } else {
        -1
    }
}

/// The importance of a property item; zero for an intrinsic node.
pub open spec fn item_importance(item: WidgetItem) -> usize {
    match item {
        WidgetItem::Property { importance, .. } => importance.0,
        WidgetItem::Intrinsic(_) => 0,
    }
}

/// Instantiation order: by priority; in a priority intrinsic nodes come before properties,
/// properties by importance.
pub open spec fn item_lt(a: (Priority, WidgetItem), b: (Priority, WidgetItem)) -> bool {
    let (pa, ia) = a;
    let (pb, ib) = b;
    if priority_rank(pa) != priority_rank(pb) {
        priority_rank(pa) < priority_rank(pb)
    } else {
        match (ia, ib) {
            (WidgetItem::Property { importance: x, .. }, WidgetItem::Property { importance: y, .. }) => x.0 < y.0,
            (WidgetItem::Intrinsic(_), WidgetItem::Property { .. }) => true,
            _ => false,
        }
    }
}

/// Index where a stable insertion sort inserts `x` into `s`: after the last item it is not
/// less than, scanning from the end.
pub open spec fn item_ins_pos(s: Seq<(Priority, WidgetItem)>, x: (Priority, WidgetItem)) -> int
    decreases s.len(),
{
    if s.len() == 0 {
        0
    } else if item_lt(x, s.last()) {
        item_ins_pos(s.drop_last(), x)
    } else {
        s.len() as int
    }
}

/// Stable sort of the items in instantiation order.
pub open spec fn sort_items_spec(s: Seq<(Priority, WidgetItem)>) -> Seq<(Priority, WidgetItem)>
    decreases s.len(),
{
    if s.len() == 0 {
        s
    } else {
        let sorted = sort_items_spec(s.drop_last());
        sorted.insert(item_ins_pos(sorted, s.last()), s.last())
    }
}

/// Index where a stable insertion sort by importance inserts `x` into `s`.
pub open spec fn when_ins_pos(s: Seq<(Importance, When)>, x: (Importance, When)) -> int
    decreases s.len(),
{
    if s.len() == 0 {
        0
    } else if x.0.0 < s.last().0.0 {
        when_ins_pos(s.drop_last(), x)
    } else {
        s.len() as int
    }
}

/// Stable sort of the `when` blocks by importance.
pub open spec fn sort_whens_spec(s: Seq<(Importance, When)>) -> Seq<(Importance, When)>
    decreases s.len(),
{
    if s.len() == 0 {
        s
    } else {
        let sorted = sort_whens_spec(s.drop_last());
        sorted.insert(when_ins_pos(sorted, s.last()), s.last())
    }
}

fn item_less(a: &(Priority, WidgetItem), b: &(Priority, WidgetItem)) -> (r: bool)
    ensures
        r == item_lt(*a, *b),
{
    let ra = a.0.rank();
    let rb = b.0.rank();
    if ra != rb {
        ra < rb
    } else {
        match (&a.1, &b.1) {
            (WidgetItem::Property { importance: x, .. }, WidgetItem::Property { importance: y, .. }) => x.0 < y.0,
            (WidgetItem::Intrinsic(_), WidgetItem::Property { .. }) => true,
            _ => false,
        }
    }
}

/// The items sorted in instantiation order, stable.
fn sort_item_vec(items: Vec<(Priority, WidgetItem)>) -> (r: Vec<(Priority, WidgetItem)>)
    ensures
        r@ == sort_items_spec(items@),
{
    let ghost orig = items@;
    let total = items.len();
    let mut items = items;
    let mut sorted: Vec<(Priority, WidgetItem)> = Vec::new();
    let mut k: usize = 0;
    while items.len() > 0
        invariant
            k <= orig.len(),
            orig.len() == total,
            k + items@.len() == orig.len(),
            items@ == orig.skip(k as int),
            sorted@ == sort_items_spec(orig.take(k as int)),
        decreases items@.len(),
    {
        let x = items.remove(0);
        proof {
            assert(orig.take(k + 1).drop_last() =~= orig.take(k as int));
            assert(orig.take(k + 1).last() == x);
            assert(items@ =~= orig.skip(k + 1));
        }
        let mut j = sorted.len();
        assert(sorted@.take(j as int) =~= sorted@);
        while j > 0 && item_less(&x, &sorted[j - 1])
            invariant
                j <= sorted@.len(),
                k < total,
                item_ins_pos(sorted@, x) == item_ins_pos(sorted@.take(j as int), x),
            decreases j,
        {
            proof {
                assert(sorted@.take(j as int).drop_last() =~= sorted@.take(j - 1));
            }
            j = j - 1;
        }
        proof {
            if j > 0 {
                assert(sorted@.take(j as int).last() == sorted@[j - 1]);
            }
        }
        sorted.insert(j, x);
        k = k + 1;
    }
    proof {
        assert(orig.take(k as int) =~= orig);
    }
    sorted
}

/// The `when` blocks sorted by importance, stable.
fn sort_when_vec(whens: Vec<(Importance, When)>) -> (r: Vec<(Importance, When)>)
    ensures
        r@ == sort_whens_spec(whens@),
{
    let ghost orig = whens@;
    let total = whens.len();
    let mut whens = whens;
    let mut sorted: Vec<(Importance, When)> = Vec::new();
    let mut k: usize = 0;
    while whens.len() > 0
        invariant
            k <= orig.len(),
            orig.len() == total,
            k + whens@.len() == orig.len(),
            whens@ == orig.skip(k as int),
            sorted@ == sort_whens_spec(orig.take(k as int)),
        decreases whens@.len(),
    {
        let x = whens.remove(0);
        proof {
            assert(orig.take(k + 1).drop_last() =~= orig.take(k as int));
            assert(orig.take(k + 1).last() == x);
            assert(whens@ =~= orig.skip(k + 1));
        }
        let mut j = sorted.len();
        assert(sorted@.take(j as int) =~= sorted@);
        while j > 0 && x.0.0 < sorted[j - 1].0.0
            invariant
                j <= sorted@.len(),
                k < total,
                when_ins_pos(sorted@, x) == when_ins_pos(sorted@.take(j as int), x),
            decreases j,
        {
            proof {
                assert(sorted@.take(j as int).drop_last() =~= sorted@.take(j - 1));
            }
            j = j - 1;
        }
        proof {
            if j > 0 {
                assert(sorted@.take(j as int).last() == sorted@[j - 1]);
            }
        }
        sorted.insert(j, x);
        k = k + 1;
    }
    proof {
        assert(orig.take(k as int) =~= orig);
    }
    sorted
}

fn property_position(items: &Vec<(Priority, WidgetItem)>, id: &PropertyId) -> (r: Option<usize>)
    ensures
        r matches Some(p) ==> first_prop_pos(items@, *id) == p && p < items@.len(),
        r is None ==> first_prop_pos(items@, *id) == -1 && forall|j: int|
            0 <= j < items@.len() ==> !is_prop_with(items@[j].1, *id),
{
    let mut i: usize = 0;
    while i < items.len()
        invariant
            i <= items@.len(),
            forall|j: int| 0 <= j < i ==> !is_prop_with(items@[j].1, *id),
        decreases items@.len() - i,
    {
        let found = match &items[i].1 {
            WidgetItem::Property { args, .. } => args.id().same(id),
            WidgetItem::Intrinsic(_) => false,
        };
        if found {
            proof {
                let s = items@;
                assert(is_first_prop(s, *id, i as int));
                let q = choose|q: int| is_first_prop(s, *id, q);
                assert(is_first_prop(s, *id, q));
                if q < i {
                    assert(!is_prop_with(s[q].1, *id));
                }
                if (i as int) < q {
                    assert(!is_prop_with(s[i as int].1, *id));
                }
            }
            return Some(i);
        }
        i = i + 1;
    }
    proof {
        let s = items@;
        if exists|p: int| is_first_prop(s, *id, p) {
            let p = choose|p: int| is_first_prop(s, *id, p);
            assert(is_prop_with(s[p].1, *id));
        }
    }
    None
}

/// A widget built from its items: the innermost child and the items in instantiation order,
/// each wrapping the ones before it.
pub struct BuiltWidget {
    pub child: BoxedUiNode,
    pub items: Vec<(Priority, WidgetItem)>,
}

/// Widget instance builder: intrinsic nodes, property instances with importance overrides,
/// unset requests and `when` blocks.
pub struct WidgetBuilder {
    child: Option<BoxedUiNode>,
    items: Vec<(Priority, WidgetItem)>,
    unset: UnsetMap,
    whens: Vec<(Importance, When)>,
}

impl WidgetBuilder {
    pub closed spec fn spec_child(self) -> Option<BoxedUiNode> {
        self.child
    }

    pub closed spec fn spec_items(self) -> Seq<(Priority, WidgetItem)> {
        self.items@
    }

    /// Unset importance of each property id.
    pub closed spec fn spec_unset(self) -> Map<UnsetKey, usize> {
        unset_entries(self.unset)
    }

    pub closed spec fn spec_whens(self) -> Seq<(Importance, When)> {
        self.whens@
    }

    /// An empty builder.
    pub fn new() -> (r: WidgetBuilder)
        ensures
            r.spec_child() is None,
            r.spec_items() == Seq::<(Priority, WidgetItem)>::empty(),
            r.spec_unset() == Map::<UnsetKey, usize>::empty(),
            r.spec_whens() == Seq::<(Importance, When)>::empty(),
    {
        WidgetBuilder { child: None, items: Vec::new(), unset: unset_map_new(), whens: Vec::new() }
    }

    /// Insert an intrinsic node, a core node of the widget that cannot be overridden.
    pub fn insert_intrinsic(&mut self, priority: Priority, node: BoxedUiNode)
        ensures
            final(self).spec_items() == old(self).spec_items().push((priority, WidgetItem::Intrinsic(node))),
            final(self).spec_child() == old(self).spec_child(),
            final(self).spec_unset() == old(self).spec_unset(),
            final(self).spec_whens() == old(self).spec_whens(),
    {
        self.items.push((priority, WidgetItem::Intrinsic(node)));
    }

    /// Insert or override a property: an existing instance with the same id is replaced if its
    /// importance is not greater; a new instance is added unless an unset request of greater or
    /// equal importance exists for its id.
    pub fn insert_property(&mut self, importance: Importance, args: PropertyArgs)
        ensures
            final(self).spec_child() == old(self).spec_child(),
            final(self).spec_unset() == old(self).spec_unset(),
            final(self).spec_whens() == old(self).spec_whens(),
            ({
                let items = old(self).spec_items();
                let p = first_prop_pos(items, args.spec_id());
                let key = id_key(args.spec_id());
                if p >= 0 {
                    if item_importance(items[p].1) <= importance.0 {
                        final(self).spec_items() == items.update(
                            p,
                            (args.property.priority, WidgetItem::Property { importance, args }),
                        )
                    } else {
                        final(self).spec_items() == items
                    }
                } else if old(self).spec_unset().contains_key(key) && old(self).spec_unset()[key] >= importance.0 {
                    final(self).spec_items() == items
                } else {
                    final(self).spec_items() == items.push(
                        (args.property.priority, WidgetItem::Property { importance, args }),
                    )
                }
            }),
    {
        let property_id = args.id();
        let priority = args.priority();
        match property_position(&self.items, &property_id) {
            Some(i) => {
                let imp = match &self.items[i].1 {
                    WidgetItem::Property { importance: imp, .. } => imp.0,
                    WidgetItem::Intrinsic(_) => 0,
                };
                if imp <= importance.0 {
                    self.items.set(i, (priority, WidgetItem::Property { importance, args }));
                }
            },
            None => {
                match unset_map_get(&self.unset, &property_id) {
                    Some(imp) => {
                        if imp >= importance.0 {
                            return;
                        }
                    },
                    None => {},
                }
                self.items.push((priority, WidgetItem::Property { importance, args }));
            },
        }
    }

    /// Insert an unset request for `property_id`: an existing request keeps the greater
    /// importance; otherwise the first instance with the id is removed if its importance is not
    /// greater and the request is recorded, but nothing changes if that instance is more
    /// important.
    pub fn insert_unset(&mut self, importance: Importance, property_id: PropertyId)
        ensures
            final(self).spec_child() == old(self).spec_child(),
            final(self).spec_whens() == old(self).spec_whens(),
            ({
                let items = old(self).spec_items();
                let unset = old(self).spec_unset();
                let key = id_key(property_id);
                let p = first_prop_pos(items, property_id);
                if unset.contains_key(key) {
                    &&& final(self).spec_items() == items
                    &&& final(self).spec_unset() == unset.insert(
                        key,
                        if unset[key] >= importance.0 { unset[key] } else { importance.0 },
                    )
                } else if p >= 0 && item_importance(items[p].1) > importance.0 {
                    &&& final(self).spec_items() == items
                    &&& final(self).spec_unset() == unset
                } else {
                    &&& final(self).spec_unset() == unset.insert(key, importance.0)
                    &&& final(self).spec_items() == (if p >= 0 { items.remove(p) } else { items })
                }
            }),
    {
        match unset_map_get(&self.unset, &property_id) {
            Some(imp) => {
                let max = if imp >= importance.0 {
                    imp
                } else {
                    importance.0
                };
                unset_map_insert(&mut self.unset, property_id, max);
            },
            None => {
                let rmv = property_position(&self.items, &property_id);
                match rmv {
                    Some(i) => {
                        let imp = match &self.items[i].1 {
                            WidgetItem::Property { importance: imp, .. } => imp.0,
                            WidgetItem::Intrinsic(_) => 0,
                        };
                        if imp <= importance.0 {
                            unset_map_insert(&mut self.unset, property_id, importance.0);
                            self.items.remove(i);
                        }
                    },
                    None => {
                        unset_map_insert(&mut self.unset, property_id, importance.0);
                    },
                }
            },
        }
    }

    /// Remove the first property instance with `property_id`, returning its importance and
    /// args.
    pub fn remove_property(&mut self, property_id: PropertyId) -> (r: Option<(Importance, PropertyArgs)>)
        ensures
            final(self).spec_child() == old(self).spec_child(),
            final(self).spec_unset() == old(self).spec_unset(),
            final(self).spec_whens() == old(self).spec_whens(),
            ({
                let items = old(self).spec_items();
                let p = first_prop_pos(items, property_id);
                if p >= 0 {
                    &&& final(self).spec_items() == items.remove(p)
                    &&& r matches Some((imp, args)) && items[p].1 == (WidgetItem::Property {
                        importance: imp,
                        args,
                    })
                } else {
                    final(self).spec_items() == items && r is None
                }
            }),
    {
        match property_position(&self.items, &property_id) {
            Some(i) => {
                let (_, item) = self.items.remove(i);
                match item {
                    WidgetItem::Property { importance, args } => Some((importance, args)),
                    WidgetItem::Intrinsic(_) => None,
                }
            },
            None => None,
        }
    }

    /// Insert a `when` block.
    pub fn insert_when(&mut self, importance: Importance, when: When)
        ensures
            final(self).spec_whens() == old(self).spec_whens().push((importance, when)),
            final(self).spec_items() == old(self).spec_items(),
            final(self).spec_child() == old(self).spec_child(),
            final(self).spec_unset() == old(self).spec_unset(),
    {
        self.whens.push((importance, when));
    }

    /// If a child node is set.
    pub fn has_child(&self) -> (r: bool)
        ensures
            r == self.spec_child() is Some,
    {
        self.child.is_some()
    }

    /// Set or replace the innermost node, returning the previous one.
    pub fn set_child(&mut self, node: BoxedUiNode) -> (r: Option<BoxedUiNode>)
        ensures
            r == old(self).spec_child(),
            final(self).spec_child() == Some(node),
            final(self).spec_items() == old(self).spec_items(),
            final(self).spec_unset() == old(self).spec_unset(),
            final(self).spec_whens() == old(self).spec_whens(),
    {
        let prev = self.child.take();
        self.child = Some(node);
        prev
    }

    /// Sorts the items in instantiation order and the `when` blocks by importance, both stable.
    pub fn sort_items(&mut self)
        ensures
            final(self).spec_items() == sort_items_spec(old(self).spec_items()),
            final(self).spec_whens() == sort_whens_spec(old(self).spec_whens()),
            final(self).spec_child() == old(self).spec_child(),
            final(self).spec_unset() == old(self).spec_unset(),
    {
        let mut items: Vec<(Priority, WidgetItem)> = Vec::new();
        std::mem::swap(&mut items, &mut self.items);
        self.items = sort_item_vec(items);
        let mut whens: Vec<(Importance, When)> = Vec::new();
        std::mem::swap(&mut whens, &mut self.whens);
        self.whens = sort_when_vec(whens);
    }

    /// The widget: the child (a nil node if none was set) and the items in instantiation order.
    pub fn build(self) -> (r: BuiltWidget)
        ensures
            r.child == (match self.spec_child() {
                Some(c) => c,
                None => BoxedUiNode { inited: false },
            }),
            r.items@ == sort_items_spec(self.spec_items()),
    {
        let mut s = self;
        s.sort_items();
        let child = match s.child {
            Some(c) => c,
            None => BoxedUiNode { inited: false },
        };
        BuiltWidget { child, items: s.items }
    }
}

/// Order key of an item within its priority: intrinsic nodes first, then properties by
/// importance.
pub open spec fn item_sub(item: WidgetItem) -> int {
    match item {
        WidgetItem::Intrinsic(_) => 0,
        WidgetItem::Property { importance, .. } => importance.0 + 1,
    }
}

/// `a` comes before or with `b` in instantiation order.
pub open spec fn item_le(a: (Priority, WidgetItem), b: (Priority, WidgetItem)) -> bool {
    priority_rank(a.0) < priority_rank(b.0) || (priority_rank(a.0) == priority_rank(b.0) && item_sub(a.1)
        <= item_sub(b.1))
}

/// The items are in instantiation order.
pub open spec fn items_sorted(s: Seq<(Priority, WidgetItem)>) -> bool {
    forall|i: int, j: int| 0 <= i < j < s.len() ==> item_le(#[trigger] s[i], #[trigger] s[j])
}

proof fn lemma_item_lt(a: (Priority, WidgetItem), b: (Priority, WidgetItem))
    ensures
        item_lt(a, b) <==> !item_le(b, a),
{
}

proof fn lemma_ins_pos(s: Seq<(Priority, WidgetItem)>, x: (Priority, WidgetItem))
    requires
        items_sorted(s),
    ensures
        0 <= item_ins_pos(s, x) <= s.len(),
        forall|k: int| 0 <= k < item_ins_pos(s, x) ==> item_le(#[trigger] s[k], x),
        forall|k: int| item_ins_pos(s, x) <= k < s.len() ==> !item_le(#[trigger] s[k], x),
    decreases s.len(),
{
    if s.len() > 0 {
        lemma_item_lt(x, s.last());
        if item_lt(x, s.last()) {
            let d = s.drop_last();
            assert(items_sorted(d)) by {
                assert forall|i: int, j: int| 0 <= i < j < d.len() implies item_le(#[trigger] d[i], #[trigger] d[j]) by {
                    assert(d[i] == s[i] && d[j] == s[j]);
                }
            }
            lemma_ins_pos(d, x);
            let p = item_ins_pos(d, x);
            assert forall|k: int| 0 <= k < p implies item_le(#[trigger] s[k], x) by {
                assert(d[k] == s[k]);
            }
            assert forall|k: int| p <= k < s.len() implies !item_le(#[trigger] s[k], x) by {
                if k < d.len() {
                    assert(d[k] == s[k]);
                }
            }
        } else {
            assert forall|k: int| 0 <= k < s.len() implies item_le(#[trigger] s[k], x) by {
                if k < s.len() - 1 {
                    assert(item_le(s[k], s[s.len() - 1]));
                }
            }
        }
    }
}

/// Sorting the items puts them in instantiation order (by priority; in a priority intrinsic
/// nodes first, then properties by importance) and keeps every item.
pub proof fn law_sort_items(s: Seq<(Priority, WidgetItem)>)
    ensures
        items_sorted(sort_items_spec(s)),
        sort_items_spec(s).to_multiset() == s.to_multiset(),
    decreases s.len(),
{
    broadcast use vstd::seq_lib::group_to_multiset_ensures;

    if s.len() > 0 {
        let d = s.drop_last();
        let x = s.last();
        law_sort_items(d);
        let sorted = sort_items_spec(d);
        lemma_ins_pos(sorted, x);
        let p = item_ins_pos(sorted, x);
        let r = sorted.insert(p, x);
        assert(r == sort_items_spec(s));
        assert forall|i: int, j: int| 0 <= i < j < r.len() implies item_le(#[trigger] r[i], #[trigger] r[j]) by {
            if j < p {
                assert(r[i] == sorted[i] && r[j] == sorted[j]);
            } else if j == p {
                assert(r[i] == sorted[i]);
            } else if i < p {
                assert(r[i] == sorted[i] && r[j] == sorted[j - 1]);
                assert(item_le(sorted[i], x));
                assert(!item_le(sorted[j - 1], x));
            } else if i == p {
                assert(r[j] == sorted[j - 1]);
                assert(!item_le(sorted[j - 1], x));
            } else {
                assert(r[i] == sorted[i - 1] && r[j] == sorted[j - 1]);
            }
        }
        assert(s =~= d.push(x));
        assert(r.to_multiset() == sorted.to_multiset().insert(x));
    }
}

/// Why a request for a property input failed.
#[derive(Clone, Copy, Debug, PartialEq, Eq)]
pub enum InputRequestError {
    /// The index is past the end of the inputs: the input count and the index.
    OutOfBounds(usize, usize),
    /// The index is the input count: the input read is missing, a slice index out of
    /// bounds; the input count and the index.
    IndexOutOfBounds(usize, usize),
    /// The input is of another kind: the kind requested, the input name and its kind.
    WrongKind(InputKind, &'static str, InputKind),
    /// The input is of the kind requested but the request is still invalid: the input name.
    Invalid(&'static str),
}

/// The failure of a request for input `i` of the kind `kind`: past the end, at the end (the
/// input read is missing), of another kind, or otherwise invalid.
pub fn input_request_error(info: &PropertyInfo, i: usize, kind: InputKind) -> (r: InputRequestError)
    ensures
        r == (if i > info.inputs@.len() {
            InputRequestError::OutOfBounds(info.inputs@.len() as usize, i)
        } else if i == info.inputs@.len() {
            InputRequestError::IndexOutOfBounds(info.inputs@.len() as usize, i)
        } else if info.inputs@[i as int].kind != kind {
            InputRequestError::WrongKind(kind, info.inputs@[i as int].name, info.inputs@[i as int].kind)
        } else {
            InputRequestError::Invalid(info.inputs@[i as int].name)
        }),
{
    if i > info.inputs.len() {
        InputRequestError::OutOfBounds(info.inputs.len(), i)
    } else if i == info.inputs.len() {
        InputRequestError::IndexOutOfBounds(info.inputs.len(), i)
    } else if info.inputs[i].kind != kind {
        InputRequestError::WrongKind(kind, info.inputs[i].name, info.inputs[i].kind)
    } else {
        InputRequestError::Invalid(info.inputs[i].name)
    }
}

} // verus!
