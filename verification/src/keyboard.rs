//! Keyboard state: modifier flags, pressed keys and codes, key repeat detection and the key
//! input events derived from raw input.
use linear_map::set::LinearSet;
use vstd::prelude::*;

use crate::app::AppExtension;
use crate::ui_list::WidgetId;
use crate::window::{DeviceId, WindowId};

verus! {

/// The left "shift" key.
pub const L_SHIFT: u8 = 0b0000_0001u8;
/// The right "shift" key.
pub const R_SHIFT: u8 = 0b0000_0010u8;
/// Any "shift" key.
pub const SHIFT: u8 = 0b0000_0011u8;
/// The left "control" key.
pub const CTRL_L: u8 = 0b0000_0100u8;
/// The right "control" key.
pub const CTRL_R: u8 = 0b0000_1000u8;
/// Any "control" key.
pub const CTRL: u8 = 0b0000_1100u8;
/// The left "alt" key.
pub const L_ALT: u8 = 0b0001_0000u8;
/// The right "alt" key.
pub const R_ALT: u8 = 0b0010_0000u8;
/// Any "alt" key.
pub const ALT: u8 = 0b0011_0000u8;
/// The left "logo" key.
pub const L_LOGO: u8 = 0b0100_0000u8;
/// The right "logo" key.
pub const R_LOGO: u8 = 0b1000_0000u8;
/// Any "logo" key, the "windows" key on PC and "command" key on Mac.
pub const LOGO: u8 = 0b1100_0000u8;


/// The current state of the keyboard modifiers, one flag per left/right modifier key.
#[derive(Clone, Copy, Debug, PartialEq, Eq, Hash, Structural, Default)]
pub struct ModifiersState {
    pub bits: u8,
}

impl ModifiersState {
    /// The state with the `bits` flags.
    pub fn from_bits(bits: u8) -> (r: ModifiersState)
        ensures
            r.bits == bits,
    {
        ModifiersState { bits }
    }

    /// No modifier pressed.
    pub fn empty() -> (r: ModifiersState)
        ensures
            r.bits == 0,
    {
        ModifiersState { bits: 0 }
    }

    /// The raw flags.
    pub fn bits(&self) -> (r: u8)
        ensures
            r == self.bits,
    {
        self.bits
    }

    /// No flag is set.
    pub fn is_empty(&self) -> (r: bool)
        ensures
            r == (self.bits == 0),
    {
        self.bits == 0
    }

    /// Any flag of `other` is set in `self`.
    pub fn intersects(&self, other: ModifiersState) -> (r: bool)
        ensures
            r == (self.bits & other.bits != 0),
    {
        self.bits & other.bits != 0
    }

    /// All flags of `other` are set in `self`.
    pub fn contains(&self, other: ModifiersState) -> (r: bool)
        ensures
            r == (self.bits & other.bits == other.bits),
    {
        self.bits & other.bits == other.bits
    }

    /// Clears the flags of `other`.
    pub fn remove(&mut self, other: ModifiersState)
        ensures
            final(self).bits == old(self).bits & !other.bits,
    {
        self.bits = self.bits & !other.bits;
    }

    /// Sets the flags of `other`.
    pub fn insert(&mut self, other: ModifiersState)
        ensures
            final(self).bits == old(self).bits | other.bits,
    {
        self.bits = self.bits | other.bits;
    }

    /// Returns `true` if a shift key is pressed.
    pub fn shift(&self) -> (r: bool)
        ensures
            r == (self.bits & 3 != 0),
    {
        self.intersects(ModifiersState::from_bits(SHIFT))
    }

    /// Returns `true` if a control key is pressed.
    pub fn ctrl(&self) -> (r: bool)
        ensures
            r == (self.bits & 12 != 0),
    {
        self.intersects(ModifiersState::from_bits(CTRL))
    }

    /// Returns `true` if an alt key is pressed.
    pub fn alt(&self) -> (r: bool)
        ensures
            r == (self.bits & 48 != 0),
    {
        self.intersects(ModifiersState::from_bits(ALT))
    }

    /// Returns `true` if a logo key is pressed.
    pub fn logo(&self) -> (r: bool)
        ensures
            r == (self.bits & 192 != 0),
    {
        self.intersects(ModifiersState::from_bits(LOGO))
    }

    /// Removes `part` and returns if any of its flags was set.
    pub fn take(&mut self, part: ModifiersState) -> (r: bool)
        ensures
            r == (old(self).bits & part.bits != 0),
            r ==> final(self).bits == old(self).bits & !part.bits,
            !r ==> final(self).bits == old(self).bits,
    {
        let r = self.intersects(part);
        if r {
            self.remove(part);
        }
        r
    }

    /// Removes `SHIFT` and returns if it was set.
    pub fn take_shift(&mut self) -> (r: bool)
        ensures
            r == (old(self).bits & 3 != 0),
            final(self).bits == old(self).bits & !3u8,
    {
        let r = self.take(ModifiersState::from_bits(SHIFT));
        proof {
            let b = old(self).bits;
            assert(b & 3 == 0 ==> b & !3u8 == b) by (bit_vector);
        }
        r
    }

    /// Removes `CTRL` and returns if it was set.
    pub fn take_ctrl(&mut self) -> (r: bool)
        ensures
            r == (old(self).bits & 12 != 0),
            final(self).bits == old(self).bits & !12u8,
    {
        let r = self.take(ModifiersState::from_bits(CTRL));
        proof {
            let b = old(self).bits;
            assert(b & 12 == 0 ==> b & !12u8 == b) by (bit_vector);
        }
        r
    }

    /// Removes `ALT` and returns if it was set.
    pub fn take_alt(&mut self) -> (r: bool)
        ensures
            r == (old(self).bits & 48 != 0),
            final(self).bits == old(self).bits & !48u8,
    {
        let r = self.take(ModifiersState::from_bits(ALT));
        proof {
            let b = old(self).bits;
            assert(b & 48 == 0 ==> b & !48u8 == b) by (bit_vector);
        }
        r
    }

    /// Removes `LOGO` and returns if it was set.
    pub fn take_logo(&mut self) -> (r: bool)
        ensures
            r == (old(self).bits & 192 != 0),
            final(self).bits == old(self).bits & !192u8,
    {
        let r = self.take(ModifiersState::from_bits(LOGO));
        proof {
            let b = old(self).bits;
            assert(b & 192 == 0 ==> b & !192u8 == b) by (bit_vector);
        }
        r
    }

    /// The modifier flag of `key`, empty if the key is not a modifier.
    pub fn from_key(key: Key) -> (r: ModifiersState)
        ensures
            r.bits == key_flag(key),
    {
        match key {
            Key::LAlt => Self::from_bits(L_ALT),
            Key::RAlt => Self::from_bits(R_ALT),
            Key::LCtrl => Self::from_bits(CTRL_L),
            Key::RCtrl => Self::from_bits(CTRL_R),
            Key::LShift => Self::from_bits(L_SHIFT),
            Key::RShift => Self::from_bits(R_SHIFT),
            Key::LLogo => Self::from_bits(L_LOGO),
            Key::RLogo => Self::from_bits(R_LOGO),
            Key::Other(_) => Self::empty(),
        }
    }
}

/// A keyboard key: the modifier keys, and every other key by its code.
#[derive(Clone, Copy, Debug, PartialEq, Eq, Hash, Structural)]
pub enum Key {
    LAlt,
    RAlt,
    LCtrl,
    RCtrl,
    LShift,
    RShift,
    LLogo,
    RLogo,
    Other(u32),
}

/// The modifier flag bit of `key`, zero for keys that are not modifiers.
pub open spec fn key_flag(key: Key) -> u8 {
    match key {
        Key::LShift => 1,
        Key::RShift => 2,
        Key::LCtrl => 4,
        Key::RCtrl => 8,
        Key::LAlt => 16,
        Key::RAlt => 32,
        Key::LLogo => 64,
        Key::RLogo => 128,
        Key::Other(_) => 0,
    }
}

impl Key {
    /// If the key is one of the modifier keys.
    pub fn is_modifier(&self) -> (r: bool)
        ensures
            r == (key_flag(*self) != 0),
    {
        match self {
            Key::Other(_) => false,
            _ => true,
        }
    }
}

/// `linear_map::set::LinearSet`, opaque; its items are named by `linear_set_items`.
#[verifier::external_type_specification]
#[verifier::external_body]
#[verifier::reject_recursive_types(T)]
pub struct ExLinearSet<T>(LinearSet<T>);

/// The items of a `LinearSet<u8>`.
pub uninterp spec fn linear_set_items(s: LinearSet<u8>) -> Set<u8>;

/// `LinearSet::new`: an empty set.
#[verifier::external_body]
fn linear_set_new() -> (r: LinearSet<u8>)
    ensures
        linear_set_items(r) == Set::<u8>::empty(),
{
    LinearSet::new()
}

/// `LinearSet::insert`: adds `v`, returns if it was not present.
#[verifier::external_body]
fn linear_set_insert(s: &mut LinearSet<u8>, v: u8) -> (r: bool)
    ensures
        linear_set_items(*final(s)) == linear_set_items(*old(s)).insert(v),
        r == !linear_set_items(*old(s)).contains(v),
{
    s.insert(v)
}

/// `LinearSet::remove`: removes `v`, returns if it was present.
#[verifier::external_body]
fn linear_set_remove(s: &mut LinearSet<u8>, v: u8) -> (r: bool)
    ensures
        linear_set_items(*final(s)) == linear_set_items(*old(s)).remove(v),
        r == linear_set_items(*old(s)).contains(v),
{
    s.remove(&v)
}

/// `LinearSet::contains`.
#[verifier::external_body]
fn linear_set_contains(s: &LinearSet<u8>, v: u8) -> (r: bool)
    ensures
        r == linear_set_items(*s).contains(v),
{
    s.contains(&v)
}

/// `LinearSet::clear`: removes all items.
#[verifier::external_body]
fn linear_set_clear(s: &mut LinearSet<u8>)
    ensures
        linear_set_items(*final(s)) == Set::<u8>::empty(),
{
    s.clear()
}

/// Interaction state of a widget: enabled, visually disabled, blocked, or disabled (both).
#[derive(Clone, Copy, Debug, PartialEq, Eq, Hash, Structural)]
pub struct Interactivity {
    pub bits: u8,
}

impl Interactivity {
    /// Not visually disabled nor blocked.
    pub fn is_enabled(&self) -> (r: bool)
        ensures
            r == (self.bits == 0),
    {
        self.bits == 0
    }

    /// Both visually disabled and blocked.
    pub fn is_disabled(&self) -> (r: bool)
        ensures
            r == (self.bits == 3),
    {
        self.bits == 3
    }
}

/// A widget path from the window root to a widget, with the interactivity of each widget.
pub struct InteractionPath {
    pub window_id: WindowId,
    pub path: Vec<(WidgetId, Interactivity)>,
}

/// The first index of `x` in `s`, or `-1`.
pub open spec fn seq_first_index<T>(s: Seq<T>, x: T) -> int {
    if exists|i: int| 0 <= i < s.len() && s[i] == x && forall|j: int| 0 <= j < i ==> s[j] != x {
        choose|i: int| 0 <= i < s.len() && s[i] == x && forall|j: int| 0 <= j < i ==> s[j] != x
    } else {
        -1
    }
}

proof fn lemma_seq_first_index<T>(s: Seq<T>, x: T, i: int)
    requires
        0 <= i < s.len(),
        s[i] == x,
        forall|j: int| 0 <= j < i ==> s[j] != x,
    ensures
        seq_first_index(s, x) == i,
{
    let k = choose|k: int| 0 <= k < s.len() && s[k] == x && forall|j: int| 0 <= j < k ==> s[j] != x;
    assert(0 <= k < s.len() && s[k] == x && forall|j: int| 0 <= j < k ==> s[j] != x);
    if k < i {
        assert(s[k] != x);
    }
    if i < k {
        assert(s[i] != x);
    }
}

proof fn lemma_seq_first_index_none<T>(s: Seq<T>, x: T)
    requires
        forall|j: int| 0 <= j < s.len() ==> s[j] != x,
    ensures
        seq_first_index(s, x) == -1,
{
    if exists|i: int| 0 <= i < s.len() && s[i] == x && forall|j: int| 0 <= j < i ==> s[j] != x {
        let k = choose|k: int| 0 <= k < s.len() && s[k] == x && forall|j: int| 0 <= j < k ==> s[j] != x;
        assert(s[k] != x);
    }
}

/// The interactivity of the first widget `id` in `path`.
pub open spec fn interactivity_in(path: Seq<(WidgetId, Interactivity)>, id: WidgetId) -> Option<Interactivity> {
    if exists|i: int| 0 <= i < path.len() && path[i].0 == id {
        let i = choose|i: int|
            0 <= i < path.len() && path[i].0 == id && forall|j: int| 0 <= j < i ==> path[j].0 != id;
        Some(path[i].1)
    } else {
        None
    }
}

impl InteractionPath {
    /// The window of the path.
    pub fn window_id(&self) -> (r: WindowId)
        ensures
            r == self.window_id,
    {
        self.window_id
    }

    /// The interactivity of the widget `widget_id` if it is in the path.
    pub fn interactivity_of(&self, widget_id: WidgetId) -> (r: Option<Interactivity>)
        ensures
            r == interactivity_in(self.path@, widget_id),
    {
        let mut i: usize = 0;
        while i < self.path.len()
            invariant
                i <= self.path@.len(),
                forall|j: int| 0 <= j < i ==> self.path@[j].0 != widget_id,
            decreases self.path@.len() - i,
        {
            if self.path[i].0 == widget_id {
                proof {
                    let p = self.path@;
                    let k = choose|k: int|
                        0 <= k < p.len() && p[k].0 == widget_id && forall|j: int| 0 <= j < k ==> p[j].0 != widget_id;
                    assert(0 <= k < p.len() && p[k].0 == widget_id);
                    if k < i {
                        assert(p[k].0 != widget_id);
                    }
                    if (i as int) < k {
                        assert(p[i as int].0 != widget_id);
                    }
                }
                return Some(self.path[i].1);
            }
            i = i + 1;
        }
        None
    }
}

/// Raw key input from the view process, timestamps in microseconds.
#[derive(Clone, Copy, Debug, PartialEq, Eq)]
pub struct RawKeyInputArgs {
    pub window_id: WindowId,
    pub device_id: DeviceId,
    pub scan_code: u32,
    pub pressed: bool,
    pub key: Option<Key>,
    pub timestamp: u64,
}

/// Key input event arguments, targeting the focused widget.
pub struct KeyInputArgs {
    /// Window that received the event.
    pub window_id: WindowId,
    /// Device that generated the event.
    pub device_id: DeviceId,
    /// Raw code of the key.
    pub scan_code: u32,
    /// If the key was pressed, otherwise released.
    pub pressed: bool,
    /// Symbolic name of the key.
    pub key: Option<Key>,
    /// Modifier keys pressed when the event happened.
    pub modifiers: ModifiersState,
    /// If the key-down was generated by holding the key pressed.
    pub is_repeat: bool,
    /// The focused widget path at the time of the input.
    pub target: InteractionPath,
}

impl KeyInputArgs {
    /// `true` if the widget is in the target path and enabled.
    pub fn is_enabled(&self, widget_id: WidgetId) -> (r: bool)
        ensures
            r == (match interactivity_in(self.target.path@, widget_id) {
                Some(i) => i.bits == 0,
                None => false,
            }),
    {
        match self.target.interactivity_of(widget_id) {
            Some(i) => i.is_enabled(),
            None => false,
        }
    }

    /// `true` if the widget is in the target path and disabled.
    pub fn is_disabled(&self, widget_id: WidgetId) -> (r: bool)
        ensures
            r == (match interactivity_in(self.target.path@, widget_id) {
                Some(i) => i.bits == 3,
                None => false,
            }),
    {
        match self.target.interactivity_of(widget_id) {
            Some(i) => i.is_disabled(),
            None => false,
        }
    }
}

/// Character input event arguments, targeting the focused widget.
pub struct CharInputArgs {
    /// Window that received the event.
    pub window_id: WindowId,
    /// Unicode character.
    pub character: char,
    /// The focused widget path at the time of the input.
    pub target: InteractionPath,
}

impl CharInputArgs {
    /// `true` if the widget is in the target path and enabled.
    pub fn is_enabled(&self, widget_id: WidgetId) -> (r: bool)
        ensures
            r == (match interactivity_in(self.target.path@, widget_id) {
                Some(i) => i.bits == 0,
                None => false,
            }),
    {
        match self.target.interactivity_of(widget_id) {
            Some(i) => i.is_enabled(),
            None => false,
        }
    }

    /// `true` if the widget is in the target path and disabled.
    pub fn is_disabled(&self, widget_id: WidgetId) -> (r: bool)
        ensures
            r == (match interactivity_in(self.target.path@, widget_id) {
                Some(i) => i.bits == 3,
                None => false,
            }),
    {
        match self.target.interactivity_of(widget_id) {
            Some(i) => i.is_disabled(),
            None => false,
        }
    }
}

/// Arguments of a modifiers change.
#[derive(Clone, Copy, Debug, PartialEq, Eq, Structural)]
pub struct ModifiersChangedArgs {
    pub prev_modifiers: ModifiersState,
    pub modifiers: ModifiersState,
}

/// Events produced by one raw key input.
pub struct KeyInputEffects {
    /// The key input event, when a widget of the input window is focused.
    pub key_input: Option<KeyInputArgs>,
    /// The modifiers change, when a modifier key changed the modifiers state.
    pub modifiers_changed: Option<ModifiersChangedArgs>,
}

/// The modifiers state of a set of pressed modifier flags.
pub open spec fn modifiers_of(s: Set<u8>) -> u8 {
    ((if s.contains(1) { 1int } else { 0 }) + (if s.contains(2) { 2int } else { 0 }) + (if s.contains(4) {
        4int
    } else {
        0
    }) + (if s.contains(8) { 8int } else { 0 }) + (if s.contains(16) { 16int } else { 0 }) + (if s.contains(
        32,
    ) {
        32int
    } else {
        0
    }) + (if s.contains(64) { 64int } else { 0 }) + (if s.contains(128) { 128int } else { 0 })) as u8
}

/// A key-down repeats the previous one: same code and device, within twice the repeat delay.
pub open spec fn is_repeat(last: Option<(DeviceId, u32, u64)>, args: RawKeyInputArgs, repeat_delay: u64) -> bool {
    match last {
        Some((d, code, time)) => args.scan_code == code && args.device_id == d && (if args.timestamp >= time {
            args.timestamp - time
        } else {
            0
        }) < 2 * repeat_delay,
        None => false,
    }
}

/// `s` without the first `x`, by swapping the last item into its place.
pub open spec fn swap_remove_first<T>(s: Seq<T>, x: T) -> Seq<T> {
    let i = seq_first_index(s, x);
    if i >= 0 {
        s.update(i, s.last()).drop_last()
    } else {
        s
    }
}

/// `s` with `x` pushed, if it is not there yet.
pub open spec fn push_new<T>(s: Seq<T>, x: T) -> Seq<T> {
    if s.contains(x) {
        s
    } else {
        s.push(x)
    }
}

fn index_of_code(v: &Vec<u32>, x: u32) -> (r: Option<usize>)
    ensures
        r matches Some(i) ==> seq_first_index(v@, x) == i && i < v@.len(),
        r is None ==> seq_first_index(v@, x) == -1 && !v@.contains(x),
{
    let mut i: usize = 0;
    while i < v.len()
        invariant
            i <= v@.len(),
            forall|j: int| 0 <= j < i ==> v@[j] != x,
        decreases v@.len() - i,
    {
        if v[i] == x {
            proof {
                lemma_seq_first_index(v@, x, i as int);
            }
            return Some(i);
        }
        i = i + 1;
    }
    proof {
        lemma_seq_first_index_none(v@, x);
    }
    None
}

fn index_of_key(v: &Vec<Key>, x: Key) -> (r: Option<usize>)
    ensures
        r matches Some(i) ==> seq_first_index(v@, x) == i && i < v@.len(),
        r is None ==> seq_first_index(v@, x) == -1 && !v@.contains(x),
{
    let mut i: usize = 0;
    while i < v.len()
        invariant
            i <= v@.len(),
            forall|j: int| 0 <= j < i ==> v@[j] != x,
        decreases v@.len() - i,
    {
        if v[i] == x {
            proof {
                lemma_seq_first_index(v@, x, i as int);
            }
            return Some(i);
        }
        i = i + 1;
    }
    proof {
        lemma_seq_first_index_none(v@, x);
    }
    None
}

/// Keyboard service state: pressed modifier keys, the modifiers state, pressed codes and keys,
/// the key repeat delay (microseconds) and the last key-down.
pub struct Keyboard {
    /// Flags of the modifier keys currently pressed.
    pub current_modifiers: LinearSet<u8>,
    /// The current modifiers state.
    pub modifiers: ModifiersState,
    /// Scan codes of the keys currently pressed.
    pub codes: Vec<u32>,
    /// Keys currently pressed.
    pub keys: Vec<Key>,
    /// The operating system key repeat delay, in microseconds.
    pub repeat_delay: u64,
    /// Device, scan code and time of the last key-down.
    pub last_key_down: Option<(DeviceId, u32, u64)>,
}

impl Keyboard {
    /// Flags of the modifier keys currently pressed.
    pub closed spec fn pressed_modifiers(self) -> Set<u8> {
        linear_set_items(self.current_modifiers)
    }

    /// No key pressed, repeat delay of 600ms.
    pub fn new() -> (r: Keyboard)
        ensures
            r.pressed_modifiers() == Set::<u8>::empty(),
            r.modifiers.bits == 0,
            r.codes@ == Seq::<u32>::empty(),
            r.keys@ == Seq::<Key>::empty(),
            r.repeat_delay == 600_000,
            r.last_key_down is None,
    {
        Keyboard {
            current_modifiers: linear_set_new(),
            modifiers: ModifiersState::empty(),
            codes: Vec::new(),
            keys: Vec::new(),
            repeat_delay: 600_000,
            last_key_down: None,
        }
    }

    /// The modifiers state of the modifier keys currently pressed.
    pub fn current_modifiers(&self) -> (r: ModifiersState)
        ensures
            r.bits == modifiers_of(self.pressed_modifiers()),
    {
        let mut bits: u8 = 0;
        if linear_set_contains(&self.current_modifiers, 1) {
            bits = bits + 1;
        }
        if linear_set_contains(&self.current_modifiers, 2) {
            bits = bits + 2;
        }
        if linear_set_contains(&self.current_modifiers, 4) {
            bits = bits + 4;
        }
        if linear_set_contains(&self.current_modifiers, 8) {
            bits = bits + 8;
        }
        if linear_set_contains(&self.current_modifiers, 16) {
            bits = bits + 16;
        }
        if linear_set_contains(&self.current_modifiers, 32) {
            bits = bits + 32;
        }
        if linear_set_contains(&self.current_modifiers, 64) {
            bits = bits + 64;
        }
        if linear_set_contains(&self.current_modifiers, 128) {
            bits = bits + 128;
        }
        ModifiersState { bits }
    }

    /// Records a modifier key press or release; returns the change if the state changed.
    fn set_modifiers(&mut self, key: Key, pressed: bool) -> (r: Option<ModifiersChangedArgs>)
        requires
            key_flag(key) != 0,
        ensures
            final(self).pressed_modifiers() == (if pressed {
                old(self).pressed_modifiers().insert(key_flag(key))
            } else {
                old(self).pressed_modifiers().remove(key_flag(key))
            }),
            final(self).codes == old(self).codes,
            final(self).keys == old(self).keys,
            final(self).repeat_delay == old(self).repeat_delay,
            final(self).last_key_down == old(self).last_key_down,
            modifiers_of(old(self).pressed_modifiers()) == modifiers_of(final(self).pressed_modifiers())
                ==> r is None && final(self).modifiers == old(self).modifiers,
            modifiers_of(old(self).pressed_modifiers()) != modifiers_of(final(self).pressed_modifiers())
                ==> r == Some(ModifiersChangedArgs {
                prev_modifiers: ModifiersState { bits: modifiers_of(old(self).pressed_modifiers()) },
                modifiers: ModifiersState { bits: modifiers_of(final(self).pressed_modifiers()) },
            }) && final(self).modifiers.bits == modifiers_of(final(self).pressed_modifiers()),
    {
        let prev = self.current_modifiers();
        let flag = ModifiersState::from_key(key).bits;
        if pressed {
            linear_set_insert(&mut self.current_modifiers, flag);
        } else {
            linear_set_remove(&mut self.current_modifiers, flag);
        }
        let new = self.current_modifiers();
        if prev.bits != new.bits {
            self.modifiers = new;
            Some(ModifiersChangedArgs { prev_modifiers: prev, modifiers: new })
        } else {
            None
        }
    }

    /// Updates the keyboard state from a raw key input and returns the derived events: the key
    /// input event when a widget in the same window is focused, and the modifiers change.
    pub fn key_input(&mut self, args: RawKeyInputArgs, focused: Option<InteractionPath>) -> (r: KeyInputEffects)
        ensures
            final(self).repeat_delay == old(self).repeat_delay,
            args.pressed ==> {
                &&& final(self).last_key_down == Some((args.device_id, args.scan_code, args.timestamp))
                &&& final(self).codes@ == push_new(old(self).codes@, args.scan_code)
                &&& final(self).keys@ == (match args.key {
                    Some(k) => push_new(old(self).keys@, k),
                    None => old(self).keys@,
                })
            },
            !args.pressed ==> {
                &&& final(self).last_key_down is None
                &&& final(self).codes@ == swap_remove_first(old(self).codes@, args.scan_code)
                &&& final(self).keys@ == (match args.key {
                    Some(k) => swap_remove_first(old(self).keys@, k),
                    None => old(self).keys@,
                })
            },
            final(self).pressed_modifiers() == (match args.key {
                Some(k) => if key_flag(k) != 0 {
                    if args.pressed {
                        old(self).pressed_modifiers().insert(key_flag(k))
                    } else {
                        old(self).pressed_modifiers().remove(key_flag(k))
                    }
                } else {
                    old(self).pressed_modifiers()
                },
                None => old(self).pressed_modifiers(),
            }),
            modifiers_of(old(self).pressed_modifiers()) == modifiers_of(final(self).pressed_modifiers())
                ==> r.modifiers_changed is None && final(self).modifiers == old(self).modifiers,
            modifiers_of(old(self).pressed_modifiers()) != modifiers_of(final(self).pressed_modifiers())
                ==> r.modifiers_changed == Some(ModifiersChangedArgs {
                prev_modifiers: ModifiersState { bits: modifiers_of(old(self).pressed_modifiers()) },
                modifiers: ModifiersState { bits: modifiers_of(final(self).pressed_modifiers()) },
            }) && final(self).modifiers.bits == modifiers_of(final(self).pressed_modifiers()),
            (match focused {
                Some(t) => t.window_id == args.window_id,
                None => false,
            }) ==> (r.key_input matches Some(k) && {
                &&& k.window_id == args.window_id
                &&& k.device_id == args.device_id
                &&& k.scan_code == args.scan_code
                &&& k.pressed == args.pressed
                &&& k.key == args.key
                &&& k.modifiers.bits == modifiers_of(final(self).pressed_modifiers())
                &&& k.is_repeat == (args.pressed && is_repeat(
                    old(self).last_key_down,
                    args,
                    old(self).repeat_delay,
                ))
                &&& k.target == focused->0
            }),
            !(match focused {
                Some(t) => t.window_id == args.window_id,
                None => false,
            }) ==> r.key_input is None,
    {
        let mut repeat = false;
        let mut changed: Option<ModifiersChangedArgs> = None;
        if args.pressed {
            match self.last_key_down {
                Some((d_id, code, time)) => {
                    let elapsed: u64 = if args.timestamp >= time {
                        args.timestamp - time
                    } else {
                        0
                    };
                    if args.scan_code == code && args.device_id == d_id && (elapsed as u128) < 2 * (
                    self.repeat_delay as u128) {
                        repeat = true;
                    }
                },
                None => {},
            }
            self.last_key_down = Some((args.device_id, args.scan_code, args.timestamp));
            if index_of_code(&self.codes, args.scan_code).is_none() {
                self.codes.push(args.scan_code);
            }
            match args.key {
                Some(key) => {
                    if index_of_key(&self.keys, key).is_none() {
                        self.keys.push(key);
                    }
                    if key.is_modifier() {
                        changed = self.set_modifiers(key, true);
                    }
                },
                None => {},
            }
        } else {
            self.last_key_down = None;
            match index_of_code(&self.codes, args.scan_code) {
                Some(i) => {
                    self.codes.swap_remove(i);
                },
                None => {},
            }
            match args.key {
                Some(key) => {
                    match index_of_key(&self.keys, key) {
                        Some(i) => {
                            self.keys.swap_remove(i);
                        },
                        None => {},
                    }
                    if key.is_modifier() {
                        changed = self.set_modifiers(key, false);
                    }
                },
                None => {},
            }
        }
        let key_input = match focused {
            Some(target) => {
                if target.window_id.0 == args.window_id.0 {
                    Some(
                        KeyInputArgs {
                            window_id: args.window_id,
                            device_id: args.device_id,
                            scan_code: args.scan_code,
                            pressed: args.pressed,
                            key: args.key,
                            modifiers: self.current_modifiers(),
                            is_repeat: repeat,
                            target,
                        },
                    )
                } else {
                    None
                }
            },
            None => None,
        };
        KeyInputEffects { key_input, modifiers_changed: changed }
    }

    /// Resets the pressed keys and modifiers, when the app loses focus or the view process
    /// restarts. The modifiers only become empty: no modifiers-changed event is raised, so
    /// the result is always `None`.
    pub fn reset(&mut self) -> (r: Option<ModifiersChangedArgs>)
        ensures
            final(self).pressed_modifiers() == Set::<u8>::empty(),
            final(self).modifiers.bits == 0,
            final(self).codes@ == Seq::<u32>::empty(),
            final(self).keys@ == Seq::<Key>::empty(),
            final(self).last_key_down is None,
            final(self).repeat_delay == old(self).repeat_delay,
            r is None,
    {
        self.modifiers = ModifiersState::empty();
        linear_set_clear(&mut self.current_modifiers);
        self.codes.clear();
        self.keys.clear();
        self.last_key_down = None;
        None
    }

    /// The repeat delay changed: it is stored and the last key-down is forgotten.
    pub fn set_repeat_delay(&mut self, delay: u64)
        ensures
            final(self).repeat_delay == delay,
            final(self).last_key_down is None,
            final(self).codes == old(self).codes,
            final(self).keys == old(self).keys,
            final(self).modifiers == old(self).modifiers,
            final(self).pressed_modifiers() == old(self).pressed_modifiers(),
    {
        self.repeat_delay = delay;
        self.last_key_down = None;
    }
}

/// Routes the raw keyboard events of the view-process to the keyboard state.
pub struct KeyboardManager;

/// Key of the keyboard manager extension.
pub const KEYBOARD_MANAGER_ID: u64 = 0x4B3D_u64;

impl AppExtension for KeyboardManager {
    fn id(&self) -> u64 {
        KEYBOARD_MANAGER_ID
    }
}

impl KeyboardManager {
    /// A raw character input: the char input event goes to the focused widget when it is in
    /// the window that received the input.
    pub fn char_input(window_id: WindowId, character: char, focused: Option<InteractionPath>) -> (r: Option<
        CharInputArgs,
    >)
        ensures
            match focused {
                Some(t) => if t.window_id == window_id {
                    r == Some(CharInputArgs { window_id, character, target: t })
                } else {
                    r is None
                },
                None => r is None,
            },
    {
        match focused {
            Some(target) => {
                if target.window_id == window_id {
                    Some(CharInputArgs { window_id, character, target })
                } else {
                    None
                }
            },
            None => None,
        }
    }

    /// The focused window changed: when no window of the app is focused the keys are
    /// considered released.
    pub fn window_focus_changed(keyboard: &mut Keyboard, new_focus: Option<WindowId>)
        ensures
            new_focus is None ==> {
                &&& final(keyboard).pressed_modifiers() == Set::<u8>::empty()
                &&& final(keyboard).modifiers.bits == 0
                &&& final(keyboard).codes@ == Seq::<u32>::empty()
                &&& final(keyboard).keys@ == Seq::<Key>::empty()
                &&& final(keyboard).last_key_down is None
                &&& final(keyboard).repeat_delay == old(keyboard).repeat_delay
            },
            new_focus is Some ==> *final(keyboard) == *old(keyboard),
    {
        if new_focus.is_none() {
            keyboard.reset();
        }
    }

    /// The view-process started: its key repeat delay is used, and after a respawn the keys
    /// are considered released.
    pub fn view_process_inited(keyboard: &mut Keyboard, key_repeat_delay: u64, is_respawn: bool)
        ensures
            final(keyboard).repeat_delay == key_repeat_delay,
            is_respawn ==> {
                &&& final(keyboard).pressed_modifiers() == Set::<u8>::empty()
                &&& final(keyboard).modifiers.bits == 0
                &&& final(keyboard).codes@ == Seq::<u32>::empty()
                &&& final(keyboard).keys@ == Seq::<Key>::empty()
                &&& final(keyboard).last_key_down is None
            },
            !is_respawn ==> {
                &&& final(keyboard).pressed_modifiers() == old(keyboard).pressed_modifiers()
                &&& final(keyboard).modifiers == old(keyboard).modifiers
                &&& final(keyboard).codes == old(keyboard).codes
                &&& final(keyboard).keys == old(keyboard).keys
                &&& final(keyboard).last_key_down == old(keyboard).last_key_down
            },
    {
        if is_respawn {
            keyboard.reset();
        }
        let last = keyboard.last_key_down;
        keyboard.set_repeat_delay(key_repeat_delay);
        keyboard.last_key_down = last;
    }
}

/// A key-down is a repeat only of the last key-down: never when there was none, never when
/// its scan code or its device differs from the last one, never once twice the repeat delay
/// has passed since it; the same key on the same device within that time always is.
pub proof fn law_repeat_only_same_key(
    last_device: DeviceId,
    last_code: u32,
    last_time: u64,
    args: RawKeyInputArgs,
    repeat_delay: u64,
)
    ensures
        !is_repeat(None, args, repeat_delay),
        args.scan_code != last_code ==> !is_repeat(Some((last_device, last_code, last_time)), args, repeat_delay),
        args.device_id != last_device ==> !is_repeat(Some((last_device, last_code, last_time)), args, repeat_delay),
        args.timestamp >= last_time + 2 * repeat_delay ==> !is_repeat(
            Some((last_device, last_code, last_time)),
            args,
            repeat_delay,
        ),
        args.scan_code == last_code && args.device_id == last_device && last_time <= args.timestamp
            < last_time + 2 * repeat_delay ==> is_repeat(
            Some((last_device, last_code, last_time)),
            args,
            repeat_delay,
        ),
{
}

/// Pressing a modifier key that was not pressed and releasing it gives back the pressed set
/// and the modifiers state.
pub proof fn law_modifier_press_release(pressed: Set<u8>, flag: u8)
    requires
        !pressed.contains(flag),
    ensures
        pressed.insert(flag).remove(flag) == pressed,
        modifiers_of(pressed.insert(flag).remove(flag)) == modifiers_of(pressed),
{
    assert(pressed.insert(flag).remove(flag) =~= pressed);
}

/// Pressing a key that was not pressed and releasing it gives back the pressed list.
pub proof fn law_key_press_release<T>(pressed: Seq<T>, key: T)
    requires
        !pressed.contains(key),
    ensures
        swap_remove_first(push_new(pressed, key), key) == pressed,
{
    let s = pressed.push(key);
    assert forall|j: int| 0 <= j < pressed.len() implies s[j] != key by {
        assert(pressed[j] == s[j]);
    }
    lemma_seq_first_index(s, key, pressed.len() as int);
    assert(s.update(pressed.len() as int, s.last()).drop_last() =~= pressed);
}

/// After a take, none of the taken flags is set.
pub proof fn law_take_clears(bits: u8, part: u8)
    ensures
        (bits & !part) & part == 0,
        bits & part == 0 ==> bits & !part == bits,
{
    assert((bits & !part) & part == 0) by (bit_vector);
    assert(bits & part == 0 ==> bits & !part == bits) by (bit_vector);
}

} // verus!
