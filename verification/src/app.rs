//! App bookkeeping: the extensions an app is built with, shutdown requests, the mapping of
//! view-process window and device ids to app ids, and the control flow the update loop
//! returns.
use vstd::prelude::*;
use linear_map::LinearMap;

use crate::image::IMAGE_MANAGER_ID;
use crate::keyboard::KEYBOARD_MANAGER_ID;
use crate::window::WindowId;

verus! {

/// Error when the app connected to a channel has shut down; holds the value that could not be
/// sent, or `()` when receiving.
pub struct AppShutdown<T>(pub T);

impl<T> AppShutdown<T> {
    /// The error for `value`.
    pub fn new(value: T) -> (r: AppShutdown<T>)
        ensures
            r.0 == value,
    {
        AppShutdown(value)
    }

    /// The error message.
    pub fn to_text(&self) -> (r: String)
        ensures
            r@ == "cannot send/receive because the app has shutdown"@,
    {
        String::from_str("cannot send/receive because the app has shutdown")
    }
}

/// Error when the app connected to a channel has shut down or took too long to respond.
#[derive(Clone, Copy, Debug, PartialEq, Eq, Structural)]
pub enum TimeoutOrAppShutdown {
    /// The app did not respond in time.
    Timeout,
    /// The app has shut down.
    AppShutdown,
}

impl TimeoutOrAppShutdown {
    /// The error of a receive with timeout that failed: disconnected means the app shut down.
    pub fn from_recv_timeout(disconnected: bool) -> (r: TimeoutOrAppShutdown)
        ensures
            r == (if disconnected {
                TimeoutOrAppShutdown::AppShutdown
            } else {
                TimeoutOrAppShutdown::Timeout
            }),
    {
        if disconnected {
            TimeoutOrAppShutdown::AppShutdown
        } else {
            TimeoutOrAppShutdown::Timeout
        }
    }

    /// The error message.
    pub fn to_text(&self) -> (r: String)
        ensures
            r@ == (match self {
                TimeoutOrAppShutdown::Timeout => "failed send, timeout"@,
                TimeoutOrAppShutdown::AppShutdown => "cannot send because the app has shutdown"@,
            }),
    {
        match self {
            TimeoutOrAppShutdown::Timeout => String::from_str("failed send, timeout"),
            TimeoutOrAppShutdown::AppShutdown => String::from_str("cannot send because the app has shutdown"),
        }
    }
}

/// Cancellation of a shutdown request.
#[derive(Clone, Copy, Debug, PartialEq, Eq, Structural)]
pub struct ShutdownCancelled;

impl ShutdownCancelled {
    /// The cancellation message.
    pub fn to_text(&self) -> (r: String)
        ensures
            r@ == "shutdown cancelled"@,
    {
        String::from_str("shutdown cancelled")
    }
}

/// An app extension: identified by a key of its type, it may ask for raw device events.
pub trait AppExtension {
    /// The key of the extension's type.
    fn id(&self) -> u64;

    /// If the extension is of the type `id` or contains an extension of that type.
    fn is_or_contain(&self, id: u64) -> (r: bool)
        default_ensures
            exists|own: u64| call_ensures(Self::id, (self,), own) && r == (own == id),
    {
        self.id() == id
    }

    /// If the app must notify raw device events.
    fn enable_device_events(&self) -> bool {
        false
    }
}

/// What the app knows of one of its extensions.
#[derive(Clone, Copy, Debug, PartialEq, Eq, Structural)]
pub struct ExtensionInfo {
    /// The key of the extension's type.
    pub id: u64,
    /// The extension asks for raw device events.
    pub device_events: bool,
}

impl ExtensionInfo {
    /// What the app knows of an extension: the key of its type and if it asks for device
    /// events, as the extension answers.
    pub fn of<F: AppExtension>(extension: &F) -> (r: ExtensionInfo)
        ensures
            call_ensures(F::id, (extension,), r.id),
            call_ensures(F::enable_device_events, (extension,), r.device_events),
    {
        ExtensionInfo { id: extension.id(), device_events: extension.enable_device_events() }
    }
}

/// The extension that only enables device events.
pub const ENABLE_DEVICE_EVENTS_ID: u64 = 0xDE71CE_u64;

/// If an extension of type `id` is in the list.
pub open spec fn has_extension(exts: Seq<ExtensionInfo>, id: u64) -> bool {
    exists|i: int| 0 <= i < exts.len() && (#[trigger] exts[i]).id == id
}

/// If any extension of the list asks for device events.
pub open spec fn any_device_events(exts: Seq<ExtensionInfo>) -> bool {
    exists|i: int| 0 <= i < exts.len() && (#[trigger] exts[i]).device_events
}

/// Application with extensions, in the order they were added.
pub struct AppExtended {
    pub extensions: Vec<ExtensionInfo>,
}

/// The application.
pub struct App;

impl App {
    /// If an app is running in the thread: its variables or its events are instantiated.
    pub fn is_running(vars_instantiated: bool, events_instantiated: bool) -> (r: bool)
        ensures
            r == (vars_instantiated || events_instantiated),
    {
        vars_instantiated || events_instantiated
    }

    /// Application without any extension.
    pub fn blank() -> (r: AppExtended)
        ensures
            r.extensions@.len() == 0,
    {
        AppExtended { extensions: Vec::new() }
    }

    /// Application with the default extensions, in this order: the mouse, keyboard, gesture,
    /// window, font, focus and image managers; none asks for device events.
    pub fn default() -> (r: AppExtended)
        ensures
            r.extensions@ == default_extensions(),
    {
        App::blank()
            .extend(ExtensionInfo { id: MOUSE_MANAGER_ID, device_events: false })
            .extend(ExtensionInfo { id: KEYBOARD_MANAGER_ID, device_events: false })
            .extend(ExtensionInfo { id: GESTURE_MANAGER_ID, device_events: false })
            .extend(ExtensionInfo { id: WINDOW_MANAGER_ID, device_events: false })
            .extend(ExtensionInfo { id: FONT_MANAGER_ID, device_events: false })
            .extend(ExtensionInfo { id: FOCUS_MANAGER_ID, device_events: false })
            .extend(ExtensionInfo { id: IMAGE_MANAGER_ID, device_events: false })
    }
}

/// Key of the mouse manager extension.
pub const MOUSE_MANAGER_ID: u64 = 0x3053_u64;

/// Key of the gesture manager extension.
pub const GESTURE_MANAGER_ID: u64 = 0x6E57_u64;

/// Key of the window manager extension.
pub const WINDOW_MANAGER_ID: u64 = 0x3170_u64;

/// Key of the font manager extension.
pub const FONT_MANAGER_ID: u64 = 0xF047_u64;

/// Key of the focus manager extension.
pub const FOCUS_MANAGER_ID: u64 = 0xF0C5_u64;

/// The extensions of [`App::default`].
pub open spec fn default_extensions() -> Seq<ExtensionInfo> {
    seq![
        ExtensionInfo { id: MOUSE_MANAGER_ID, device_events: false },
        ExtensionInfo { id: KEYBOARD_MANAGER_ID, device_events: false },
        ExtensionInfo { id: GESTURE_MANAGER_ID, device_events: false },
        ExtensionInfo { id: WINDOW_MANAGER_ID, device_events: false },
        ExtensionInfo { id: FONT_MANAGER_ID, device_events: false },
        ExtensionInfo { id: FOCUS_MANAGER_ID, device_events: false },
        ExtensionInfo { id: IMAGE_MANAGER_ID, device_events: false },
    ]
}

impl AppExtended {
    /// If the application is already extended with the extension type `id`.
    pub fn extended_with(&self, id: u64) -> (r: bool)
        ensures
            r == has_extension(self.extensions@, id),
    {
        let mut i: usize = 0;
        while i < self.extensions.len()
            invariant
                i <= self.extensions@.len(),
                forall|j: int| 0 <= j < i ==> (#[trigger] self.extensions@[j]).id != id,
            decreases self.extensions@.len() - i,
        {
            if self.extensions[i].id == id {
                return true;
            }
            i = i + 1;
        }
        false
    }

    /// Includes an extension, by what the app knows of it; an app cannot be extended twice
    /// with one extension type.
    pub fn extend(self, info: ExtensionInfo) -> (r: AppExtended)
        requires
            !has_extension(self.extensions@, info.id),
        ensures
            r.extensions@ == self.extensions@.push(info),
    {
        let mut extensions = self.extensions;
        extensions.push(info);
        AppExtended { extensions }
    }

    /// Makes the app notify raw device events (events not targeting a window, like a mouse
    /// move anywhere on the screen); done once.
    pub fn enable_device_events(self) -> (r: AppExtended)
        requires
            !has_extension(self.extensions@, ENABLE_DEVICE_EVENTS_ID),
        ensures
            r.extensions@ == self.extensions@.push(ExtensionInfo { id: ENABLE_DEVICE_EVENTS_ID, device_events: true }),
    {
        self.extend(ExtensionInfo { id: ENABLE_DEVICE_EVENTS_ID, device_events: true })
    }

    /// If the running app will notify raw device events: some extension asks for them.
    pub fn device_events(&self) -> (r: bool)
        ensures
            r == any_device_events(self.extensions@),
    {
        let mut i: usize = 0;
        while i < self.extensions.len()
            invariant
                i <= self.extensions@.len(),
                forall|j: int| 0 <= j < i ==> !(#[trigger] self.extensions@[j]).device_events,
            decreases self.extensions@.len() - i,
        {
            if self.extensions[i].device_events {
                return true;
            }
            i = i + 1;
        }
        false
    }
}

/// Service of the app process: a pending shutdown request, answered by a response.
pub struct AppProcess {
    /// The response of the pending shutdown request.
    pub pending: Option<u64>,
    /// The id of the next response.
    pub next_response: u64,
}

impl AppProcess {
    /// No request.
    pub fn new() -> (r: AppProcess)
        ensures
            r.pending is None,
            r.next_response == 0,
    {
        AppProcess { pending: None, next_response: 0 }
    }

    /// Requests the process shutdown in the next update. Returns the response that is
    /// notified if the shutdown is cancelled (all requests until the next update share one),
    /// and if an update must be requested (for the first request).
    pub fn shutdown(&mut self) -> (r: (u64, bool))
        requires
            old(self).next_response < u64::MAX,
        ensures
            match old(self).pending {
                Some(id) => r == (id, false) && *final(self) == *old(self),
                None => r == (old(self).next_response, true) && final(self).pending == Some(old(self).next_response)
                    && final(self).next_response == old(self).next_response + 1,
            },
    {
        match self.pending {
            Some(id) => (id, false),
            None => {
                let id = self.next_response;
                self.pending = Some(id);
                self.next_response = id + 1;
                (id, true)
            },
        }
    }

    /// Takes the pending request.
    pub fn take_requests(&mut self) -> (r: Option<u64>)
        ensures
            r == old(self).pending,
            final(self).pending is None,
            final(self).next_response == old(self).next_response,
    {
        let r = self.pending;
        self.pending = None;
        r
    }
}

/// What the event loop does after an update.
#[derive(Clone, Copy, Debug, PartialEq, Eq, Structural)]
pub enum ControlFlow {
    /// Wait for the next event.
    Wait,
    /// Wait for the next event or until the time (in microseconds).
    WaitUntil(u64),
    /// Exit the app.
    Exit,
}

/// The result of applying the pending updates.
#[derive(Clone, Copy, Debug, PartialEq, Eq, Structural)]
pub struct UpdateInfo {
    /// Events or updates must be notified.
    pub update: bool,
    /// The display must be updated.
    pub display_update: bool,
    /// When timers need the app again.
    pub wake_time: Option<u64>,
}

/// The next thing the update loop does.
#[derive(Clone, Copy, Debug, PartialEq, Eq, Structural)]
pub enum UpdateStep {
    /// Check the shutdown request, then notify events and updates.
    Update,
    /// Update the display.
    UpdateDisplay,
    /// Nothing left: leave the loop.
    Done,
}

/// Most polls of the update loop in one update.
pub const UPDATE_LIMIT: u32 = 100_000u32;

/// Maps view-process ids to app ids.
pub type IdMap = LinearMap<u32, WindowId>;

/// What a map of view-process ids holds.
pub uninterp spec fn id_entries(m: IdMap) -> Map<u32, WindowId>;

/// `LinearMap::new`: an empty map.
#[verifier::external_body]
fn id_map_new() -> (r: IdMap)
    ensures
        id_entries(r).dom() == Set::<u32>::empty(),
{
    LinearMap::new()
}

/// `LinearMap::get`: the value of the key, if any.
#[verifier::external_body]
fn id_map_get(m: &IdMap, k: u32) -> (r: Option<WindowId>)
    ensures
        id_entries(*m).contains_key(k) ==> r == Some(id_entries(*m)[k]),
        !id_entries(*m).contains_key(k) ==> r is None,
{
    m.get(&k).copied()
}

/// `LinearMap::insert`: sets the value of the key, returns the value it replaced.
#[verifier::external_body]
fn id_map_insert(m: &mut IdMap, k: u32, v: WindowId) -> (r: Option<WindowId>)
    ensures
        id_entries(*final(m)) == id_entries(*old(m)).insert(k, v),
        id_entries(*old(m)).contains_key(k) ==> r == Some(id_entries(*old(m))[k]),
        !id_entries(*old(m)).contains_key(k) ==> r is None,
{
    m.insert(k, v)
}

/// A running app driven by an external event loop.
pub struct RunningApp {
    /// The app notifies raw device events.
    pub device_events: bool,
    /// The context may have updates.
    pub maybe_has_updates: bool,
    /// When timers need the app again.
    pub wake_time: Option<u64>,
    /// Shutdown was requested and not cancelled.
    pub exiting: bool,
    /// App window ids of view-process windows.
    pub window_ids: IdMap,
    /// App device ids of view-process devices.
    pub device_ids: IdMap,
    /// Display update requested in this update.
    pub pending_display: bool,
    /// Polls of the update loop in this update.
    pub polls: u32,
}

/// What the current thread holds of a running app: the app variables and events are
/// instantiated while an app runs in the thread.
pub struct ThreadState {
    pub vars_instantiated: bool,
    pub events_instantiated: bool,
}

impl ThreadState {
    /// A thread where no app has run.
    pub fn new() -> (r: ThreadState)
        ensures
            !r.vars_instantiated,
            !r.events_instantiated,
    {
        ThreadState { vars_instantiated: false, events_instantiated: false }
    }

    /// If an app is running in the thread (see [`App::is_running`]).
    pub fn app_running(&self) -> (r: bool)
        ensures
            r == (self.vars_instantiated || self.events_instantiated),
    {
        App::is_running(self.vars_instantiated, self.events_instantiated)
    }
}

impl RunningApp {
    /// A started app with its extensions. Only one app runs per thread: no app may be running
    /// in `thread`, and the app's variables and events are then instantiated there.
    pub fn start(app: &AppExtended, thread: &mut ThreadState) -> (r: RunningApp)
        requires
            !old(thread).vars_instantiated,
            !old(thread).events_instantiated,
        ensures
            final(thread).vars_instantiated,
            final(thread).events_instantiated,
            r.device_events == any_device_events(app.extensions@),
            r.maybe_has_updates,
            r.wake_time is None,
            !r.exiting,
            id_entries(r.window_ids).dom() == Set::<u32>::empty(),
            id_entries(r.device_ids).dom() == Set::<u32>::empty(),
            !r.pending_display,
            r.polls == 0,
    {
        thread.vars_instantiated = true;
        thread.events_instantiated = true;
        RunningApp {
            device_events: app.device_events(),
            maybe_has_updates: true,
            wake_time: None,
            exiting: false,
            window_ids: id_map_new(),
            device_ids: id_map_new(),
            pending_display: false,
            polls: 0,
        }
    }

    /// The app ends: its variables and events are dropped from the thread, so another app can
    /// start there.
    pub fn end(self, thread: &mut ThreadState)
        ensures
            !final(thread).vars_instantiated,
            !final(thread).events_instantiated,
    {
        thread.vars_instantiated = false;
        thread.events_instantiated = false;
    }

    /// Borrowing the context may add updates.
    pub fn ctx(&mut self)
        ensures
            final(self).maybe_has_updates,
            final(self).wake_time == old(self).wake_time,
            final(self).exiting == old(self).exiting,
    {
        self.maybe_has_updates = true;
    }

    /// The time asked by [`ControlFlow::WaitUntil`] elapsed.
    pub fn wait_until_elapsed(&mut self)
        ensures
            final(self).maybe_has_updates,
            final(self).wake_time == old(self).wake_time,
            final(self).exiting == old(self).exiting,
    {
        self.maybe_has_updates = true;
    }

    /// The app id of a view-process window; the first time, a new unique id made by
    /// `new_unique` (ids are unique in the whole process, not only in this app).
    pub fn window_id<F: FnOnce() -> WindowId>(&mut self, id: u32, new_unique: F) -> (r: WindowId)
        requires
            new_unique.requires(()),
        ensures
            id_entries(old(self).window_ids).contains_key(id) ==> r == id_entries(old(self).window_ids)[id]
                && id_entries(final(self).window_ids) == id_entries(old(self).window_ids),
            !id_entries(old(self).window_ids).contains_key(id) ==> new_unique.ensures((), r) && id_entries(
                final(self).window_ids,
            ) == id_entries(old(self).window_ids).insert(id, r),
            id_entries(final(self).device_ids) == id_entries(old(self).device_ids),
    {
        match id_map_get(&self.window_ids, id) {
            Some(w) => w,
            None => {
                let w = new_unique();
                id_map_insert(&mut self.window_ids, id, w);
                w
            },
        }
    }

    /// The app id of a view-process device: it is looked up and added in the same map as the
    /// window ids, so a device and a window with the same view-process id get the same app id.
    pub fn device_id<F: FnOnce() -> WindowId>(&mut self, id: u32, new_unique: F) -> (r: WindowId)
        requires
            new_unique.requires(()),
        ensures
            id_entries(old(self).window_ids).contains_key(id) ==> r == id_entries(old(self).window_ids)[id]
                && id_entries(final(self).window_ids) == id_entries(old(self).window_ids),
            !id_entries(old(self).window_ids).contains_key(id) ==> new_unique.ensures((), r) && id_entries(
                final(self).window_ids,
            ) == id_entries(old(self).window_ids).insert(id, r),
            id_entries(final(self).device_ids) == id_entries(old(self).device_ids),
    {
        self.window_id(id, new_unique)
    }

    /// Starts an update: returns `false` (nothing to do) unless the context may have updates.
    pub fn begin_update(&mut self) -> (r: bool)
        ensures
            r == old(self).maybe_has_updates,
            !final(self).maybe_has_updates,
            r ==> !final(self).pending_display && final(self).polls == 0,
            !r ==> final(self).pending_display == old(self).pending_display && final(self).polls == old(self).polls,
            final(self).wake_time == old(self).wake_time,
            final(self).exiting == old(self).exiting,
    {
        if self.maybe_has_updates {
            self.maybe_has_updates = false;
            self.pending_display = false;
            self.polls = 0;
            true
        } else {
            false
        }
    }

    /// One poll of the update loop with the applied updates: notify events and updates when
    /// there are any, else update the display if it was requested since the last display
    /// update, else the loop is done.
    pub fn update_step(&mut self, info: UpdateInfo) -> (r: UpdateStep)
        requires
            old(self).polls + 1 < UPDATE_LIMIT,
        ensures
            final(self).polls == old(self).polls + 1,
            final(self).wake_time == info.wake_time,
            info.update ==> r == UpdateStep::Update && final(self).pending_display == (old(self).pending_display
                || info.display_update),
            !info.update && (old(self).pending_display || info.display_update) ==> r == UpdateStep::UpdateDisplay
                && !final(self).pending_display,
            !info.update && !(old(self).pending_display || info.display_update) ==> r == UpdateStep::Done
                && !final(self).pending_display,
            final(self).exiting == old(self).exiting,
            final(self).maybe_has_updates == old(self).maybe_has_updates,
    {
        self.polls = self.polls + 1;
        self.wake_time = info.wake_time;
        self.pending_display = self.pending_display || info.display_update;
        if info.update {
            UpdateStep::Update
        } else if self.pending_display {
            self.pending_display = false;
            UpdateStep::UpdateDisplay
        } else {
            UpdateStep::Done
        }
    }

    /// The extensions answered a shutdown request: the app exits unless one cancelled it.
    /// Returns if the app exits.
    pub fn shutdown_answered(&mut self, cancelled: bool) -> (r: bool)
        ensures
            r == !cancelled,
            final(self).exiting == !cancelled,
            final(self).wake_time == old(self).wake_time,
            final(self).maybe_has_updates == old(self).maybe_has_updates,
    {
        self.exiting = !cancelled;
        self.exiting
    }

    /// What the event loop does next: exit after an accepted shutdown, else wait until the
    /// timers need the app, else wait for events.
    pub fn control_flow(&self) -> (r: ControlFlow)
        ensures
            r == (if self.exiting {
                ControlFlow::Exit
            } else {
                match self.wake_time {
                    Some(t) => ControlFlow::WaitUntil(t),
                    None => ControlFlow::Wait,
                }
            }),
    {
        if self.exiting {
            ControlFlow::Exit
        } else {
            match self.wake_time {
                Some(t) => ControlFlow::WaitUntil(t),
                None => ControlFlow::Wait,
            }
        }
    }
}

/// After an extension is added the app is extended with its type, it was not before, and the
/// app notifies device events if the extension or an earlier one asks for them.
pub proof fn law_extend_then_extended_with(exts: Seq<ExtensionInfo>, info: ExtensionInfo)
    ensures
        has_extension(exts.push(info), info.id),
        forall|id: u64| id != info.id ==> (has_extension(exts.push(info), id) <==> has_extension(exts, id)),
        any_device_events(exts.push(info)) == (any_device_events(exts) || info.device_events),
{
    let n = exts.push(info);
    assert(n[exts.len() as int] == info);
    assert forall|id: u64| id != info.id implies (has_extension(n, id) <==> has_extension(exts, id)) by {
        if has_extension(exts, id) {
            let i = choose|i: int| 0 <= i < exts.len() && (#[trigger] exts[i]).id == id;
            assert(n[i] == exts[i]);
        }
        if has_extension(n, id) {
            let i = choose|i: int| 0 <= i < n.len() && (#[trigger] n[i]).id == id;
            assert(n[i] == exts[i]);
        }
    }
    if any_device_events(exts) {
        let i = choose|i: int| 0 <= i < exts.len() && (#[trigger] exts[i]).device_events;
        assert(n[i] == exts[i]);
    }
    if any_device_events(n) && !info.device_events {
        let i = choose|i: int| 0 <= i < n.len() && (#[trigger] n[i]).device_events;
        assert(n[i] == exts[i]);
    }
}

} // verus!
