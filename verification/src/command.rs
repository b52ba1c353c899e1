//! Commands: scopes, arguments, handles that enable a command, and command metadata.
//!
//! A command is *relevant* in a scope while at least one [`CommandHandle`] of that scope is
//! alive, and *enabled* while at least one of those handles is enabled. Each scope of a command
//! keeps its own handle state in [`CommandData`].
use std::collections::HashMap;
use std::time::Instant;
use vstd::prelude::*;

use crate::ui_list::WidgetId;
use crate::window::WindowId;

verus! {

/// `std::time::Instant`, carried as an opaque value.
#[verifier::external_type_specification]
#[verifier::external_body]
pub struct ExInstant(Instant);

/// Reads the monotonic clock, `std::time::Instant::now`. Nothing is claimed of the value.
#[verifier::external_body]
fn instant_now() -> Instant {
    Instant::now()
}

/// The scope of a command: the targets of its event and the context of its metadata.
#[derive(Clone, Copy, Debug, PartialEq, Eq, Hash, Structural)]
pub enum CommandScope {
    /// Default scope, of commands declared at the app level.
    App,
    /// Scope of a window.
    Window(WindowId),
    /// Scope of a widget.
    Widget(WidgetId),
}

/// Event arguments of a command notification, `P` is the parameter type.
pub struct CommandArgs<P> {
    /// When the notification was created.
    pub timestamp: Instant,
    /// Optional parameter for the command handler.
    pub param: Option<P>,
    /// Scope of the command that notified.
    pub scope: CommandScope,
    /// If the command handle was enabled when the command notified.
    pub enabled: bool,
    /// If a handler already handled the notification.
    pub propagation_stopped: bool,
}

impl<P> CommandArgs<P> {
    /// New arguments timestamped now, propagation not stopped.
    pub fn now(param: Option<P>, scope: CommandScope, enabled: bool) -> (r: CommandArgs<P>)
        ensures
            r.param == param,
            r.scope == scope,
            r.enabled == enabled,
            !r.propagation_stopped,
    {
        CommandArgs { timestamp: instant_now(), param, scope, enabled, propagation_stopped: false }
    }

    /// The parameter, if any.
    pub fn param(&self) -> (r: Option<&P>)
        ensures
            r == (match self.param {
                Some(p) => Some(&p),
                None => None::<&P>,
            }),
    {
        match &self.param {
            Some(p) => Some(p),
            None => None,
        }
    }

    /// The parameter if the command was enabled.
    pub fn enabled_param(&self) -> (r: Option<&P>)
        ensures
            r == (if self.enabled {
                match self.param {
                    Some(p) => Some(&p),
                    None => None::<&P>,
                }
            } else {
                None::<&P>
            }),
    {
        if self.enabled {
            self.param()
        } else {
            None
        }
    }

    /// The parameter if the command was disabled.
    pub fn disabled_param(&self) -> (r: Option<&P>)
        ensures
            r == (if !self.enabled {
                match self.param {
                    Some(p) => Some(&p),
                    None => None::<&P>,
                }
            } else {
                None::<&P>
            }),
    {
        if !self.enabled {
            self.param()
        } else {
            None
        }
    }

    /// Calls `handler` if propagation is not stopped, then stops propagation.
    pub fn handle<R, F: FnOnce(&Self) -> R>(&mut self, handler: F) -> (r: Option<R>)
        requires
            call_requires(handler, (&*old(self),)),
        ensures
            final(self).propagation_stopped,
            final(self).scope == old(self).scope,
            final(self).enabled == old(self).enabled,
            final(self).param == old(self).param,
            old(self).propagation_stopped ==> r is None,
            !old(self).propagation_stopped ==> (r matches Some(v) && call_ensures(
                handler,
                (&*old(self),),
                v,
            )),
    {
        if self.propagation_stopped {
            None
        } else {
            let r = handler(&*self);
            self.propagation_stopped = true;
            Some(r)
        }
    }

    /// Stops propagation and calls `handler` if the command and the local handle are enabled
    /// and the notification was not handled.
    pub fn handle_enabled<R, F: FnOnce(&Self) -> R>(
        &mut self,
        local_handle: &CommandHandle,
        handler: F,
    ) -> (r: Option<R>)
        requires
            call_requires(handler, (&*old(self),)),
        ensures
            final(self).propagation_stopped,
            final(self).scope == old(self).scope,
            final(self).enabled == old(self).enabled,
            final(self).param == old(self).param,
            (old(self).propagation_stopped || !old(self).enabled || !local_handle.local_enabled)
                ==> r is None,
            (!old(self).propagation_stopped && old(self).enabled && local_handle.local_enabled) ==> (
            r matches Some(v) && call_ensures(handler, (&*old(self),), v)),
    {
        if self.propagation_stopped {
            None
        } else {
            let r = if self.enabled && local_handle.is_enabled() {
                Some(handler(&*self))
            } else {
                None
            };
            self.propagation_stopped = true;
            r
        }
    }
}

/// Handle state of one command scope.
#[derive(Clone, Copy, Debug, PartialEq, Eq, Structural)]
pub struct ScopeHandles {
    /// Number of live handles.
    pub handles: usize,
    /// Number of live handles that are enabled.
    pub enabled_count: usize,
    /// If the scope was registered with the events service.
    pub registered: bool,
}

impl ScopeHandles {
    /// The state of a scope that never had a handle.
    pub open spec fn fresh() -> ScopeHandles {
        ScopeHandles { handles: 0, enabled_count: 0, registered: false }
    }

    /// At least one handle is alive.
    pub open spec fn has_handlers(self) -> bool {
        self.handles > 0
    }

    /// At least one handle is alive and at least one is enabled.
    pub open spec fn is_enabled(self) -> bool {
        self.handles > 0 && self.enabled_count > 0
    }

    /// The state after a new handle, enabled or not: the scope is registered.
    pub open spec fn after_new_handle(self, enabled: bool) -> ScopeHandles {
        ScopeHandles {
            handles: (self.handles + 1) as usize,
            enabled_count: if enabled { (self.enabled_count + 1) as usize } else { self.enabled_count },
            registered: true,
        }
    }

    /// The state after a handle, enabled or not, is dropped.
    pub open spec fn after_release(self, enabled: bool) -> ScopeHandles {
        ScopeHandles {
            handles: (self.handles - 1) as usize,
            enabled_count: if enabled { (self.enabled_count - 1) as usize } else { self.enabled_count },
            registered: self.registered,
        }
    }

    /// The state after a handle goes from enabled `from` to enabled `to`.
    pub open spec fn after_enable(self, from: bool, to: bool) -> ScopeHandles {
        if from == to {
            self
        } else if to {
            ScopeHandles { enabled_count: (self.enabled_count + 1) as usize, ..self }
        } else {
            ScopeHandles { enabled_count: (self.enabled_count - 1) as usize, ..self }
        }
    }
}

/// A new handle gives the scope handlers, and an enabled new handle enables the command.
pub proof fn law_new_handle_has_handlers(o: ScopeHandles, enabled: bool)
    requires
        o.handles < usize::MAX,
        o.enabled_count < usize::MAX,
    ensures
        o.after_new_handle(enabled).has_handlers(),
        enabled ==> o.after_new_handle(enabled).is_enabled(),
        !enabled ==> (o.after_new_handle(enabled).is_enabled() <==> o.enabled_count > 0),
{
}

/// Dropping a new handle gives back the counts the scope had; the scope stays registered.
pub proof fn law_release_undoes_new_handle(o: ScopeHandles, enabled: bool)
    requires
        o.handles < usize::MAX,
        o.enabled_count < usize::MAX,
    ensures
        o.after_new_handle(enabled).after_release(enabled) == (ScopeHandles { registered: true, ..o }),
{
}

/// Dropping the last handle leaves the scope without handlers, and not enabled.
pub proof fn law_last_release_no_handlers(o: ScopeHandles, enabled: bool)
    requires
        o.handles == 1,
        enabled ==> o.enabled_count > 0,
    ensures
        !o.after_release(enabled).has_handlers(),
        !o.after_release(enabled).is_enabled(),
{
}

/// Enabling a handle and disabling it again gives back the scope state.
pub proof fn law_enable_then_disable(o: ScopeHandles)
    requires
        o.enabled_count < usize::MAX,
    ensures
        o.after_enable(false, true).after_enable(true, false) == o,
{
}

/// Handle state of a command for the app scope and each other scope that was used.
pub struct CommandData {
    app: ScopeHandles,
    scopes: Vec<(CommandScope, ScopeHandles)>,
}

impl CommandData {
    /// Each scope appears once and the app scope is kept apart.
    pub closed spec fn wf(self) -> bool {
        &&& forall|i: int| 0 <= i < self.scopes@.len() ==> self.scopes@[i].0 != CommandScope::App
        &&& forall|i: int, j: int|
            0 <= i < j < self.scopes@.len() ==> self.scopes@[i].0 != self.scopes@[j].0
    }

    /// Handle state of `scope`.
    pub closed spec fn state(self, scope: CommandScope) -> ScopeHandles {
        if scope == CommandScope::App {
            self.app
        } else if exists|i: int| 0 <= i < self.scopes@.len() && self.scopes@[i].0 == scope {
            let i = choose|i: int| 0 <= i < self.scopes@.len() && self.scopes@[i].0 == scope;
            self.scopes@[i].1
        } else {
            ScopeHandles::fresh()
        }
    }

    /// No scope has had a handle.
    pub fn new() -> (r: CommandData)
        ensures
            r.wf(),
            forall|s: CommandScope| #[trigger] r.state(s) == ScopeHandles::fresh(),
    {
        CommandData {
            app: ScopeHandles { handles: 0, enabled_count: 0, registered: false },
            scopes: Vec::new(),
        }
    }

    proof fn lemma_state_at(self, i: int)
        requires
            self.wf(),
            0 <= i < self.scopes@.len(),
        ensures
            self.state(self.scopes@[i].0) == self.scopes@[i].1,
    {
        let s = self.scopes@[i].0;
        let j = choose|j: int| 0 <= j < self.scopes@.len() && self.scopes@[j].0 == s;
        assert(self.scopes@[j].0 == s);
        if j < i {
            assert(self.scopes@[j].0 != self.scopes@[i].0);
        }
        if i < j {
            assert(self.scopes@[i].0 != self.scopes@[j].0);
        }
    }

    fn scope_index(&self, scope: CommandScope) -> (r: Option<usize>)
        requires
            self.wf(),
            scope != CommandScope::App,
        ensures
            r matches Some(i) ==> i < self.scopes@.len() && self.scopes@[i as int].0 == scope
                && self.state(scope) == self.scopes@[i as int].1,
            r is None ==> self.state(scope) == ScopeHandles::fresh() && forall|i: int|
                0 <= i < self.scopes@.len() ==> self.scopes@[i].0 != scope,
    {
        let mut i: usize = 0;
        while i < self.scopes.len()
            invariant
                i <= self.scopes@.len(),
                self.wf(),
                forall|j: int| 0 <= j < i ==> self.scopes@[j].0 != scope,
            decreases self.scopes@.len() - i,
        {
            if self.scopes[i].0 == scope {
                proof {
                    self.lemma_state_at(i as int);
                }
                return Some(i);
            }
            i = i + 1;
        }
        None
    }

    /// Handle state of `scope`.
    pub fn scope_state(&self, scope: CommandScope) -> (r: ScopeHandles)
        requires
            self.wf(),
        ensures
            r == self.state(scope),
    {
        if scope == CommandScope::App {
            self.app
        } else {
            match self.scope_index(scope) {
                Some(i) => self.scopes[i].1,
                None => ScopeHandles { handles: 0, enabled_count: 0, registered: false },
            }
        }
    }

    /// Sets the handle state of `scope`, other scopes keep theirs.
    fn set_scope_state(&mut self, scope: CommandScope, value: ScopeHandles)
        requires
            old(self).wf(),
        ensures
            final(self).wf(),
            final(self).state(scope) == value,
            forall|s: CommandScope| s != scope ==> #[trigger] final(self).state(s) == old(self).state(s),
    {
        if scope == CommandScope::App {
            self.app = value;
            proof {
                assert forall|s: CommandScope| s != scope implies #[trigger] self.state(s) == old(self).state(s) by {
                    assert(self.scopes@ == old(self).scopes@);
                }
            }
        } else {
            match self.scope_index(scope) {
                Some(i) => {
                    let ghost old_self = *old(self);
                    self.scopes.set(i, (scope, value));
                    proof {
                        assert forall|k: int| 0 <= k < self.scopes@.len() implies self.scopes@[k].0
                            == old_self.scopes@[k].0 by {}
                        assert(self.wf());
                        self.lemma_state_at(i as int);
                        assert forall|s: CommandScope| s != scope implies #[trigger] self.state(s)
                            == old_self.state(s) by {
                            if s != CommandScope::App {
                                if exists|j: int| 0 <= j < self.scopes@.len() && self.scopes@[j].0 == s {
                                    let j = choose|j: int| 0 <= j < self.scopes@.len() && self.scopes@[j].0 == s;
                                    self.lemma_state_at(j);
                                    old_self.lemma_state_at(j);
                                } else {
                                    assert forall|j: int| 0 <= j < old_self.scopes@.len() implies old_self.scopes@[j].0 != s by {
                                        if j != i {
                                            assert(self.scopes@[j] == old_self.scopes@[j]);
                                        }
                                    }
                                }
                            }
                        }
                    }
                },
                None => {
                    let ghost old_self = *old(self);
                    self.scopes.push((scope, value));
                    proof {
                        let n = old_self.scopes@.len() as int;
                        assert forall|k: int| 0 <= k < n implies self.scopes@[k] == old_self.scopes@[k] by {}
                        assert(self.wf());
                        self.lemma_state_at(n);
                        assert forall|s: CommandScope| s != scope implies #[trigger] self.state(s)
                            == old_self.state(s) by {
                            if s != CommandScope::App {
                                if exists|j: int| 0 <= j < old_self.scopes@.len() && old_self.scopes@[j].0 == s {
                                    let j = choose|j: int| 0 <= j < old_self.scopes@.len() && old_self.scopes@[j].0 == s;
                                    self.lemma_state_at(j);
                                    old_self.lemma_state_at(j);
                                } else {
                                    assert forall|j: int| 0 <= j < self.scopes@.len() implies self.scopes@[j].0 != s by {
                                        if j < n {
                                            assert(self.scopes@[j] == old_self.scopes@[j]);
                                        }
                                    }
                                }
                            }
                        }
                    }
                },
            }
        }
    }
}

/// A handle to a command scope. Holding it makes the command relevant in the scope; enabling
/// it makes the command enabled.
pub struct CommandHandle {
    /// Scope the handle belongs to.
    pub scope: CommandScope,
    /// If this handle has enabled the command.
    pub local_enabled: bool,
    /// `false` for a dummy handle that is not connected to any command.
    pub connected: bool,
}

impl CommandHandle {
    /// A handle that is not connected to any command, not enabled.
    pub fn dummy() -> (r: CommandHandle)
        ensures
            !r.connected,
            !r.local_enabled,
    {
        CommandHandle { scope: CommandScope::App, local_enabled: false, connected: false }
    }

    /// Returns if this handle has enabled the command.
    pub fn is_enabled(&self) -> (r: bool)
        ensures
            r == self.local_enabled,
    {
        self.local_enabled
    }

    /// Sets if this handle enables the command; the scope's enabled count changes by one when
    /// the handle's own state changes.
    pub fn set_enabled(&mut self, data: &mut CommandData, enabled: bool)
        requires
            old(data).wf(),
            old(self).connected && enabled && !old(self).local_enabled ==> old(data).state(
                old(self).scope,
            ).enabled_count < usize::MAX,
            old(self).connected && !enabled && old(self).local_enabled ==> old(data).state(
                old(self).scope,
            ).enabled_count > 0,
        ensures
            final(data).wf(),
            final(self).local_enabled == enabled,
            final(self).scope == old(self).scope,
            final(self).connected == old(self).connected,
            forall|s: CommandScope| s != old(self).scope ==> #[trigger] final(data).state(s) == old(data).state(s),
            !old(self).connected ==> final(data).state(old(self).scope) == old(data).state(old(self).scope),
            old(self).connected ==> final(data).state(old(self).scope) == old(data).state(old(self).scope).after_enable(
                old(self).local_enabled,
                enabled,
            ),
    {
        if self.local_enabled != enabled {
            self.local_enabled = enabled;
            if self.connected {
                let mut st = data.scope_state(self.scope);
                if enabled {
                    st.enabled_count = st.enabled_count + 1;
                } else {
                    st.enabled_count = st.enabled_count - 1;
                }
                data.set_scope_state(self.scope, st);
            }
        }
    }

    /// Drops the handle: if it was enabled the scope's enabled count decreases, and the scope
    /// loses one live handle.
    pub fn release(self, data: &mut CommandData)
        requires
            old(data).wf(),
            self.connected ==> old(data).state(self.scope).handles > 0,
            self.connected && self.local_enabled ==> old(data).state(self.scope).enabled_count > 0,
        ensures
            final(data).wf(),
            forall|s: CommandScope| s != self.scope ==> #[trigger] final(data).state(s) == old(data).state(s),
            !self.connected ==> final(data).state(self.scope) == old(data).state(self.scope),
            self.connected ==> final(data).state(self.scope) == old(data).state(self.scope).after_release(
                self.local_enabled,
            ),
    {
        if self.connected {
            let mut st = data.scope_state(self.scope);
            if self.local_enabled {
                st.enabled_count = st.enabled_count - 1;
            }
            st.handles = st.handles - 1;
            data.set_scope_state(self.scope, st);
        }
    }
}

/// A command reference in a scope.
#[derive(Clone, Copy, Debug, PartialEq, Eq, Structural)]
pub struct Command {
    scope: CommandScope,
}

impl Command {
    pub closed spec fn spec_scope(self) -> CommandScope {
        self.scope
    }

    /// The command in the app scope.
    pub fn new() -> (r: Command)
        ensures
            r.spec_scope() == CommandScope::App,
    {
        Command { scope: CommandScope::App }
    }

    /// The scope of this command reference.
    pub fn scope(&self) -> (r: CommandScope)
        ensures
            r == self.spec_scope(),
    {
        self.scope
    }

    /// The same command in another scope.
    pub fn scoped(self, scope: CommandScope) -> (r: Command)
        ensures
            r.spec_scope() == scope,
    {
        Command { scope }
    }

    /// New handle in this command's scope: the scope is registered, gains a live handle, and
    /// the handle is enabled if `enabled`.
    pub fn new_handle(&self, data: &mut CommandData, enabled: bool) -> (r: CommandHandle)
        requires
            old(data).wf(),
            old(data).state(self.spec_scope()).handles < usize::MAX,
            enabled ==> old(data).state(self.spec_scope()).enabled_count < usize::MAX,
        ensures
            final(data).wf(),
            r.scope == self.spec_scope(),
            r.connected,
            r.local_enabled == enabled,
            forall|s: CommandScope| s != self.spec_scope() ==> #[trigger] final(data).state(s) == old(data).state(s),
            final(data).state(self.spec_scope()) == old(data).state(self.spec_scope()).after_new_handle(enabled),
    {
        let mut st = data.scope_state(self.scope);
        st.registered = true;
        st.handles = st.handles + 1;
        data.set_scope_state(self.scope, st);
        let mut handle = CommandHandle { scope: self.scope, local_enabled: false, connected: true };
        if enabled {
            handle.set_enabled(data, true);
        }
        handle
    }

    /// If at least one handle of this scope is alive.
    pub fn has_handlers_value(&self, data: &CommandData) -> (r: bool)
        requires
            data.wf(),
        ensures
            r == data.state(self.spec_scope()).has_handlers(),
    {
        data.scope_state(self.scope).handles > 0
    }

    /// If at least one handle of this scope is alive and one is enabled.
    pub fn is_enabled_value(&self, data: &CommandData) -> (r: bool)
        requires
            data.wf(),
        ensures
            r == data.state(self.spec_scope()).is_enabled(),
    {
        let st = data.scope_state(self.scope);
        st.handles > 0 && st.enabled_count > 0
    }

    /// The arguments of a notification of this command's event, if it is for this scope.
    pub fn on<'a, P>(&self, args: &'a CommandArgs<P>) -> (r: Option<&'a CommandArgs<P>>)
        ensures
            r == (if args.scope == self.spec_scope() {
                Some(args)
            } else {
                None::<&CommandArgs<P>>
            }),
    {
        if args.scope == self.scope {
            Some(args)
        } else {
            None
        }
    }

    /// The arguments of a notification of this command's event, if it is for this scope and
    /// not handled yet.
    pub fn on_unhandled<'a, P>(&self, args: &'a CommandArgs<P>) -> (r: Option<&'a CommandArgs<P>>)
        ensures
            r == (if args.scope == self.spec_scope() && !args.propagation_stopped {
                Some(args)
            } else {
                None::<&CommandArgs<P>>
            }),
    {
        if args.scope == self.scope && !args.propagation_stopped {
            Some(args)
        } else {
            None
        }
    }

    /// Calls `handler` if the notification is for this scope and not handled yet; after the
    /// handler propagation is stopped.
    pub fn handle<P, R, F: FnOnce(&CommandArgs<P>) -> R>(&self, args: &mut CommandArgs<P>, handler: F) -> (r: Option<
        R,
    >)
        requires
            call_requires(handler, (&*old(args),)),
        ensures
            old(args).scope != self.spec_scope() ==> r is None && *final(args) == *old(args),
            old(args).scope == self.spec_scope() ==> {
                &&& final(args).propagation_stopped
                &&& final(args).scope == old(args).scope
                &&& final(args).enabled == old(args).enabled
                &&& final(args).param == old(args).param
                &&& old(args).propagation_stopped ==> r is None
                &&& !old(args).propagation_stopped ==> (r matches Some(v) && call_ensures(
                    handler,
                    (&*old(args),),
                    v,
                ))
            },
    {
        if args.scope == self.scope {
            args.handle(handler)
        } else {
            None
        }
    }

    /// New notification arguments for this command, enabled as the scope currently is.
    pub fn notify_args<P>(&self, data: &CommandData, param: Option<P>) -> (r: CommandArgs<P>)
        requires
            data.wf(),
        ensures
            r.param == param,
            r.scope == self.spec_scope(),
            r.enabled == data.state(self.spec_scope()).is_enabled(),
            !r.propagation_stopped,
    {
        CommandArgs::now(param, self.scope, self.is_enabled_value(data))
    }
}

/// What a command handler node keeps while it is initialized: its command, and the handle
/// that makes the command relevant and enables it while the node's enabled value is `true`.
pub struct CommandNode {
    pub command: Option<Command>,
    pub handle: Option<CommandHandle>,
}

impl CommandNode {
    /// If the node's handle, if any, is counted in the state of its scope.
    pub open spec fn counted(self, data: CommandData) -> bool {
        match self.handle {
            Some(h) => h.connected ==> {
                &&& data.state(h.scope).handles > 0
                &&& h.local_enabled ==> data.state(h.scope).enabled_count > 0
            },
            None => true,
        }
    }

    /// A node that is not initialized.
    pub fn new() -> (r: CommandNode)
        ensures
            r.command is None,
            r.handle is None,
    {
        CommandNode { command: None, handle: None }
    }

    /// Initializes the node with the command it builds and its current enabled value: the
    /// node holds a new handle of the command, enabled as the value is.
    pub fn init(&mut self, data: &mut CommandData, command: Command, is_enabled: bool)
        requires
            old(self).handle is None,
            old(data).wf(),
            old(data).state(command.spec_scope()).handles < usize::MAX,
            is_enabled ==> old(data).state(command.spec_scope()).enabled_count < usize::MAX,
        ensures
            final(data).wf(),
            final(self).command == Some(command),
            final(self).handle matches Some(h) && h.scope == command.spec_scope() && h.connected && h.local_enabled
                == is_enabled,
            final(data).state(command.spec_scope()) == old(data).state(command.spec_scope()).after_new_handle(
                is_enabled,
            ),
            forall|s: CommandScope| s != command.spec_scope() ==> #[trigger] final(data).state(s) == old(data).state(s),
            final(self).counted(*final(data)),
    {
        let handle = command.new_handle(data, is_enabled);
        self.command = Some(command);
        self.handle = Some(handle);
    }

    /// Updates the node: a new enabled value enables or disables its handle.
    pub fn update(&mut self, data: &mut CommandData, new_enabled: Option<bool>)
        requires
            old(self).handle is Some,
            old(self).counted(*old(data)),
            old(data).wf(),
            new_enabled == Some(true) && old(self).handle->0.connected ==> old(data).state(
                old(self).handle->0.scope,
            ).enabled_count < usize::MAX,
        ensures
            final(data).wf(),
            final(self).command == old(self).command,
            final(self).counted(*final(data)),
            match new_enabled {
                None => *final(self) == *old(self) && *final(data) == *old(data),
                Some(e) => {
                    let h = old(self).handle->0;
                    &&& final(self).handle == Some(CommandHandle { local_enabled: e, ..h })
                    &&& forall|s: CommandScope| s != h.scope ==> #[trigger] final(data).state(s) == old(data).state(s)
                    &&& !h.connected ==> final(data).state(h.scope) == old(data).state(h.scope)
                    &&& h.connected ==> final(data).state(h.scope) == old(data).state(h.scope).after_enable(
                        h.local_enabled,
                        e,
                    )
                },
            },
    {
        if let Some(e) = new_enabled {
            let mut h = self.handle.take().unwrap();
            h.set_enabled(data, e);
            self.handle = Some(h);
        }
    }

    /// If the node's handler runs for a notification of its command's event: the
    /// notification is for the node's scope and not handled yet.
    pub fn should_handle<P>(&self, args: &CommandArgs<P>) -> (r: bool)
        requires
            self.command is Some,
        ensures
            r == (args.scope == self.command->0.spec_scope() && !args.propagation_stopped),
    {
        self.command.unwrap().on_unhandled(args).is_some()
    }

    /// Deinitializes the node: its handle is dropped and its command forgotten.
    pub fn deinit(&mut self, data: &mut CommandData)
        requires
            old(self).counted(*old(data)),
            old(data).wf(),
        ensures
            final(data).wf(),
            final(self).command is None,
            final(self).handle is None,
            match old(self).handle {
                None => *final(data) == *old(data),
                Some(h) => {
                    &&& forall|s: CommandScope| s != h.scope ==> #[trigger] final(data).state(s) == old(data).state(s)
                    &&& !h.connected ==> final(data).state(h.scope) == old(data).state(h.scope)
                    &&& h.connected ==> final(data).state(h.scope) == old(data).state(h.scope).after_release(
                        h.local_enabled,
                    )
                },
            },
    {
        if let Some(h) = self.handle.take() {
            h.release(data);
        }
        self.command = None;
    }
}

/// Snapshot of a command metadata variable: its value, and whether writes go to the app value
/// (`pass_through`, for app scoped commands) or to a scope copy.
#[derive(Clone, Copy, Debug, PartialEq, Eq, Structural)]
pub struct CommandMetaVar<V> {
    pub value: V,
    pub pass_through: bool,
}

/// Metadata values and variables of one scope, keyed by state id.
pub struct MetaMaps<V> {
    pub values: HashMap<u64, V>,
    pub vars: HashMap<u64, CommandMetaVar<V>>,
}

impl<V> MetaMaps<V> {
    /// No metadata.
    pub fn new() -> (r: MetaMaps<V>)
        ensures
            r.values@ == Map::<u64, V>::empty(),
            r.vars@ == Map::<u64, CommandMetaVar<V>>::empty(),
    {
        MetaMaps { values: HashMap::new(), vars: HashMap::new() }
    }
}

/// Access to the metadata of a command: the app metadata and, for a scoped command, the
/// scope overrides.
pub struct CommandMeta<V> {
    pub meta: MetaMaps<V>,
    pub scope: Option<MetaMaps<V>>,
}

impl<V: Copy> CommandMeta<V> {
    /// Clone of the value `id`: the scope override if any, else the app value; if neither is
    /// set the value from `init` is inserted (in the scope when scoped, else in the app).
    pub fn get_or_insert<F: FnOnce() -> V>(&mut self, id: u64, init: F) -> (r: V)
        requires
            call_requires(init, ()),
        ensures
            final(self).meta.vars@ == old(self).meta.vars@,
            final(self).scope is Some == old(self).scope is Some,
            old(self).scope matches Some(sc) ==> {
                &&& final(self).meta.values@ == old(self).meta.values@
                &&& final(self).scope->0.vars@ == sc.vars@
                &&& if sc.values@.contains_key(id) {
                    r == sc.values@[id] && final(self).scope->0.values@ == sc.values@
                } else if old(self).meta.values@.contains_key(id) {
                    r == old(self).meta.values@[id] && final(self).scope->0.values@ == sc.values@
                } else {
                    call_ensures(init, (), r) && final(self).scope->0.values@ == sc.values@.insert(id, r)
                }
            },
            old(self).scope is None ==> {
                if old(self).meta.values@.contains_key(id) {
                    r == old(self).meta.values@[id] && final(self).meta.values@ == old(self).meta.values@
                } else {
                    call_ensures(init, (), r) && final(self).meta.values@ == old(self).meta.values@.insert(id, r)
                }
            },
    {
        broadcast use vstd::std_specs::hash::group_hash_axioms;
        match &mut self.scope {
            Some(sc) => {
                match sc.values.get(&id) {
                    Some(v) => *v,
                    None => match self.meta.values.get(&id) {
                        Some(v) => *v,
                        None => {
                            let v = init();
                            sc.values.insert(id, v);
                            v
                        },
                    },
                }
            },
            None => {
                match self.meta.values.get(&id) {
                    Some(v) => *v,
                    None => {
                        let v = init();
                        self.meta.values.insert(id, v);
                        v
                    },
                }
            },
        }
    }

    /// Visits the metadata with `visit`. The first visit (`inited` is `false`) first runs the
    /// command's metadata `init` on it; `inited` is `true` afterwards, so `init` runs once.
    /// Returns the metadata and what `visit` returned.
    pub fn with_meta<R, I: FnOnce(CommandMeta<V>) -> CommandMeta<V>, F: FnOnce(CommandMeta<V>) -> (CommandMeta<V>, R)>(
        self,
        inited: &mut bool,
        init: I,
        visit: F,
    ) -> (r: (CommandMeta<V>, R))
        requires
            !*old(inited) ==> init.requires((self,)),
            !*old(inited) ==> forall|m: CommandMeta<V>| init.ensures((self,), m) ==> visit.requires((m,)),
            *old(inited) ==> visit.requires((self,)),
        ensures
            *final(inited),
            *old(inited) ==> visit.ensures((self,), r),
            !*old(inited) ==> exists|m: CommandMeta<V>| init.ensures((self,), m) && visit.ensures((m,), r),
    {
        if *inited {
            visit(self)
        } else {
            *inited = true;
            let m = init(self);
            visit(m)
        }
    }

    /// Set the value `id`: in the scope when scoped, else in the app. Returns the previous
    /// value of the map it was set in, if any was set.
    pub fn set(&mut self, id: u64, value: V) -> (r: Option<V>)
        ensures
            final(self).meta.vars@ == old(self).meta.vars@,
            final(self).scope is Some == old(self).scope is Some,
            old(self).scope matches Some(sc) ==> {
                &&& final(self).meta.values@ == old(self).meta.values@
                &&& final(self).scope->0.values@ == sc.values@.insert(id, value)
                &&& final(self).scope->0.vars@ == sc.vars@
                &&& r == (if sc.values@.contains_key(id) {
                    Some(sc.values@[id])
                } else {
                    None
                })
            },
            old(self).scope is None ==> {
                &&& final(self).meta.values@ == old(self).meta.values@.insert(id, value)
                &&& r == (if old(self).meta.values@.contains_key(id) {
                    Some(old(self).meta.values@[id])
                } else {
                    None
                })
            },
    {
        broadcast use vstd::std_specs::hash::group_hash_axioms;
        match &mut self.scope {
            Some(sc) => sc.values.insert(id, value),
            None => self.meta.values.insert(id, value),
        }
    }

    /// Set the app value `id` only if it is not set; the scope is not changed.
    pub fn init(&mut self, id: u64, value: V)
        ensures
            final(self).meta.vars@ == old(self).meta.vars@,
            final(self).scope == old(self).scope,
            old(self).meta.values@.contains_key(id) ==> final(self).meta.values@ == old(self).meta.values@,
            !old(self).meta.values@.contains_key(id) ==> final(self).meta.values@ == old(self).meta.values@.insert(id, value),
    {
        broadcast use vstd::std_specs::hash::group_hash_axioms;
        if !self.meta.values.contains_key(&id) {
            self.meta.values.insert(id, value);
        }
    }

    /// The metadata variable `id`. Scoped: the scope variable if any, else a copy-on-write
    /// variable over the app variable (inserted from `init` if missing) is stored in the scope.
    /// Not scoped: the app variable (inserted from `init` if missing), passing writes through.
    pub fn get_var_or_insert<F: FnOnce() -> V>(&mut self, id: u64, init: F) -> (r: CommandMetaVar<V>)
        requires
            call_requires(init, ()),
        ensures
            final(self).meta.values@ == old(self).meta.values@,
            final(self).scope is Some == old(self).scope is Some,
            old(self).scope matches Some(sc) ==> {
                &&& final(self).scope->0.values@ == sc.values@
                &&& if sc.vars@.contains_key(id) {
                    r == sc.vars@[id] && final(self).scope->0.vars@ == sc.vars@ && final(self).meta.vars@
                        == old(self).meta.vars@
                } else {
                    &&& !r.pass_through
                    &&& final(self).scope->0.vars@ == sc.vars@.insert(id, r)
                    &&& if old(self).meta.vars@.contains_key(id) {
                        r.value == old(self).meta.vars@[id].value && final(self).meta.vars@
                            == old(self).meta.vars@
                    } else {
                        call_ensures(init, (), r.value) && final(self).meta.vars@
                            == old(self).meta.vars@.insert(id, CommandMetaVar { value: r.value, pass_through: true })
                    }
                }
            },
            old(self).scope is None ==> {
                &&& r.pass_through
                &&& if old(self).meta.vars@.contains_key(id) {
                    r.value == old(self).meta.vars@[id].value && final(self).meta.vars@ == old(self).meta.vars@
                } else {
                    call_ensures(init, (), r.value) && final(self).meta.vars@ == old(self).meta.vars@.insert(id, r)
                }
            },
    {
        broadcast use vstd::std_specs::hash::group_hash_axioms;
        match &mut self.scope {
            Some(sc) => {
                match sc.vars.get(&id) {
                    Some(v) => *v,
                    None => {
                        let app_value = match self.meta.vars.get(&id) {
                            Some(v) => v.value,
                            None => {
                                let value = init();
                                self.meta.vars.insert(id, CommandMetaVar { value, pass_through: true });
                                value
                            },
                        };
                        let cow = CommandMetaVar { value: app_value, pass_through: false };
                        sc.vars.insert(id, cow);
                        cow
                    },
                }
            },
            None => {
                match self.meta.vars.get(&id) {
                    Some(v) => CommandMetaVar { value: v.value, pass_through: true },
                    None => {
                        let value = init();
                        let var = CommandMetaVar { value, pass_through: true };
                        self.meta.vars.insert(id, var);
                        var
                    },
                }
            },
        }
    }

    /// Set the app metadata variable `id` only if it is not set; the scope is not changed.
    pub fn init_var(&mut self, id: u64, value: V)
        ensures
            final(self).meta.values@ == old(self).meta.values@,
            final(self).scope == old(self).scope,
            old(self).meta.vars@.contains_key(id) ==> final(self).meta.vars@ == old(self).meta.vars@,
            !old(self).meta.vars@.contains_key(id) ==> final(self).meta.vars@ == old(self).meta.vars@.insert(
                id,
                CommandMetaVar { value, pass_through: true },
            ),
    {
        broadcast use vstd::std_specs::hash::group_hash_axioms;
        if !self.meta.vars.contains_key(&id) {
            self.meta.vars.insert(id, CommandMetaVar { value, pass_through: true });
        }
    }
}

impl<V: Copy + Default> CommandMeta<V> {
    /// Like [`CommandMeta::get_or_insert`] with the default value.
    pub fn get_or_default(&mut self, id: u64) -> (r: V)
        ensures
            final(self).meta.vars@ == old(self).meta.vars@,
            final(self).scope is Some == old(self).scope is Some,
            old(self).scope matches Some(sc) ==> {
                &&& final(self).meta.values@ == old(self).meta.values@
                &&& final(self).scope->0.vars@ == sc.vars@
                &&& if sc.values@.contains_key(id) {
                    r == sc.values@[id] && final(self).scope->0.values@ == sc.values@
                } else if old(self).meta.values@.contains_key(id) {
                    r == old(self).meta.values@[id] && final(self).scope->0.values@ == sc.values@
                } else {
                    final(self).scope->0.values@ == sc.values@.insert(id, r)
                }
            },
            old(self).scope is None ==> {
                if old(self).meta.values@.contains_key(id) {
                    r == old(self).meta.values@[id] && final(self).meta.values@ == old(self).meta.values@
                } else {
                    final(self).meta.values@ == old(self).meta.values@.insert(id, r)
                }
            },
    {
        self.get_or_insert(id, || V::default())
    }

    /// Like [`CommandMeta::get_var_or_insert`] with the default value.
    pub fn get_var_or_default(&mut self, id: u64) -> (r: CommandMetaVar<V>)
        ensures
            final(self).meta.values@ == old(self).meta.values@,
            final(self).scope is Some == old(self).scope is Some,
            old(self).scope matches Some(sc) ==> {
                &&& final(self).scope->0.values@ == sc.values@
                &&& if sc.vars@.contains_key(id) {
                    r == sc.vars@[id] && final(self).scope->0.vars@ == sc.vars@
                } else {
                    !r.pass_through && final(self).scope->0.vars@ == sc.vars@.insert(id, r)
                }
            },
            old(self).scope is None ==> {
                &&& r.pass_through
                &&& old(self).meta.vars@.contains_key(id) ==> r.value == old(self).meta.vars@[id].value
                    && final(self).meta.vars@ == old(self).meta.vars@
                &&& !old(self).meta.vars@.contains_key(id) ==> final(self).meta.vars@
                    == old(self).meta.vars@.insert(id, r)
            },
    {
        self.get_var_or_insert(id, || V::default())
    }
}

/// The lowercase mapping of `c`, as given by `char::to_lowercase` (one or more chars).
pub uninterp spec fn char_lowercase(c: char) -> Seq<char>;

/// Calls `char::to_lowercase` and collects the chars it yields; the result is named
/// [`char_lowercase`].
#[verifier::external_body]
fn lowercase_chars(c: char) -> (r: Vec<char>)
    ensures
        r@ == char_lowercase(c),
{
    c.to_lowercase().collect()
}

/// Collects `chars` into a `String` (`FromIterator<char>`), keeping every char in order.
#[verifier::external_body]
fn string_from_chars(chars: &Vec<char>) -> (r: String)
    ensures
        r@ == chars@,
{
    chars.iter().collect()
}

/// `name` without the `_CMD` suffix, if it has it.
pub open spec fn strip_cmd_suffix(name: Seq<char>) -> Seq<char> {
    if name.len() >= 4 && name.subrange(name.len() - 4, name.len() as int) == seq!['_', 'C', 'M', 'D'] {
        name.subrange(0, name.len() - 4)
    } else {
        name
    }
}

/// One char of the title: `_` becomes one space (never two in a row), the first char of a
/// word is kept and the following ones are replaced by `low`, their lowercase.
pub open spec fn title_step(st: (Seq<char>, bool), c: char, low: Seq<char>) -> (Seq<char>, bool) {
    let (title, lower) = st;
    if c == '_' {
        if title.len() > 0 && title.last() == ' ' {
            (title, false)
        } else {
            (title.push(' '), false)
        }
    } else if lower {
        (title + low, true)
    } else {
        (title.push(c), true)
    }
}

/// The title built from all chars of `name`, with `lows[i]` the lowercase of `name[i]`, and if
/// the next char is lowercased.
pub open spec fn title_fold(name: Seq<char>, lows: Seq<Seq<char>>) -> (Seq<char>, bool)
    decreases name.len(),
{
    if name.len() == 0 {
        (Seq::empty(), false)
    } else {
        title_step(title_fold(name.drop_last(), lows), name.last(), lows[name.len() - 1])
    }
}

/// The lowercase of each char of `name`.
pub open spec fn lowercases(name: Seq<char>) -> Seq<Seq<char>> {
    Seq::new(name.len(), |i: int| char_lowercase(name[i]))
}

/// Display name derived from a command's declared name: `FOO_BAR_CMD` becomes `Foo Bar`.
pub open spec fn command_title(name: Seq<char>) -> Seq<char> {
    title_fold(strip_cmd_suffix(name), lowercases(strip_cmd_suffix(name))).0
}

/// The title of `name` given the lowercase of each of its chars (`lows[i]` for `name[i]`):
/// `_` becomes one space, the first char of each word is kept and the others lowercased.
pub fn title_with_lowercase(name: &Vec<char>, lows: &Vec<Vec<char>>) -> (r: String)
    requires
        lows@.len() == name@.len(),
    ensures
        r@ == title_fold(name@, lows@.map_values(|v: Vec<char>| v@)).0,
{
    let ghost lw = lows@.map_values(|v: Vec<char>| v@);
    let mut title: Vec<char> = Vec::new();
    let mut lower = false;
    let mut i: usize = 0;
    while i < name.len()
        invariant
            i <= name@.len(),
            lows@.len() == name@.len(),
            lw == lows@.map_values(|v: Vec<char>| v@),
            (title@, lower) == title_fold(name@.subrange(0, i as int), lw),
        decreases name@.len() - i,
    {
        let c = name[i];
        proof {
            let sub = name@.subrange(0, i + 1);
            assert(sub.drop_last() =~= name@.subrange(0, i as int));
            assert(sub.last() == c);
            assert(lw[sub.len() - 1] == lows@[i as int]@);
        }
        if c == '_' {
            let n = title.len();
            if !(n > 0 && title[n - 1] == ' ') {
                title.push(' ');
            }
            lower = false;
        } else if lower {
            let mut l = lows[i].clone();
            title.append(&mut l);
        } else {
            title.push(c);
            lower = true;
        }
        i = i + 1;
    }
    assert(name@.subrange(0, name@.len() as int) =~= name@);
    string_from_chars(&title)
}

/// The default display name of a command, derived from its declared name.
pub fn default_command_name(name: &str) -> (r: String)
    ensures
        r@ == command_title(name@),
{
    let len = name.unicode_len();
    let mut end = len;
    if len >= 4 && name.get_char(len - 4) == '_' && name.get_char(len - 3) == 'C' && name.get_char(len - 2)
        == 'M' && name.get_char(len - 1) == 'D' {
        end = len - 4;
        assert(name@.subrange(len - 4, len as int) =~= seq!['_', 'C', 'M', 'D']);
    } else {
        proof {
            if len >= 4 && name@.subrange(len - 4, len as int) == seq!['_', 'C', 'M', 'D'] {
                assert(name@.subrange(len - 4, len as int)[0] == name@[len - 4]);
                assert(name@.subrange(len - 4, len as int)[1] == name@[len - 3]);
                assert(name@.subrange(len - 4, len as int)[2] == name@[len - 2]);
                assert(name@.subrange(len - 4, len as int)[3] == name@[len - 1]);
            }
        }
    }
    let ghost base = strip_cmd_suffix(name@);
    assert(base =~= name@.subrange(0, end as int));
    let mut chars: Vec<char> = Vec::new();
    let mut lows: Vec<Vec<char>> = Vec::new();
    let mut i: usize = 0;
    while i < end
        invariant
            end <= len,
            len == name@.len(),
            i <= end,
            base == name@.subrange(0, end as int),
            chars@ == base.subrange(0, i as int),
            lows@.len() == i,
            forall|k: int| 0 <= k < i ==> (#[trigger] lows@[k])@ == char_lowercase(base[k]),
        decreases end - i,
    {
        let c = name.get_char(i);
        chars.push(c);
        lows.push(lowercase_chars(c));
        proof {
            assert(chars@ =~= base.subrange(0, i + 1));
        }
        i = i + 1;
    }
    proof {
        assert(chars@ =~= base);
        assert(lows@.map_values(|v: Vec<char>| v@) =~= lowercases(base));
    }
    title_with_lowercase(&chars, &lows)
}

} // verus!
