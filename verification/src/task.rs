//! UI bound tasks: a task is pending until the poll of its future gives a result, then it
//! holds the result.
//!
//! The future itself is polled by the app, which hands the outcome of each poll to
//! [`UiTask::update`].
use vstd::prelude::*;

use crate::ui_list::WidgetId;

verus! {

/// State of a UI task.
pub enum UiTaskState<R> {
    Pending,
    Ready(R),
}

/// A task polled in the UI thread, waking `target` when it can make progress.
pub struct UiTask<R> {
    state: UiTaskState<R>,
    target: Option<WidgetId>,
}

impl<R> UiTask<R> {
    pub closed spec fn spec_state(self) -> Option<R> {
        match self.state {
            UiTaskState::Pending => None,
            UiTaskState::Ready(r) => Some(r),
        }
    }

    pub closed spec fn spec_target(self) -> Option<WidgetId> {
        self.target
    }

    /// A pending task that wakes `target`, or the app when `None`.
    pub fn new(target: Option<WidgetId>) -> (r: UiTask<R>)
        ensures
            r.spec_state() is None,
            r.spec_target() == target,
    {
        UiTask { state: UiTaskState::Pending, target }
    }

    /// The widget woken when the task can make progress.
    pub fn target(&self) -> (r: Option<WidgetId>)
        ensures
            r == self.spec_target(),
    {
        self.target
    }

    /// Applies the outcome of polling the future (`None` while pending) to a pending task, and
    /// returns the result if the task is ready. A ready task is not changed.
    pub fn update(&mut self, poll: Option<R>) -> (r: Option<&R>)
        ensures
            final(self).spec_target() == old(self).spec_target(),
            old(self).spec_state() is Some ==> final(self).spec_state() == old(self).spec_state(),
            old(self).spec_state() is None ==> final(self).spec_state() == poll,
            r == (match final(self).spec_state() {
                Some(v) => Some(&v),
                None => None::<&R>,
            }),
    {
        if let UiTaskState::Pending = self.state {
            if let Some(v) = poll {
                self.state = UiTaskState::Ready(v);
            }
        }
        match &self.state {
            UiTaskState::Ready(r) => Some(r),
            UiTaskState::Pending => None,
        }
    }

    /// If the task has its result.
    pub fn is_ready(&self) -> (r: bool)
        ensures
            r == self.spec_state() is Some,
    {
        match self.state {
            UiTaskState::Ready(_) => true,
            UiTaskState::Pending => false,
        }
    }

    /// The result if ready, otherwise the pending task.
    pub fn into_result(self) -> (r: Result<R, UiTask<R>>)
        ensures
            self.spec_state() matches Some(v) ==> r == Ok::<R, UiTask<R>>(v),
            self.spec_state() is None ==> (r matches Err(t) && t.spec_state() is None && t.spec_target()
                == self.spec_target()),
    {
        match self.state {
            UiTaskState::Ready(r) => Ok(r),
            UiTaskState::Pending => Err(UiTask { state: UiTaskState::Pending, target: self.target }),
        }
    }
}

/// A [`UiTask`] bound to a widget.
pub struct WidgetTask<R> {
    task: UiTask<R>,
    widget_id: WidgetId,
}

impl<R> WidgetTask<R> {
    pub closed spec fn spec_task(self) -> UiTask<R> {
        self.task
    }

    pub closed spec fn spec_widget(self) -> WidgetId {
        self.widget_id
    }

    /// A pending task of the widget `widget_id`, waking it when it can make progress.
    pub fn new(widget_id: WidgetId) -> (r: WidgetTask<R>)
        ensures
            r.spec_task().spec_state() is None,
            r.spec_task().spec_target() == Some(widget_id),
            r.spec_widget() == widget_id,
    {
        WidgetTask { task: UiTask::new(Some(widget_id)), widget_id }
    }

    /// Applies the outcome of polling the future, see [`UiTask::update`].
    pub fn update(&mut self, poll: Option<R>) -> (r: Option<&R>)
        ensures
            final(self).spec_widget() == old(self).spec_widget(),
            final(self).spec_task().spec_target() == old(self).spec_task().spec_target(),
            old(self).spec_task().spec_state() is Some ==> final(self).spec_task().spec_state() == old(
                self,
            ).spec_task().spec_state(),
            old(self).spec_task().spec_state() is None ==> final(self).spec_task().spec_state() == poll,
            r == (match final(self).spec_task().spec_state() {
                Some(v) => Some(&v),
                None => None::<&R>,
            }),
    {
        self.task.update(poll)
    }

    /// If the task has its result.
    pub fn is_ready(&self) -> (r: bool)
        ensures
            r == self.spec_task().spec_state() is Some,
    {
        self.task.is_ready()
    }

    /// The result if ready, otherwise the pending task.
    pub fn into_result(self) -> (r: Result<R, WidgetTask<R>>)
        ensures
            self.spec_task().spec_state() matches Some(v) ==> r == Ok::<R, WidgetTask<R>>(v),
            self.spec_task().spec_state() is None ==> (r matches Err(t) && t.spec_task().spec_state() is None
                && t.spec_widget() == self.spec_widget()),
    {
        let widget_id = self.widget_id;
        match self.task.into_result() {
            Ok(r) => Ok(r),
            Err(task) => Err(WidgetTask { task, widget_id }),
        }
    }
}

} // verus!
