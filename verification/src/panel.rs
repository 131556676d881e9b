//! The state of the front-end's status panel, which fetches the most recent
//! log in the background and shows it when it has come.

use vstd::prelude::*;
use vstd::string::StringExecFns;

verus! {

/// The status panel.
#[derive(Debug, Clone, PartialEq, Eq)]
pub struct StatusPanel {
    /// The text that the panel shows.
    pub output: String,
    /// Whether a fetch is under way.
    pub requested: bool,
}

/// What came of asking the background worker for its result.
#[derive(Debug, Clone, PartialEq, Eq)]
pub enum Poll {
    /// The worker has sent the text.
    Ready(String),
    /// The worker has sent nothing yet.
    Pending,
    /// The worker is gone without having sent anything; the text says why.
    Disconnected(String),
}

/// The mathematical value of a `StatusPanel`.
pub struct StatusPanelView {
    pub output: Seq<char>,
    pub requested: bool,
}

/// The mathematical value of a `Poll`.
pub enum PollView {
    Ready(Seq<char>),
    Pending,
    Disconnected(Seq<char>),
}

impl View for StatusPanel {
    type V = StatusPanelView;

    open spec fn view(&self) -> StatusPanelView {
        StatusPanelView { output: self.output@, requested: self.requested }
    }
}

impl View for Poll {
    type V = PollView;

    open spec fn view(&self) -> PollView {
        match self {
            Poll::Ready(text) => PollView::Ready(text@),
            Poll::Pending => PollView::Pending,
            Poll::Disconnected(reason) => PollView::Disconnected(reason@),
        }
    }
}

/// The panel after a poll. A panel that waits for nothing stays as it is.
/// One that waits shows the text once it has come, or the reason why none
/// will come, and then waits no more; it goes on waiting while nothing has
/// come.
pub open spec fn after_poll(panel: StatusPanelView, poll: PollView) -> StatusPanelView {
    if !panel.requested {
        panel
    } else {
        match poll {
            PollView::Ready(text) => StatusPanelView { output: text, requested: false },
            PollView::Pending => panel,
            PollView::Disconnected(reason) => StatusPanelView {
                output: "[Error] Channel error: "@ + reason,
                requested: false,
            },
        }
    }
}

impl StatusPanel {
    /// A panel that shows nothing and waits for nothing.
    pub fn new() -> (r: StatusPanel)
        ensures
            r@ == (StatusPanelView { output: Seq::empty(), requested: false }),
    {
        StatusPanel { output: String::new(), requested: false }
    }

    /// The button was pressed. Returns whether a fetch has to be started: it
    /// has unless one is under way already.
    pub fn on_click(&mut self) -> (start: bool)
        ensures
            start == !old(self).requested,
            final(self)@ == (StatusPanelView { output: old(self)@.output, requested: true }),
    {
        let start = !self.requested;
        self.requested = true;
        start
    }

    /// The worker was polled. Returns whether the panel has to be drawn again
    /// soon: it has exactly while it goes on waiting.
    pub fn on_poll(&mut self, poll: Poll) -> (repaint: bool)
        ensures
            final(self)@ == after_poll(old(self)@, poll@),
            repaint == (old(self).requested && poll is Pending),
    {
        if !self.requested {
            return false;
        }
        match poll {
            Poll::Ready(text) => {
                self.output = text;
                self.requested = false;
                false
            },
            Poll::Pending => true,
            Poll::Disconnected(reason) => {
                let mut output = "[Error] Channel error: ".to_owned();
                output.append(reason.as_str());
                self.output = output;
                self.requested = false;
                false
            },
        }
    }
}

} // verus!
