//! What the command line asks for, and the actions that follow from it.

use crate::modes::{lowercase, mode_named, Mode, ModeView};
use crate::text::text_view;
use vstd::prelude::*;

verus! {

/// The flags and values of one invocation.
#[derive(Debug, Clone, PartialEq, Eq)]
pub struct CliArgs {
    /// Show the current resource usage.
    pub show_status: bool,
    /// The name of the mode to apply.
    pub selected_mode: Option<String>,
    /// Go back to the default governor.
    pub reset: bool,
    /// Write the current readings to a log file.
    pub log: bool,
}

/// The mathematical value of `CliArgs`.
pub struct CliArgsView {
    pub show_status: bool,
    pub selected_mode: Option<Seq<char>>,
    pub reset: bool,
    pub log: bool,
}

impl View for CliArgs {
    type V = CliArgsView;

    open spec fn view(&self) -> CliArgsView {
        CliArgsView {
            show_status: self.show_status,
            selected_mode: text_view(self.selected_mode),
            reset: self.reset,
            log: self.log,
        }
    }
}

/// One thing that an invocation does.
#[derive(Debug, Clone, PartialEq, Eq)]
pub enum Action {
    /// Open the graphical front-end.
    LaunchGui,
    /// Print the current resource usage.
    PrintStatus,
    /// Apply a mode.
    ApplyMode(Mode),
    /// Go back to the default governor.
    Reset,
    /// Write the current readings to a log file.
    Log,
}

/// The mathematical value of an `Action`.
pub enum ActionView {
    LaunchGui,
    PrintStatus,
    ApplyMode(ModeView),
    Reset,
    Log,
}

impl View for Action {
    type V = ActionView;

    open spec fn view(&self) -> ActionView {
        match self {
            Action::LaunchGui => ActionView::LaunchGui,
            Action::PrintStatus => ActionView::PrintStatus,
            Action::ApplyMode(mode) => ActionView::ApplyMode(mode@),
            Action::Reset => ActionView::Reset,
            Action::Log => ActionView::Log,
        }
    }
}

/// The views of a sequence of actions.
pub open spec fn action_views(actions: Seq<Action>) -> Seq<ActionView> {
    actions.map_values(|action: Action| action@)
}

/// Whether the invocation gave no flag and no value at all.
pub open spec fn no_flags(args: CliArgsView) -> bool {
    !args.show_status && args.selected_mode is None && !args.reset && !args.log
}

/// `one`, where it was asked for; nothing otherwise.
pub open spec fn if_asked(wanted: bool, one: ActionView) -> Seq<ActionView> {
    if wanted {
        seq![one]
    } else {
        Seq::empty()
    }
}

/// The application of the mode that was named, if one was.
pub open spec fn mode_actions(selected: Option<Seq<char>>) -> Seq<ActionView> {
    match selected {
        Some(name) => seq![ActionView::ApplyMode(mode_named(lowercase(name)))],
        None => Seq::empty(),
    }
}

/// The actions of an invocation, in the order in which they are taken: the
/// graphical front-end where nothing was asked for, else the status, the
/// mode, the reset and the log, each where it was asked for.
pub open spec fn planned(args: CliArgsView) -> Seq<ActionView> {
    if no_flags(args) {
        seq![ActionView::LaunchGui]
    } else {
        if_asked(args.show_status, ActionView::PrintStatus) + mode_actions(args.selected_mode) + if_asked(
            args.reset,
            ActionView::Reset,
        ) + if_asked(args.log, ActionView::Log)
    }
}

impl CliArgs {
    /// Whether the invocation gave no flag and no value at all.
    pub fn is_empty(&self) -> (r: bool)
        ensures
            r == no_flags(self@),
    {
        !self.show_status && self.selected_mode.is_none() && !self.reset && !self.log
    }

    /// The actions that the invocation asks for, in the order in which they
    /// are taken.
    pub fn actions(&self) -> (r: Vec<Action>)
        ensures
            action_views(r@) == planned(self@),
    {
        let mut out: Vec<Action> = Vec::new();
        if self.is_empty() {
            out.push(Action::LaunchGui);
            assert(action_views(out@) == seq![ActionView::LaunchGui]);
            return out;
        }
        let ghost args = self@;
        assert(action_views(out@) == Seq::<ActionView>::empty());
        if self.show_status {
            out.push(Action::PrintStatus);
        }
        assert(action_views(out@) == if_asked(args.show_status, ActionView::PrintStatus));
        match &self.selected_mode {
            Some(name) => {
                match Mode::from_str(name.as_str()) {
                    Some(mode) => {
                        out.push(Action::ApplyMode(mode));
                    },
                    None => {},
                }
            },
            None => {},
        }
        assert(action_views(out@) == if_asked(args.show_status, ActionView::PrintStatus)
            + mode_actions(args.selected_mode));
        if self.reset {
            out.push(Action::Reset);
        }
        assert(action_views(out@) == if_asked(args.show_status, ActionView::PrintStatus)
            + mode_actions(args.selected_mode) + if_asked(args.reset, ActionView::Reset));
        if self.log {
            out.push(Action::Log);
        }
        assert(action_views(out@) == planned(args));
        out
    }
}

} // verus!
