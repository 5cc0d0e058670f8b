//! Panes: one view slot each, live or bound to a loaded frame.

use crate::kind::{Kind, ViewMode};
use polars_core::frame::DataFrame;
use vstd::prelude::*;

verus! {

/// Display settings of a pane's table.
#[derive(Clone, Copy, Debug, PartialEq, Eq, Structural)]
pub struct Settings {
    pub resizable: bool,
    pub editable: bool,
    pub precision: usize,
    pub sticky_columns: usize,
    pub truncate: bool,
}

impl Settings {
    /// The settings that a pane starts with: two decimal places, nothing
    /// else switched on.
    pub open spec fn initial() -> Settings {
        Settings {
            resizable: false,
            editable: false,
            precision: 2,
            sticky_columns: 0,
            truncate: false,
        }
    }

    /// The settings that a pane starts with.
    pub fn new() -> (settings: Settings)
        ensures
            settings == Settings::initial(),
    {
        Settings {
            resizable: false,
            editable: false,
            precision: 2,
            sticky_columns: 0,
            truncate: false,
        }
    }
}

impl Default for Settings {
    fn default() -> (settings: Settings)
        ensures
            settings == Settings::initial(),
    {
        Settings::new()
    }
}

/// Transient interface state of a pane.
#[derive(Clone, Copy, Debug, PartialEq, Eq, Structural)]
pub struct State {
    pub reset_table_state: bool,
    pub open_settings_window: bool,
}

impl State {
    /// The state that a pane starts with: no reset asked for, the settings
    /// window closed.
    pub open spec fn initial() -> State {
        State { reset_table_state: false, open_settings_window: false }
    }

    /// The state that a pane starts with.
    pub fn new() -> (state: State)
        ensures
            state == State::initial(),
    {
        State { reset_table_state: false, open_settings_window: false }
    }
}

impl Default for State {
    fn default() -> (state: State)
        ensures
            state == State::initial(),
    {
        State::new()
    }
}

/// One view slot. Without a frame the pane is live and shows the rolling
/// feed of its kind; with a frame it shows that loaded snapshot.
#[derive(Clone, Debug)]
pub struct Pane {
    pub kind: Kind,
    pub data_frame: Option<DataFrame>,
    pub settings: Settings,
    pub state: State,
    pub view: ViewMode,
}

impl Pane {
    /// Whether the pane is live, that is, bound to no frame.
    pub open spec fn spec_is_real_time(&self) -> bool {
        self.data_frame is None
    }

    /// Whether the pane is of the given kind and liveness. At most one live
    /// pane of a kind is open when panes are opened by toggling.
    pub open spec fn fills(&self, kind: Kind, real_time: bool) -> bool {
        self.kind == kind && self.spec_is_real_time() == real_time
    }

    /// A live pane of the given kind, plotted, in its initial state.
    pub open spec fn spec_new(kind: Kind) -> Pane {
        Pane {
            kind,
            data_frame: None,
            settings: Settings::initial(),
            state: State::initial(),
            view: ViewMode::Plot,
        }
    }

    /// A pane that shows the frame `data_frame` of the given kind in the
    /// given way, in its initial state.
    pub open spec fn spec_loaded(kind: Kind, data_frame: DataFrame, view: ViewMode) -> Pane {
        Pane {
            kind,
            data_frame: Some(data_frame),
            settings: Settings::initial(),
            state: State::initial(),
            view,
        }
    }

    /// A live pane of the given kind, plotted, in its initial state.
    pub fn new(kind: Kind) -> (pane: Pane)
        ensures
            pane == Pane::spec_new(kind),
    {
        Pane {
            kind,
            data_frame: None,
            settings: Settings::new(),
            state: State::new(),
            view: ViewMode::Plot,
        }
    }

    /// A pane that shows the frame `data_frame` of the given kind in the
    /// given way, in its initial state.
    pub fn loaded(kind: Kind, data_frame: DataFrame, view: ViewMode) -> (pane: Pane)
        ensures
            pane == Pane::spec_loaded(kind, data_frame, view),
    {
        Pane {
            kind,
            data_frame: Some(data_frame),
            settings: Settings::new(),
            state: State::new(),
            view,
        }
    }

    /// Whether the pane is live, that is, bound to no frame.
    #[verifier::when_used_as_spec(spec_is_real_time)]
    pub fn is_real_time(&self) -> (real_time: bool)
        ensures
            real_time == self.spec_is_real_time(),
    {
        self.data_frame.is_none()
    }

    /// The column name that identifies frames of the pane's kind.
    pub fn name(&self) -> (name: &'static str)
        ensures
            name@ == self.kind.spec_name(),
    {
        self.kind.name()
    }

    /// The title of the pane: the icon, the name of what the pane measures
    /// and, where there is one, the date, with a space between them.
    pub open spec fn spec_title(&self, icon: Seq<char>, date: Option<Seq<char>>) -> Seq<char> {
        match date {
            Some(date) => icon + " "@ + self.kind.spec_name() + " "@ + date,
            None => icon + " "@ + self.kind.spec_name(),
        }
    }

    /// The title of the pane, put together from the icon that stands for
    /// its liveness, its name, and the date that its data are of, if that
    /// is known.
    pub fn title(&self, icon: &str, date: Option<&str>) -> (title: String)
        ensures
            title@ == self.spec_title(
                icon@,
                match date {
                    Some(date) => Some(date@),
                    None => None,
                },
            ),
    {
        let mut title = String::from_str(icon);
        title.append(" ");
        title.append(self.name());
        match date {
            Some(date) => {
                title.append(" ");
                title.append(date);
            },
            None => {},
        }
        title
    }

    /// Localization key of the menu entry that toggles the pane.
    pub fn text(&self) -> (text: &'static str)
        ensures
            text@ == self.kind.spec_text(),
    {
        self.kind.text()
    }

    /// Localization key of the hover text of that menu entry.
    pub fn hover_text(&self) -> (text: &'static str)
        ensures
            text@ == self.kind.spec_hover_text(),
    {
        self.kind.hover_text()
    }
}

} // verus!
