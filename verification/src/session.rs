//! The application's state: the registry of panes, the list of loaded
//! frames, and what one tick does to them.

use crate::behavior::Behavior;
use crate::channel::FrameChannel;
use crate::data::{Data, DataView, LoadedFrame};
use crate::ingest::Ingested;
use crate::pane::Pane;
use crate::registry::{PaneRegistry, RegistryView};
use polars_core::frame::DataFrame;
use vstd::prelude::*;

verus! {

/// What a tick did.
#[derive(Debug)]
pub struct Tick {
    /// The tile that was marked to be closed, and has been deleted.
    pub closed: Option<u64>,
    /// What became of each dropped file, in order.
    pub dropped: Vec<Ingested>,
    /// What became of each frame that the producers had sent, in order.
    pub received: Vec<Ingested>,
    /// The error messages that the producers had sent, in order, to be
    /// logged.
    pub errors: Vec<String>,
}

/// The application's state as a mathematical value.
pub struct AppView {
    pub left_panel: bool,
    pub reactive: bool,
    pub registry: RegistryView,
    pub behavior: Behavior,
    pub data: DataView,
}

impl AppView {
    /// The state that the application starts with: both switches on, no
    /// pane open, nothing asked for, no frame loaded.
    pub open spec fn initial() -> AppView {
        AppView {
            left_panel: true,
            reactive: true,
            registry: RegistryView::empty(),
            behavior: Behavior::initial(),
            data: DataView::empty(),
        }
    }

    /// The registry once the pending close mark was carried out.
    pub open spec fn closed(self) -> RegistryView {
        match self.behavior.close {
            Some(id) => self.registry.removed(id),
            None => self.registry,
        }
    }

    /// The state after a tick on which the given files were dropped and
    /// the given frames were pending in the channel: the pending close is
    /// carried out, then the dropped files are taken in, then the frames.
    pub open spec fn ticked(
        self,
        dropped: Seq<Result<DataFrame, String>>,
        frames: Seq<DataFrame>,
    ) -> AppView {
        AppView {
            registry: self.closed().batch(dropped).received(frames),
            behavior: Behavior { close: None, ..self.behavior },
            ..self
        }
    }
}

/// The state of the application that outlives a tick.
pub struct App {
    /// Whether the left panel is shown.
    pub left_panel: bool,
    /// Whether the interface repaints without waiting for input.
    pub reactive: bool,
    pub registry: PaneRegistry,
    pub behavior: Behavior,
    pub data: Data,
}

impl App {
    /// The state as a mathematical value.
    pub open spec fn view(&self) -> AppView {
        AppView {
            left_panel: self.left_panel,
            reactive: self.reactive,
            registry: self.registry@,
            behavior: self.behavior,
            data: self.data@,
        }
    }

    /// The application as it starts.
    pub fn new() -> (app: App)
        ensures
            app@ == AppView::initial(),
    {
        App {
            left_panel: true,
            reactive: true,
            registry: PaneRegistry::new(),
            behavior: Behavior::new(),
            data: Data::new(),
        }
    }

    /// The application as it starts again from what was saved of an
    /// earlier run: the two switches, whether the settings of the panes
    /// are linked, and the panes that were open, which are opened in the
    /// order given. No frame is loaded and nothing is asked for.
    pub fn restored(left_panel: bool, reactive: bool, link: bool, panes: Vec<Pane>) -> (app: App)
        ensures
            app@ == (AppView {
                left_panel,
                reactive,
                registry: RegistryView::empty().opened_all(panes@),
                behavior: Behavior { link, ..Behavior::initial() },
                data: DataView::empty(),
            }),
    {
        let mut registry = PaneRegistry::new();
        registry.insert_all(panes);
        App {
            left_panel,
            reactive,
            registry,
            behavior: Behavior { link, close: None, click: None },
            data: Data::new(),
        }
    }

    /// Puts the application back to how it starts: every pane is closed,
    /// the list of loaded frames is emptied with its selection, pending
    /// requests are forgotten, and both switches are on.
    pub fn reset(&mut self)
        ensures
            final(self)@ == AppView::initial(),
    {
        self.left_panel = true;
        self.reactive = true;
        self.registry.reset();
        self.behavior = Behavior::new();
        self.data.delete_all();
    }

    /// Shows the selected records of the list as tables, in the order of
    /// the list, and tells what became of each.
    pub fn show_selected(&mut self) -> (outcomes: Vec<Ingested>)
        ensures
            outcomes@ == old(self)@.registry.shown_outcomes(old(self)@.data.picked()),
            final(self)@ == (AppView {
                registry: old(self)@.registry.shown(old(self)@.data.picked()),
                ..old(self)@
            }),
    {
        let picked = self.data.selected();
        proof {
            assert(picked@.map_values(|r: &LoadedFrame| *r) =~= self@.data.picked());
        }
        self.registry.show(&picked)
    }

    /// What is to be done once per tick, after the panes were drawn: the
    /// pending close mark is carried out, the files that were dropped are
    /// taken in, then every frame that is pending in the channel, and the
    /// pending error messages are handed over to be logged. Nothing that
    /// arrives makes the tick fail, and nothing is left pending.
    pub fn tick(
        &mut self,
        dropped: Vec<Result<DataFrame, String>>,
        channel: &mut FrameChannel,
    ) -> (report: Tick)
        ensures
            final(self)@ == old(self)@.ticked(dropped@, old(channel).frames@),
            report.closed == old(self)@.behavior.close,
            report.dropped@ == old(self)@.closed().batch_outcomes(dropped@),
            report.received@ == old(self)@.closed().batch(dropped@).received_outcomes(
                old(channel).frames@,
            ),
            report.errors@ == old(channel).errors@,
            final(channel).frames@ == Seq::<DataFrame>::empty(),
            final(channel).errors@ == Seq::<String>::empty(),
            final(channel).frames.is_open() == old(channel).frames.is_open(),
            final(channel).errors.is_open() == old(channel).errors.is_open(),
    {
        let closed = self.registry.apply_close(&mut self.behavior);
        let dropped = self.registry.ingest_batch(dropped);
        let frames = channel.frames.drain();
        let received = self.registry.ingest_frames(frames);
        let errors = channel.errors.drain();
        Tick { closed, dropped, received, errors }
    }
}

impl Default for App {
    fn default() -> (app: App)
        ensures
            app@ == AppView::initial(),
    {
        App::new()
    }
}

} // verus!
