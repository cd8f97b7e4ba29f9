use vstd::prelude::*;
use std::collections::HashMap;
use crate::command::{Command, Event};
use crate::context::{Context, ContextView};
use crate::layouts::{tiling_of, DWMLayout, Layout, LayoutKind};
use crate::order::in_order;
use crate::screen::Screen;
use crate::window::{Position, Size, Window, WindowId, WindowType};

verus! {

broadcast use Seq::lemma_flatten_push;

/// Key that switches the layout.
pub const KEY_LAYOUT: u32 = 33;

/// Key that launches the terminal.
pub const KEY_TERMINAL: u32 = 36;

/// Key that selects the first workspace; the nine keys after it select the others.
pub const KEY_FIRST_WORKSPACE: u32 = 10;

/// Key that selects the last workspace.
pub const KEY_LAST_WORKSPACE: u32 = 19;

/// Why the window manager gave up.
#[derive(Debug, Clone, Copy, PartialEq, Eq, Structural)]
pub enum TDAWmError {
    /// There is no screen to lay windows out on.
    NoScreenFound,
}

impl TDAWmError {
    /// The text that describes the error.
    pub fn message(&self) -> (text: String)
        ensures
            text@ == "No screen"@,
    {
        "No screen".to_owned()
    }
}

/// The requests that put a dock where it asked to be and raise it: it is
/// moved if it asked for a position, resized if it asked for a size, and
/// raised in any case.
pub open spec fn dock_slot(id: WindowId, record: Window) -> Seq<Command> {
    (match record.fixed_position {
        Some(p) => seq![Command::Move { window: id, x: p.x, y: p.y }],
        None => Seq::<Command>::empty(),
    }) + (match record.fixed_size {
        Some(s) => seq![Command::Resize { window: id, width: s.x, height: s.y }],
        None => Seq::<Command>::empty(),
    }) + seq![Command::Raise { window: id }]
}

/// The requests that the pass over the docks makes for `id`: those of
/// `dock_slot` if `id` has a record and the record is a dock, none otherwise.
pub open spec fn dock_requests(windows: Map<WindowId, Window>, id: WindowId) -> Seq<Command> {
    if windows.contains_key(id) && windows[id].is_dock() {
        dock_slot(id, windows[id])
    } else {
        Seq::empty()
    }
}

/// The requests that the pass over the docks makes for the first `n` of `ids`.
pub open spec fn dock_pass_upto(ids: Seq<WindowId>, windows: Map<WindowId, Window>, n: int) -> Seq<
    Command,
> {
    Seq::new(n as nat, |i: int| dock_requests(windows, ids[i])).flatten()
}

/// The requests of the pass over the docks: for each dock in the workspace
/// that the screen under the pointer shows, by ascending identifier.
pub open spec fn dock_pass(ctx: ContextView, px: i16, py: i16) -> Seq<Command> {
    let ids = in_order(ctx.focused(px, py).visible());
    dock_pass_upto(ids, ctx.windows, ids.len() as int)
}

/// The requests that hide each of `ids`, in their order.
pub open spec fn hide_all(ids: Seq<WindowId>) -> Seq<Command> {
    Seq::new(ids.len(), |i: int| Command::Hide { window: ids[i] })
}

/// The state of the window manager as contracts see it.
pub struct TDAWmView {
    pub ctx: ContextView,
    /// The strategy in use.
    pub layout: LayoutKind,
}

/// What an event leads to: the next state, and the requests to send.
pub struct Outcome {
    pub state: TDAWmView,
    pub requests: Seq<Command>,
}

impl TDAWmView {
    /// The context is well formed and there is a screen.
    pub open spec fn wf(self) -> bool {
        self.ctx.wf() && self.ctx.screens.len() > 0
    }

    /// The requests of a layout pass: every screen is tiled by the strategy
    /// in use, then the docks of the workspace under the pointer are put where
    /// they asked to be.
    pub open spec fn relayout(self, px: i16, py: i16) -> Seq<Command> {
        tiling_of(&self.layout, self.ctx) + dock_pass(self.ctx, px, py)
    }

    /// A layout pass: the state stays as it is, and the requests of
    /// `relayout` are made.
    pub open spec fn laid_out(self, px: i16, py: i16) -> Outcome {
        Outcome { state: self, requests: self.relayout(px, py) }
    }

    /// Nothing changes and nothing is requested.
    pub open spec fn ignored(self) -> Outcome {
        Outcome { state: self, requests: Seq::empty() }
    }

    /// A window asks to be shown: it becomes a member of the workspace that
    /// the screen under the pointer shows, and of that one only, gets a fresh
    /// record of the given kind, and is proposed as the master if it is
    /// tiled. It is raised, focused and subscribed to, and a layout pass
    /// follows.
    pub open spec fn registered(
        self,
        window: WindowId,
        window_type: WindowType,
        px: i16,
        py: i16,
    ) -> Outcome {
        let record = Window { id: window, fixed_position: None, fixed_size: None, window_type };
        let state = TDAWmView {
            ctx: self.ctx.with_window(px, py, record),
            layout: if window_type == WindowType::Normal {
                self.layout.with_master(window)
            } else {
                self.layout
            },
        };
        Outcome {
            state,
            requests: seq![
                Command::Raise { window },
                Command::Focus { window },
                Command::GrabEvents { window },
            ] + state.relayout(px, py),
        }
    }

    /// A window is gone.
    pub open spec fn unregistered(self, window: WindowId, px: i16, py: i16) -> Outcome {
        let state = TDAWmView { ctx: self.ctx.without_window(window), ..self };
        Outcome { state, requests: state.relayout(px, py) }
    }

    /// The pointer entered a window: the first screen that shows the window
    /// takes it for its focused window. A window that no screen shows is
    /// passed over.
    pub open spec fn entered(self, window: WindowId) -> Outcome {
        let s = self.ctx.first_showing(window, 0);
        if s >= 0 {
            Outcome {
                state: TDAWmView { ctx: self.ctx.with_focus(s, window), ..self },
                requests: seq![Command::Focus { window }],
            }
        } else {
            self.ignored()
        }
    }

    /// The screen under the pointer is told to show its workspace `index`.
    pub open spec fn switched(self, index: int, px: i16, py: i16) -> Outcome {
        let state = TDAWmView { ctx: self.ctx.with_current(px, py, index), ..self };
        Outcome {
            state,
            requests: hide_all(in_order(self.ctx.focused(px, py).visible())) + seq![
                Command::FocusRoot,
                Command::SetCurrentDesktop { index: index as usize },
            ] + state.relayout(px, py),
        }
    }

    /// A grabbed key was pressed.
    pub open spec fn key_pressed(self, keycode: u32, px: i16, py: i16) -> Outcome {
        if keycode == KEY_LAYOUT {
            let state = TDAWmView { layout: self.layout.toggled(), ..self };
            Outcome { state, requests: state.relayout(px, py) }
        } else if keycode == KEY_TERMINAL {
            Outcome { state: self, requests: seq![Command::SpawnTerminal] }
        } else if KEY_FIRST_WORKSPACE <= keycode <= KEY_LAST_WORKSPACE {
            self.switched(keycode - KEY_FIRST_WORKSPACE, px, py)
        } else {
            self.ignored()
        }
    }

    /// The state after the kind that the server reports for `window` was
    /// recorded. A window that is not known leaves the state as it is.
    pub open spec fn classified(self, window: WindowId, window_type: WindowType) -> TDAWmView {
        if self.ctx.windows.contains_key(window) {
            let record = Window { window_type, ..self.ctx.windows[window] };
            TDAWmView { ctx: self.ctx.with_record(record), ..self }
        } else {
            self
        }
    }

    /// The kind of a window may have changed: the kind that the server
    /// reports now is recorded, and a known window that is a dock now gets a
    /// layout pass.
    pub open spec fn reclassified(
        self,
        window: WindowId,
        window_type: WindowType,
        px: i16,
        py: i16,
    ) -> Outcome {
        let state = self.classified(window, window_type);
        Outcome {
            state,
            requests: if self.ctx.windows.contains_key(window) && window_type
                == WindowType::Dock {
                state.relayout(px, py)
            } else {
                Seq::empty()
            },
        }
    }

    /// A window asks for a geometry of its own.
    pub open spec fn configured(
        self,
        window: WindowId,
        position: Position,
        size: Size,
        px: i16,
        py: i16,
    ) -> Outcome {
        if self.ctx.windows.contains_key(window) {
            let record = Window {
                fixed_position: Some(position),
                fixed_size: Some(size),
                ..self.ctx.windows[window]
            };
            let state = TDAWmView { ctx: self.ctx.with_record(record), ..self };
            Outcome { state, requests: state.relayout(px, py) }
        } else {
            self.ignored()
        }
    }

    /// What `event` leads to, with the pointer at `(px, py)`.
    pub open spec fn step(self, event: Event, px: i16, py: i16) -> Outcome {
        match event {
            Event::Created { window } => Outcome {
                state: self,
                requests: seq![Command::GrabEvents { window }],
            },
            Event::MapRequest { window, window_type } => self.registered(
                window,
                window_type,
                px,
                py,
            ),
            Event::Destroyed { window } => self.unregistered(window, px, py),
            Event::KeyPress { keycode } => self.key_pressed(keycode, px, py),
            Event::Enter { window } => self.entered(window),
            Event::PropertyChanged { window, window_type } => self.reclassified(
                window,
                window_type,
                px,
                py,
            ),
            Event::ConfigureRequest { window, x, y, width, height } => self.configured(
                window,
                Position { x, y },
                Size { x: width, y: height },
                px,
                py,
            ),
            Event::Unknown => self.ignored(),
        }
    }

    /// What the first `n` of `inputs` lead to, one after the other. Each
    /// input is an event and the pointer's position when it arrived. Before
    /// the first event the first desktop is published as the active one.
    pub open spec fn run_upto(self, inputs: Seq<(Event, (i16, i16))>, n: int) -> Outcome
        decreases n,
    {
        if n <= 0 {
            Outcome { state: self, requests: seq![Command::SetCurrentDesktop { index: 0 }] }
        } else {
            let before = self.run_upto(inputs, n - 1);
            let input = inputs[n - 1];
            let next = before.state.step(input.0, input.1.0, input.1.1);
            Outcome { state: next.state, requests: before.requests + next.requests }
        }
    }
}

/// The window manager: the state that it keeps and the layout in use.
pub struct TDAWm {
    ctx: Context,
    current_layout: LayoutKind,
}

impl View for TDAWm {
    type V = TDAWmView;

    closed spec fn view(&self) -> TDAWmView {
        TDAWmView { ctx: self.ctx@, layout: self.current_layout }
    }
}

impl TDAWm {
    /// See [`TDAWmView::wf`].
    pub open spec fn wf(&self) -> bool {
        self@.wf()
    }

    /// A window manager for the given screens, with no window and with the
    /// master and stack layout in use. Without any screen there is nothing to
    /// manage, which is an error.
    pub fn new(screens: Vec<Screen>) -> (made: Result<TDAWm, TDAWmError>)
        requires
            forall|s: int|
                0 <= s < screens@.len() ==> (#[trigger] screens@[s])@.wf() && screens@[s]@.fits(),
        ensures
            screens@.len() == 0 ==> made == Err::<TDAWm, TDAWmError>(TDAWmError::NoScreenFound),
            screens@.len() > 0 ==> made is Ok && made->Ok_0.wf() && made->Ok_0@ == (TDAWmView {
                ctx: ContextView {
                    screens: Seq::new(screens@.len(), |s: int| screens@[s]@),
                    windows: Map::empty(),
                },
                layout: LayoutKind::MasterStack(DWMLayout { master: 0 }),
            }),
    {
        if screens.len() == 0 {
            return Err(TDAWmError::NoScreenFound);
        }
        let ctx = Context { screens, windows_by_id: HashMap::new() };
        Ok(TDAWm { ctx, current_layout: LayoutKind::MasterStack(DWMLayout::init()) })
    }

    /// The workspaces of a window manager have finitely many members each.
    pub proof fn lemma_finite(&self)
        ensures
            self@.ctx.finite(),
    {
        self.ctx.lemma_finite();
    }

    /// The state that is kept.
    pub fn context(&self) -> (ctx: &Context)
        ensures
            ctx@ == self@.ctx,
    {
        &self.ctx
    }

    /// The layout in use.
    pub fn current_layout(&self) -> (layout: LayoutKind)
        ensures
            layout == self@.layout,
    {
        self.current_layout
    }

    /// The requests that put the docks of the workspace under the pointer
    /// where they asked to be.
    pub fn place_docks(&self, mouse_position: (i16, i16)) -> (requests: Vec<Command>)
        requires
            self.wf(),
        ensures
            requests@ == dock_pass(self@.ctx, mouse_position.0, mouse_position.1),
    {
        let ids = self.ctx.focused_screen(mouse_position).current_workspace().window_ids();
        let mut requests: Vec<Command> = Vec::new();
        let mut i: usize = 0;
        while i < ids.len()
            invariant
                0 <= i <= ids.len(),
                requests@ == dock_pass_upto(ids@, self.ctx@.windows, i as int),
            decreases ids.len() - i,
        {
            let id = ids[i];
            proof {
                let f = |k: int| dock_requests(self.ctx@.windows, ids@[k]);
                assert(Seq::new((i + 1) as nat, f) =~= Seq::new(i as nat, f).push(f(i as int)));
            }
            let ghost before = requests@;
            match self.ctx.window(id) {
                Some(record) => {
                    if record.window_type == WindowType::Dock {
                        if let Some(p) = record.fixed_position {
                            requests.push(Command::Move { window: id, x: p.x, y: p.y });
                        }
                        if let Some(s) = record.fixed_size {
                            requests.push(Command::Resize { window: id, width: s.x, height: s.y });
                        }
                        requests.push(Command::Raise { window: id });
                        assert(requests@ =~= before + dock_slot(id, record));
                    }
                },
                None => {},
            }
            assert(requests@ =~= before + dock_requests(self.ctx@.windows, id));
            i += 1;
        }
        requests
    }

    /// A layout pass: every screen is tiled by the layout in use, then the
    /// docks are put where they asked to be.
    pub fn layout(&self, mouse_position: (i16, i16)) -> (requests: Result<Vec<Command>, TDAWmError>)
        requires
            self.wf(),
        ensures
            requests is Ok,
            requests->Ok_0@ == self@.laid_out(mouse_position.0, mouse_position.1).requests,
    {
        let mut requests = self.current_layout.layout(&self.ctx)?;
        let mut docks = self.place_docks(mouse_position);
        requests.append(&mut docks);
        Ok(requests)
    }
}

impl TDAWm {
    /// Takes a window that asks to be shown: the window is raised and
    /// focused, becomes a member of the workspace that the screen under the
    /// pointer shows, gets a fresh record of kind `window_type`, and is
    /// subscribed to. A window that was a member of another workspace leaves
    /// that one. A tiled window is proposed as the master. Then comes a
    /// layout pass.
    pub fn register_window(
        &mut self,
        window: WindowId,
        window_type: WindowType,
        mouse_position: (i16, i16),
    ) -> (requests: Result<Vec<Command>, TDAWmError>)
        requires
            old(self).wf(),
        ensures
            final(self).wf(),
            requests is Ok,
            final(self)@ == old(self)@.registered(
                window,
                window_type,
                mouse_position.0,
                mouse_position.1,
            ).state,
            requests->Ok_0@ == old(self)@.registered(
                window,
                window_type,
                mouse_position.0,
                mouse_position.1,
            ).requests,
    {
        let mut requests: Vec<Command> = Vec::new();
        requests.push(Command::Raise { window });
        requests.push(Command::Focus { window });
        let record = Window { id: window, fixed_position: None, fixed_size: None, window_type };
        self.ctx.add_window(mouse_position, record);
        requests.push(Command::GrabEvents { window });
        if window_type == WindowType::Normal {
            self.current_layout.set_master(window);
        }
        let mut pass = self.layout(mouse_position)?;
        let ghost head = requests@;
        requests.append(&mut pass);
        assert(head =~= seq![
            Command::Raise { window },
            Command::Focus { window },
            Command::GrabEvents { window },
        ]);
        Ok(requests)
    }

    /// Forgets a window that is gone: it leaves its workspace and the
    /// registry. A window that is not known changes nothing. Then comes a
    /// layout pass.
    pub fn unregister_window(&mut self, window: WindowId, mouse_position: (i16, i16)) -> (requests:
        Result<Vec<Command>, TDAWmError>)
        requires
            old(self).wf(),
        ensures
            final(self).wf(),
            requests is Ok,
            final(self)@ == old(self)@.unregistered(
                window,
                mouse_position.0,
                mouse_position.1,
            ).state,
            requests->Ok_0@ == old(self)@.unregistered(
                window,
                mouse_position.0,
                mouse_position.1,
            ).requests,
    {
        self.ctx.remove_window(window);
        self.layout(mouse_position)
    }

    /// Records the kind that the server reports for a window, if the window
    /// is known, and says whether it is.
    pub fn load_window_properties(&mut self, window: WindowId, window_type: WindowType) -> (known:
        bool)
        requires
            old(self).wf(),
        ensures
            final(self).wf(),
            known == old(self)@.ctx.windows.contains_key(window),
            final(self)@ == old(self)@.classified(window, window_type),
    {
        match self.ctx.window(window) {
            Some(record) => {
                let changed = Window {
                    id: record.id,
                    fixed_position: record.fixed_position,
                    fixed_size: record.fixed_size,
                    window_type,
                };
                self.ctx.update_window(changed)
            },
            None => false,
        }
    }

    /// Takes note that a property of a window changed: the kind that the
    /// server reports now is recorded. If the window is known and is a dock
    /// now, a layout pass follows.
    pub fn property_changed(
        &mut self,
        window: WindowId,
        window_type: WindowType,
        mouse_position: (i16, i16),
    ) -> (requests: Result<Vec<Command>, TDAWmError>)
        requires
            old(self).wf(),
        ensures
            final(self).wf(),
            requests is Ok,
            final(self)@ == old(self)@.reclassified(
                window,
                window_type,
                mouse_position.0,
                mouse_position.1,
            ).state,
            requests->Ok_0@ == old(self)@.reclassified(
                window,
                window_type,
                mouse_position.0,
                mouse_position.1,
            ).requests,
    {
        let known = self.load_window_properties(window, window_type);
        if known && window_type == WindowType::Dock {
            self.layout(mouse_position)
        } else {
            Ok(Vec::new())
        }
    }

    /// Pins the geometry that a window asks for, if the window is known, and
    /// makes a layout pass. A window that is not known changes nothing and
    /// gets no requests.
    pub fn configure_window(
        &mut self,
        window: WindowId,
        position: Position,
        size: Size,
        mouse_position: (i16, i16),
    ) -> (requests: Result<Vec<Command>, TDAWmError>)
        requires
            old(self).wf(),
        ensures
            final(self).wf(),
            requests is Ok,
            final(self)@ == old(self)@.configured(
                window,
                position,
                size,
                mouse_position.0,
                mouse_position.1,
            ).state,
            requests->Ok_0@ == old(self)@.configured(
                window,
                position,
                size,
                mouse_position.0,
                mouse_position.1,
            ).requests,
    {
        match self.ctx.window(window) {
            Some(record) => {
                let changed = Window {
                    id: record.id,
                    fixed_position: Some(position),
                    fixed_size: Some(size),
                    window_type: record.window_type,
                };
                self.ctx.update_window(changed);
                self.layout(mouse_position)
            },
            None => Ok(Vec::new()),
        }
    }

    /// Takes note that the pointer entered a window. The first screen that
    /// shows the window takes it for its focused window, and the window gets
    /// the input focus. A window that no screen shows is passed over.
    pub fn enter_window(&mut self, window: WindowId) -> (requests: Vec<Command>)
        requires
            old(self).wf(),
        ensures
            final(self).wf(),
            final(self)@ == old(self)@.entered(window).state,
            requests@ == old(self)@.entered(window).requests,
    {
        let mut requests: Vec<Command> = Vec::new();
        match self.ctx.showing_screen(window) {
            Some(s) => {
                self.ctx.focus(s, window);
                requests.push(Command::Focus { window });
                assert(requests@ =~= seq![Command::Focus { window }]);
            },
            None => {},
        }
        requests
    }

    /// Makes the screen under the pointer show its workspace `index`: the
    /// windows of the workspace that it showed are hidden, by ascending
    /// identifier, the focus goes back to the root window, the workspace is
    /// switched if the screen has a workspace `index`, the number is
    /// published, and a layout pass follows.
    pub fn switch_workspace(&mut self, index: usize, mouse_position: (i16, i16)) -> (requests:
        Result<Vec<Command>, TDAWmError>)
        requires
            old(self).wf(),
        ensures
            final(self).wf(),
            requests is Ok,
            final(self)@ == old(self)@.switched(
                index as int,
                mouse_position.0,
                mouse_position.1,
            ).state,
            requests->Ok_0@ == old(self)@.switched(
                index as int,
                mouse_position.0,
                mouse_position.1,
            ).requests,
    {
        let ids = self.ctx.focused_screen(mouse_position).current_workspace().window_ids();
        let mut requests: Vec<Command> = Vec::new();
        let mut i: usize = 0;
        while i < ids.len()
            invariant
                0 <= i <= ids.len(),
                requests@.len() == i,
                forall|k: int| 0 <= k < i ==> requests@[k] == (Command::Hide { window: ids@[k] }),
            decreases ids.len() - i,
        {
            requests.push(Command::Hide { window: ids[i] });
            i += 1;
        }
        assert(requests@ =~= hide_all(ids@));
        requests.push(Command::FocusRoot);
        self.ctx.show_workspace(mouse_position, index);
        requests.push(Command::SetCurrentDesktop { index });
        let ghost head = requests@;
        let mut pass = self.layout(mouse_position)?;
        requests.append(&mut pass);
        assert(head =~= hide_all(ids@) + seq![
            Command::FocusRoot,
            Command::SetCurrentDesktop { index },
        ]);
        Ok(requests)
    }

    /// Answers a key press: the layout key switches the layout and makes a
    /// layout pass, the terminal key asks for a terminal, and the ten
    /// workspace keys switch the workspace. Any other key is passed over.
    pub fn handle_keypress(&mut self, keycode: u32, mouse_position: (i16, i16)) -> (requests:
        Result<Vec<Command>, TDAWmError>)
        requires
            old(self).wf(),
        ensures
            final(self).wf(),
            requests is Ok,
            final(self)@ == old(self)@.key_pressed(
                keycode,
                mouse_position.0,
                mouse_position.1,
            ).state,
            requests->Ok_0@ == old(self)@.key_pressed(
                keycode,
                mouse_position.0,
                mouse_position.1,
            ).requests,
    {
        if keycode == KEY_LAYOUT {
            self.current_layout = self.current_layout.toggle();
            self.layout(mouse_position)
        } else if keycode == KEY_TERMINAL {
            let mut requests: Vec<Command> = Vec::new();
            requests.push(Command::SpawnTerminal);
            assert(requests@ =~= seq![Command::SpawnTerminal]);
            Ok(requests)
        } else if KEY_FIRST_WORKSPACE <= keycode && keycode <= KEY_LAST_WORKSPACE {
            let index: u32 = keycode - KEY_FIRST_WORKSPACE;
            self.switch_workspace(index as usize, mouse_position)
        } else {
            Ok(Vec::new())
        }
    }

    /// Answers one event, with the pointer at `mouse_position`: the state
    /// moves on and the requests to send are returned.
    pub fn handle_event(&mut self, event: Event, mouse_position: (i16, i16)) -> (requests: Result<
        Vec<Command>,
        TDAWmError,
    >)
        requires
            old(self).wf(),
        ensures
            final(self).wf(),
            requests is Ok,
            final(self)@ == old(self)@.step(event, mouse_position.0, mouse_position.1).state,
            requests->Ok_0@ == old(self)@.step(
                event,
                mouse_position.0,
                mouse_position.1,
            ).requests,
    {
        match event {
            Event::Created { window } => {
                let mut requests: Vec<Command> = Vec::new();
                requests.push(Command::GrabEvents { window });
                assert(requests@ =~= seq![Command::GrabEvents { window }]);
                Ok(requests)
            },
            Event::MapRequest { window, window_type } => self.register_window(
                window,
                window_type,
                mouse_position,
            ),
            Event::Destroyed { window } => self.unregister_window(window, mouse_position),
            Event::KeyPress { keycode } => self.handle_keypress(keycode, mouse_position),
            Event::Enter { window } => Ok(self.enter_window(window)),
            Event::PropertyChanged { window, window_type } => self.property_changed(
                window,
                window_type,
                mouse_position,
            ),
            Event::ConfigureRequest { window, x, y, width, height } => self.configure_window(
                window,
                Position { x, y },
                Size { x: width, y: height },
                mouse_position,
            ),
            Event::Unknown => Ok(Vec::new()),
        }
    }

    /// Publishes the first desktop as the active one, then answers the
    /// inputs one after the other. Each input is an event and the pointer's
    /// position when it arrived. The requests of all of them are returned in
    /// order.
    pub fn run(&mut self, inputs: &Vec<(Event, (i16, i16))>) -> (requests: Result<
        Vec<Command>,
        TDAWmError,
    >)
        requires
            old(self).wf(),
        ensures
            final(self).wf(),
            requests is Ok,
            final(self)@ == old(self)@.run_upto(inputs@, inputs@.len() as int).state,
            requests->Ok_0@ == old(self)@.run_upto(inputs@, inputs@.len() as int).requests,
    {
        let mut requests: Vec<Command> = Vec::new();
        requests.push(Command::SetCurrentDesktop { index: 0 });
        assert(requests@ =~= seq![Command::SetCurrentDesktop { index: 0 }]);
        let mut i: usize = 0;
        while i < inputs.len()
            invariant
                0 <= i <= inputs.len(),
                self.wf(),
                self@ == old(self)@.run_upto(inputs@, i as int).state,
                requests@ == old(self)@.run_upto(inputs@, i as int).requests,
            decreases inputs.len() - i,
        {
            let event = inputs[i].0;
            let mouse_position = inputs[i].1;
            let mut answer = self.handle_event(event, mouse_position)?;
            requests.append(&mut answer);
            i += 1;
        }
        Ok(requests)
    }
}

} // verus!
