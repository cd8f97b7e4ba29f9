use vstd::prelude::*;
use crate::window::WindowId;
use crate::workspace::Workspace;

verus! {

/// How many workspaces a screen owns.
pub const WORKSPACES_PER_SCREEN: usize = 10;

/// The state of a screen as contracts see it.
pub struct ScreenView {
    pub width: u32,
    pub height: u32,
    pub x: i16,
    pub y: i16,
    /// The member set of each workspace, by workspace index.
    pub workspaces: Seq<Set<WindowId>>,
    /// Index of the workspace that is shown.
    pub current: int,
    pub focused_window: WindowId,
}

impl ScreenView {
    /// The shown workspace exists.
    pub open spec fn wf(self) -> bool {
        0 <= self.current < self.workspaces.len()
    }

    /// Every coordinate inside the screen can be written as an `i32`.
    pub open spec fn fits(self) -> bool {
        self.x + self.width <= i32::MAX && self.y + self.height <= i32::MAX
    }

    /// The members of the shown workspace.
    pub open spec fn visible(self) -> Set<WindowId> {
        self.workspaces[self.current]
    }

    /// Whether `id` is a member of the shown workspace.
    pub open spec fn shows(self, id: WindowId) -> bool {
        self.visible().contains(id)
    }

    /// Whether some workspace of the screen has `id` as a member.
    pub open spec fn holds(self, id: WindowId) -> bool {
        exists|i: int| 0 <= i < self.workspaces.len() && #[trigger] self.workspaces[i].contains(id)
    }

    /// Whether workspace `i` is the first of the screen that has `id` as a member.
    pub open spec fn first_holder(self, id: WindowId, i: int) -> bool {
        &&& 0 <= i < self.workspaces.len()
        &&& self.workspaces[i].contains(id)
        &&& forall|j: int| 0 <= j < i ==> !(#[trigger] self.workspaces[j]).contains(id)
    }

    /// Whether the point lies in the screen's rectangle. The rectangle holds
    /// its left and top edges and not its right and bottom edges: it is
    /// `[x, x + width)` by `[y, y + height)`.
    pub open spec fn contains_point(self, px: i16, py: i16) -> bool {
        &&& self.x <= px
        &&& px < self.x + self.width
        &&& self.y <= py
        &&& py < self.y + self.height
    }

    /// The screen with `id` taken out of each of its workspaces.
    pub open spec fn without(self, id: WindowId) -> ScreenView {
        ScreenView {
            workspaces: Seq::new(self.workspaces.len(), |i: int| self.workspaces[i].remove(id)),
            ..self
        }
    }

    /// The screen with `id` added to the shown workspace.
    pub open spec fn with_visible(self, id: WindowId) -> ScreenView {
        ScreenView {
            workspaces: self.workspaces.update(self.current, self.visible().insert(id)),
            ..self
        }
    }
}

/// One physical display region, with the workspaces that it owns.
#[derive(Debug)]
pub struct Screen {
    pub width: u32,
    pub height: u32,
    pub x: i16,
    pub y: i16,
    pub workspaces: Vec<Workspace>,
    pub current_workspace_id: usize,
    pub focused_window: WindowId,
}

impl View for Screen {
    type V = ScreenView;

    open spec fn view(&self) -> ScreenView {
        ScreenView {
            width: self.width,
            height: self.height,
            x: self.x,
            y: self.y,
            workspaces: Seq::new(self.workspaces@.len(), |i: int| self.workspaces@[i]@),
            current: self.current_workspace_id as int,
            focused_window: self.focused_window,
        }
    }
}

impl Screen {
    /// The shown workspace exists.
    pub open spec fn wf(&self) -> bool {
        self@.wf()
    }

    /// A screen of the given geometry, with ten empty workspaces, showing the
    /// first of them and with no window focused.
    pub fn new_screen(width: u32, height: u32, x: i16, y: i16) -> (screen: Screen)
        ensures
            screen.wf(),
            screen@ == (ScreenView {
                width,
                height,
                x,
                y,
                workspaces: Seq::new(
                    WORKSPACES_PER_SCREEN as nat,
                    |i: int| Set::<WindowId>::empty(),
                ),
                current: 0,
                focused_window: 0,
            }),
    {
        let mut workspaces: Vec<Workspace> = Vec::new();
        let mut n: usize = 0;
        while n < WORKSPACES_PER_SCREEN
            invariant
                n <= WORKSPACES_PER_SCREEN,
                workspaces@.len() == n,
                forall|i: int| 0 <= i < n ==> (#[trigger] workspaces@[i])@ == Set::<WindowId>::empty(),
            decreases WORKSPACES_PER_SCREEN - n,
        {
            workspaces.push(Workspace::new());
            n += 1;
        }
        let screen = Screen {
            width,
            height,
            x,
            y,
            workspaces,
            current_workspace_id: 0,
            focused_window: 0,
        };
        assert(screen@.workspaces =~= Seq::new(
            WORKSPACES_PER_SCREEN as nat,
            |i: int| Set::<WindowId>::empty(),
        ));
        screen
    }

    /// Whether the shown workspace exists and the screen's far corner can be
    /// written in `i32` coordinates.
    pub fn is_usable(&self) -> (usable: bool)
        ensures
            usable == (self@.wf() && self@.fits()),
    {
        self.current_workspace_id < self.workspaces.len()
            && self.x as i64 + self.width as i64 <= i32::MAX as i64
            && self.y as i64 + self.height as i64 <= i32::MAX as i64
    }

    /// Index of the first workspace that has `id` as a member, if any has.
    pub fn window_workspace_index(&self, id: WindowId) -> (found: Option<usize>)
        ensures
            match found {
                Some(i) => self@.first_holder(id, i as int),
                None => !self@.holds(id),
            },
    {
        let mut i: usize = 0;
        while i < self.workspaces.len()
            invariant
                0 <= i <= self.workspaces.len(),
                forall|j: int| 0 <= j < i ==> !(#[trigger] self@.workspaces[j]).contains(id),
            decreases self.workspaces.len() - i,
        {
            if self.workspaces[i].contains(id) {
                return Some(i);
            }
            i += 1;
        }
        None
    }

    /// The first workspace that has `id` as a member, if any has.
    pub fn window_workspace(&self, id: WindowId) -> (found: Option<&Workspace>)
        ensures
            match found {
                Some(workspace) => exists|i: int|
                    self@.first_holder(id, i) && *workspace == #[trigger] self.workspaces@[i],
                None => !self@.holds(id),
            },
    {
        match self.window_workspace_index(id) {
            Some(i) => Some(&self.workspaces[i]),
            None => None,
        }
    }

    /// Whether `id` is a member of the shown workspace.
    pub fn has_window_visible(&self, id: WindowId) -> (visible: bool)
        requires
            self.wf(),
        ensures
            visible == self@.shows(id),
    {
        self.workspaces[self.current_workspace_id].contains(id)
    }

    /// The shown workspace.
    pub fn current_workspace(&self) -> (workspace: &Workspace)
        requires
            self.wf(),
        ensures
            *workspace == self.workspaces@[self.current_workspace_id as int],
            workspace@ == self@.visible(),
    {
        &self.workspaces[self.current_workspace_id]
    }

    /// The shown workspace, for changing its members. Nothing else of the
    /// screen changes.
    pub fn current_workspace_mut(&mut self) -> (workspace: &mut Workspace)
        requires
            old(self).wf(),
        ensures
            *workspace == old(self).workspaces@[old(self).current_workspace_id as int],
            final(self).workspaces@ == old(self).workspaces@.update(
                old(self).current_workspace_id as int,
                *final(workspace),
            ),
            final(self).width == old(self).width,
            final(self).height == old(self).height,
            final(self).x == old(self).x,
            final(self).y == old(self).y,
            final(self).current_workspace_id == old(self).current_workspace_id,
            final(self).focused_window == old(self).focused_window,
    {
        &mut self.workspaces[self.current_workspace_id]
    }
}

impl Screen {
    /// Takes `id` out of every workspace of the screen.
    pub fn remove_window(&mut self, id: WindowId)
        ensures
            final(self)@ == old(self)@.without(id),
    {
        let mut w: usize = 0;
        while w < self.workspaces.len()
            invariant
                0 <= w <= self.workspaces.len(),
                self.workspaces@.len() == old(self).workspaces@.len(),
                self.width == old(self).width,
                self.height == old(self).height,
                self.x == old(self).x,
                self.y == old(self).y,
                self.current_workspace_id == old(self).current_workspace_id,
                self.focused_window == old(self).focused_window,
                forall|k: int| 0 <= k < w ==> (#[trigger] self.workspaces@[k])@ == old(
                    self,
                ).workspaces@[k]@.remove(id),
                forall|k: int|
                    w <= k < self.workspaces@.len() ==> (#[trigger] self.workspaces@[k])@ == old(
                        self,
                    ).workspaces@[k]@,
            decreases self.workspaces.len() - w,
        {
            self.workspaces[w].remove_window(&id);
            w += 1;
        }
        assert(self@.workspaces =~= old(self)@.without(id).workspaces);
    }
}

} // verus!
