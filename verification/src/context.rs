use vstd::prelude::*;
use std::collections::HashMap;
use crate::screen::{Screen, ScreenView};
use crate::window::{Window, WindowId};

verus! {

/// The state of the whole window manager as contracts see it.
pub struct ContextView {
    pub screens: Seq<ScreenView>,
    /// The registry: the record of every window that is known.
    pub windows: Map<WindowId, Window>,
}

/// Index of the first screen from `from` on whose rectangle holds the point,
/// or 0 if there is none. A point on the left or top edge of a rectangle is
/// held by it, a point on its right or bottom edge is not.
pub open spec fn first_screen_at(screens: Seq<ScreenView>, px: i16, py: i16, from: int) -> int
    decreases screens.len() - from,
{
    if from < 0 || from >= screens.len() {
        0
    } else if screens[from].contains_point(px, py) {
        from
    } else {
        first_screen_at(screens, px, py, from + 1)
    }
}

impl ContextView {
    /// Every screen shows a workspace that exists, and every coordinate
    /// inside a screen can be written as an `i32`.
    pub open spec fn tileable(self) -> bool {
        forall|s: int|
            0 <= s < self.screens.len() ==> (#[trigger] self.screens[s]).wf() && self.screens[s].fits()
    }

    /// The screens can be tiled, and every record is filed under its own
    /// identifier.
    pub open spec fn wf(self) -> bool {
        &&& self.tileable()
        &&& crate::workspace::filed_by_id(self.windows)
    }

    /// Every workspace has finitely many members.
    pub open spec fn finite(self) -> bool {
        forall|s: int, w: int|
            0 <= s < self.screens.len() && 0 <= w < self.screens[s].workspaces.len()
                ==> #[trigger] self.screens[s].workspaces[w].finite()
    }

    /// Index of the screen under the pointer: the first screen whose rectangle
    /// `[x, x + width)` by `[y, y + height)` holds the point, or the first
    /// screen of all if none does.
    pub open spec fn focused_index(self, px: i16, py: i16) -> int {
        first_screen_at(self.screens, px, py, 0)
    }

    /// The screen under the pointer.
    pub open spec fn focused(self, px: i16, py: i16) -> ScreenView {
        self.screens[self.focused_index(px, py)]
    }

    /// The state after `id` was taken out of every workspace. The registry
    /// stays as it is.
    pub open spec fn cleared(self, id: WindowId) -> ContextView {
        ContextView {
            screens: Seq::new(self.screens.len(), |s: int| self.screens[s].without(id)),
            ..self
        }
    }

    /// The state after `record` was filed in the registry, in place of an
    /// older record of the same window, and its window was made a member of
    /// the workspace that the screen under the pointer shows, and of no other
    /// workspace: a window that was a member of another workspace has left it.
    pub open spec fn with_window(self, px: i16, py: i16, record: Window) -> ContextView {
        let f = self.focused_index(px, py);
        let cleared = self.cleared(record.id);
        ContextView {
            screens: cleared.screens.update(f, cleared.screens[f].with_visible(record.id)),
            windows: self.windows.insert(record.id, record),
        }
    }

    /// The state after `id` was taken out of every workspace and out of the
    /// registry.
    pub open spec fn without_window(self, id: WindowId) -> ContextView {
        ContextView { windows: self.windows.remove(id), ..self.cleared(id) }
    }

    /// The state after the record of a known window was replaced by `record`.
    pub open spec fn with_record(self, record: Window) -> ContextView {
        ContextView { windows: self.windows.insert(record.id, record), ..self }
    }

    /// Index of the first screen from `from` on that shows `id`, or -1 if
    /// there is none.
    pub open spec fn first_showing(self, id: WindowId, from: int) -> int
        decreases self.screens.len() - from,
    {
        if from < 0 || from >= self.screens.len() {
            -1
        } else if self.screens[from].shows(id) {
            from
        } else {
            self.first_showing(id, from + 1)
        }
    }

    /// The state after screen `s` took `id` for its focused window.
    pub open spec fn with_focus(self, s: int, id: WindowId) -> ContextView {
        ContextView {
            screens: self.screens.update(s, ScreenView { focused_window: id, ..self.screens[s] }),
            ..self
        }
    }

    /// The state after the screen under the pointer was told to show its
    /// workspace `index`. A screen that has no such workspace stays as it is.
    pub open spec fn with_current(self, px: i16, py: i16, index: int) -> ContextView {
        let f = self.focused_index(px, py);
        if 0 <= index < self.screens[f].workspaces.len() {
            ContextView {
                screens: self.screens.update(f, ScreenView { current: index, ..self.screens[f] }),
                ..self
            }
        } else {
            self
        }
    }

    /// Whether workspace `w` of screen `s` has `id` as a member.
    pub open spec fn member(self, s: int, w: int, id: WindowId) -> bool {
        &&& 0 <= s < self.screens.len()
        &&& 0 <= w < self.screens[s].workspaces.len()
        &&& self.screens[s].workspaces[w].contains(id)
    }

    /// Whether some workspace of some screen has `id` as a member.
    pub open spec fn placed(self, id: WindowId) -> bool {
        exists|s: int, w: int| self.member(s, w, id)
    }

    /// The state is consistent: the windows that belong to a workspace are
    /// exactly the windows that have a record, and no window belongs to two
    /// workspaces.
    pub open spec fn consistent(self) -> bool {
        &&& forall|id: WindowId| self.placed(id) <==> #[trigger] self.windows.contains_key(id)
        &&& forall|s1: int, w1: int, s2: int, w2: int, id: WindowId|
            #[trigger] self.member(s1, w1, id) && #[trigger] self.member(s2, w2, id) ==> s1 == s2
                && w1 == w2
    }
}

/// The first screen at or after `from` that holds the point lies inside the
/// list, and no screen between `from` and it holds the point.
pub proof fn lemma_first_screen_at(screens: Seq<ScreenView>, px: i16, py: i16, from: int)
    requires
        0 <= from <= screens.len(),
    ensures
        ({
            let i = first_screen_at(screens, px, py, from);
            if exists|k: int| from <= k < screens.len() && screens[k].contains_point(px, py) {
                &&& from <= i < screens.len()
                &&& screens[i].contains_point(px, py)
                &&& forall|k: int| from <= k < i ==> !screens[k].contains_point(px, py)
            } else {
                i == 0
            }
        }),
    decreases screens.len() - from,
{
    if from < screens.len() && !screens[from].contains_point(px, py) {
        lemma_first_screen_at(screens, px, py, from + 1);
    }
}

/// The screen under the pointer depends on the rectangles of the screens only.
pub proof fn lemma_focus_by_geometry(
    a: Seq<ScreenView>,
    b: Seq<ScreenView>,
    px: i16,
    py: i16,
    from: int,
)
    requires
        0 <= from,
        a.len() == b.len(),
        forall|s: int|
            0 <= s < a.len() ==> a[s].x == b[s].x && a[s].y == b[s].y && a[s].width == b[s].width
                && a[s].height == b[s].height,
    ensures
        first_screen_at(a, px, py, from) == first_screen_at(b, px, py, from),
    decreases a.len() - from,
{
    if from < a.len() {
        lemma_focus_by_geometry(a, b, px, py, from + 1);
    }
}

/// Everything that the window manager tracks: the screens and the registry
/// of window records.
pub struct Context {
    pub screens: Vec<Screen>,
    pub windows_by_id: HashMap<WindowId, Window>,
}

impl View for Context {
    type V = ContextView;

    open spec fn view(&self) -> ContextView {
        ContextView {
            screens: Seq::new(self.screens@.len(), |i: int| self.screens@[i]@),
            windows: self.windows_by_id@,
        }
    }
}

impl Context {
    /// See [`ContextView::wf`].
    pub open spec fn wf(&self) -> bool {
        self@.wf()
    }

    /// The workspaces of a context have finitely many members each.
    pub proof fn lemma_finite(&self)
        ensures
            self@.finite(),
    {
        assert forall|s: int, w: int|
            0 <= s < self@.screens.len() && 0 <= w < self@.screens[s].workspaces.len() implies
            #[trigger] self@.screens[s].workspaces[w].finite() by {
            self.screens@[s].workspaces@[w].lemma_finite();
        }
    }

    /// Index of the screen under the pointer.
    pub fn focused_screen_index(&self, mouse_position: (i16, i16)) -> (index: usize)
        ensures
            index == self@.focused_index(mouse_position.0, mouse_position.1),
            self.screens@.len() > 0 ==> index < self.screens@.len(),
    {
        let (mouse_x, mouse_y) = mouse_position;
        let mut i: usize = 0;
        while i < self.screens.len()
            invariant
                0 <= i <= self.screens.len(),
                mouse_x == mouse_position.0,
                mouse_y == mouse_position.1,
                first_screen_at(self@.screens, mouse_x, mouse_y, 0) == first_screen_at(
                    self@.screens,
                    mouse_x,
                    mouse_y,
                    i as int,
                ),
            decreases self.screens.len() - i,
        {
            let screen = &self.screens[i];
            let left = screen.x as i64;
            let top = screen.y as i64;
            let px = mouse_x as i64;
            let py = mouse_y as i64;
            if left <= px && px < left + screen.width as i64 && top <= py && py < top
                + screen.height as i64 {
                assert(self@.screens[i as int].contains_point(mouse_x, mouse_y));
                return i;
            }
            assert(!self@.screens[i as int].contains_point(mouse_x, mouse_y));
            i += 1;
        }
        0
    }

    /// The screen under the pointer.
    pub fn focused_screen(&self, mouse_position: (i16, i16)) -> (screen: &Screen)
        requires
            self.screens@.len() > 0,
        ensures
            0 <= self@.focused_index(mouse_position.0, mouse_position.1) < self.screens@.len(),
            *screen == self.screens@[self@.focused_index(mouse_position.0, mouse_position.1)],
            screen@ == self@.focused(mouse_position.0, mouse_position.1),
            self.wf() ==> screen.wf() && screen@.fits(),
    {
        let index = self.focused_screen_index(mouse_position);
        assert(self@.screens[index as int] == self.screens@[index as int]@);
        &self.screens[index]
    }

    /// The screen under the pointer, for changing it. Nothing else changes.
    pub fn focused_screen_mut(&mut self, mouse_position: (i16, i16)) -> (screen: &mut Screen)
        requires
            old(self).screens@.len() > 0,
        ensures
            0 <= old(self)@.focused_index(mouse_position.0, mouse_position.1) < old(
                self,
            ).screens@.len(),
            *screen == old(self).screens@[old(self)@.focused_index(
                mouse_position.0,
                mouse_position.1,
            )],
            final(self).screens@ == old(self).screens@.update(
                old(self)@.focused_index(mouse_position.0, mouse_position.1),
                *final(screen),
            ),
            final(self).windows_by_id == old(self).windows_by_id,
    {
        let index = self.focused_screen_index(mouse_position);
        &mut self.screens[index]
    }
}

impl Context {
    /// Takes `id` out of every workspace. The registry stays as it is.
    pub fn clear_window(&mut self, id: WindowId)
        requires
            old(self).wf(),
        ensures
            final(self)@ == old(self)@.cleared(id),
            final(self).wf(),
            final(self).screens@.len() == old(self).screens@.len(),
    {
        let mut s: usize = 0;
        while s < self.screens.len()
            invariant
                0 <= s <= self.screens.len(),
                self.screens@.len() == old(self).screens@.len(),
                self.windows_by_id == old(self).windows_by_id,
                forall|k: int| 0 <= k < s ==> (#[trigger] self.screens@[k])@ == old(
                    self,
                ).screens@[k]@.without(id),
                forall|k: int|
                    s <= k < self.screens@.len() ==> (#[trigger] self.screens@[k])@ == old(
                        self,
                    ).screens@[k]@,
            decreases self.screens.len() - s,
        {
            self.screens[s].remove_window(id);
            s += 1;
        }
        proof {
            let wanted = old(self)@.cleared(id);
            assert(self@.screens =~= wanted.screens);
            assert forall|k: int| 0 <= k < self@.screens.len() implies (
            #[trigger] self@.screens[k]).wf() && self@.screens[k].fits() by {
                assert(old(self)@.screens[k].wf());
            }
        }
    }

    /// Files `record` in the registry, in place of an older record of the
    /// same window, and makes the window a member of the workspace that the
    /// screen under the pointer shows. If the window was a member of another
    /// workspace, it leaves that one: a window belongs to one workspace.
    pub fn add_window(&mut self, mouse_position: (i16, i16), record: Window)
        requires
            old(self).wf(),
            old(self).screens@.len() > 0,
        ensures
            final(self)@ == old(self)@.with_window(mouse_position.0, mouse_position.1, record),
            final(self).wf(),
            final(self).screens@.len() == old(self).screens@.len(),
    {
        broadcast use vstd::std_specs::hash::group_hash_axioms;

        let ghost before = self@;
        let ghost f = before.focused_index(mouse_position.0, mouse_position.1);
        self.clear_window(record.id);
        let ghost cleared = self@;
        proof {
            lemma_first_screen_at(before.screens, mouse_position.0, mouse_position.1, 0);
            lemma_focus_by_geometry(
                before.screens,
                cleared.screens,
                mouse_position.0,
                mouse_position.1,
                0,
            );
            assert(cleared.focused_index(mouse_position.0, mouse_position.1) == f);
            assert(cleared.screens[f].wf());
        }
        self.focused_screen_mut(mouse_position).current_workspace_mut().add_window(record.id);
        self.windows_by_id.insert(record.id, record);
        proof {
            let after = self@;
            let wanted = before.with_window(mouse_position.0, mouse_position.1, record);
            assert(after.screens.len() == wanted.screens.len());
            assert forall|s: int| 0 <= s < after.screens.len() implies after.screens[s]
                == wanted.screens[s] by {
                if s == f {
                    assert(after.screens[s].workspaces =~= wanted.screens[s].workspaces);
                }
            }
            assert(after.screens =~= wanted.screens);
            assert(after.windows =~= wanted.windows);
            assert forall|k: int| 0 <= k < after.screens.len() implies (
            #[trigger] after.screens[k]).wf() && after.screens[k].fits() by {
                assert(cleared.screens[k].wf() && cleared.screens[k].fits());
            }
        }
    }
}

impl Context {
    /// Takes `id` out of every workspace and out of the registry. A window
    /// that is not known leaves the state as it is.
    pub fn remove_window(&mut self, id: WindowId)
        requires
            old(self).wf(),
        ensures
            final(self)@ == old(self)@.without_window(id),
            final(self).wf(),
            final(self).screens@.len() == old(self).screens@.len(),
    {
        broadcast use vstd::std_specs::hash::group_hash_axioms;

        self.clear_window(id);
        self.windows_by_id.remove(&id);
        proof {
            let wanted = old(self)@.without_window(id);
            assert(self@.screens =~= wanted.screens);
            assert(self@.windows =~= wanted.windows);
        }
    }

    /// Replaces the record of the window that `record` describes, if that
    /// window is known, and says whether it is.
    pub fn update_window(&mut self, record: Window) -> (known: bool)
        requires
            old(self).wf(),
        ensures
            known == old(self)@.windows.contains_key(record.id),
            known ==> final(self)@ == old(self)@.with_record(record),
            !known ==> final(self)@ == old(self)@,
            final(self).wf(),
            final(self).screens@.len() == old(self).screens@.len(),
    {
        broadcast use vstd::std_specs::hash::group_hash_axioms;

        if self.windows_by_id.contains_key(&record.id) {
            self.windows_by_id.insert(record.id, record);
            assert(self@.screens =~= old(self)@.screens);
            true
        } else {
            false
        }
    }

    /// The record of `id`, if the window is known.
    pub fn window(&self, id: WindowId) -> (record: Option<Window>)
        ensures
            record == (if self@.windows.contains_key(id) {
                Some(self@.windows[id])
            } else {
                None
            }),
    {
        broadcast use vstd::std_specs::hash::group_hash_axioms;

        match self.windows_by_id.get(&id) {
            Some(record) => Some(*record),
            None => None,
        }
    }

    /// Index of the first screen that shows `id`, if any does.
    pub fn showing_screen(&self, id: WindowId) -> (found: Option<usize>)
        requires
            self.wf(),
        ensures
            match found {
                Some(s) => s == self@.first_showing(id, 0) && s < self.screens@.len(),
                None => self@.first_showing(id, 0) == -1,
            },
    {
        let mut s: usize = 0;
        while s < self.screens.len()
            invariant
                0 <= s <= self.screens.len(),
                self.wf(),
                self@.first_showing(id, 0) == self@.first_showing(id, s as int),
            decreases self.screens.len() - s,
        {
            assert(self@.screens[s as int] == self.screens@[s as int]@);
            if self.screens[s].has_window_visible(id) {
                return Some(s);
            }
            s += 1;
        }
        None
    }

    /// Makes `id` the focused window of screen `s`.
    pub fn focus(&mut self, s: usize, id: WindowId)
        requires
            old(self).wf(),
            s < old(self).screens@.len(),
        ensures
            final(self)@ == old(self)@.with_focus(s as int, id),
            final(self).wf(),
            final(self).screens@.len() == old(self).screens@.len(),
    {
        self.screens[s].focused_window = id;
        proof {
            let wanted = old(self)@.with_focus(s as int, id);
            assert forall|k: int| 0 <= k < self@.screens.len() implies self@.screens[k]
                == wanted.screens[k] by {
                assert(self@.screens[k].workspaces =~= wanted.screens[k].workspaces);
            }
            assert(self@.screens =~= wanted.screens);
            assert forall|k: int| 0 <= k < self@.screens.len() implies (
            #[trigger] self@.screens[k]).wf() && self@.screens[k].fits() by {
                assert(old(self)@.screens[k].wf());
            }
        }
    }

    /// Tells the screen under the pointer to show its workspace `index`. A
    /// screen that has no such workspace stays as it is.
    pub fn show_workspace(&mut self, mouse_position: (i16, i16), index: usize)
        requires
            old(self).wf(),
            old(self).screens@.len() > 0,
        ensures
            final(self)@ == old(self)@.with_current(
                mouse_position.0,
                mouse_position.1,
                index as int,
            ),
            final(self).wf(),
            final(self).screens@.len() == old(self).screens@.len(),
    {
        let f = self.focused_screen_index(mouse_position);
        assert(self@.screens[f as int] == self.screens@[f as int]@);
        if index < self.screens[f].workspaces.len() {
            self.screens[f].current_workspace_id = index;
            proof {
                let wanted = old(self)@.with_current(
                    mouse_position.0,
                    mouse_position.1,
                    index as int,
                );
                assert forall|k: int| 0 <= k < self@.screens.len() implies self@.screens[k]
                    == wanted.screens[k] by {
                    assert(self@.screens[k].workspaces =~= wanted.screens[k].workspaces);
                }
                assert(self@.screens =~= wanted.screens);
                assert forall|k: int| 0 <= k < self@.screens.len() implies (
                #[trigger] self@.screens[k]).wf() && self@.screens[k].fits() by {
                    assert(old(self)@.screens[k].wf());
                    assert(old(self)@.screens[k].fits());
                }
            }
        }
    }
}

} // verus!
