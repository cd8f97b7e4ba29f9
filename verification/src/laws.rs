use vstd::prelude::*;
use crate::command::{place, Command, Event};
use crate::context::{lemma_first_screen_at, lemma_focus_by_geometry, ContextView};
use crate::flat::{concat, lemma_concat_contains, lemma_concat_uniform};
use crate::layouts::dwm::{slice_height, stack_slot, stacked_before};
use crate::layouts::horizontal::{column, column_width, lemma_column_inside};
use crate::layouts::vertical::{row, row_height};
use crate::order::{in_order, lemma_in_order};
use crate::tdawm::{dock_pass, dock_requests, dock_slot, hide_all, Outcome, TDAWmView};
use crate::layouts::{
    tiling_of, tiling_of_screen, HorizontalLayout, LayoutKind, Tiling, VerticalLayout,
};
use crate::screen::ScreenView;
use crate::window::{Window, WindowId, WindowType};
use crate::workspace::{filed_by_id, lemma_normal_windows, normal_windows, tiled_ids};

verus! {

/// The horizontal layout divides a screen completely and in order. With `n`
/// tiled windows on a screen of width `W`, window `i` in ascending order of
/// identifiers is moved to the column that begins `i * (W / n)` to the right
/// of the screen's left edge, at the screen's top, is given the width `W / n`
/// and the screen's height, and is shown. The columns lie inside the screen,
/// so that their widths sum to `W` at most.
pub proof fn lemma_horizontal_partition(ctx: ContextView, s: int)
    requires
        ctx.wf(),
        ctx.finite(),
        0 <= s < ctx.screens.len(),
    ensures
        ({
            let screen = ctx.screens[s];
            let windows = normal_windows(screen.visible(), ctx.windows);
            let n = windows.len() as int;
            let width = column_width(screen, n);
            let requests = tiling_of_screen(&HorizontalLayout, ctx, s);
            &&& requests.len() == 3 * n
            &&& n > 0 ==> width == screen.width as int / n
            &&& width * n <= screen.width
            &&& forall|i: int, j: int| 0 <= i < j < n ==> windows[i].id < windows[j].id
            &&& forall|i: int|
                0 <= i < n ==> {
                    let window = (#[trigger] windows[i]).id;
                    &&& screen.x <= screen.x + width * i
                    &&& screen.x + width * i + width <= screen.x + screen.width
                    &&& requests[3 * i] == (Command::Move {
                        window,
                        x: (screen.x + width * i) as i32,
                        y: screen.y as i32,
                    })
                    &&& requests[3 * i + 1] == (Command::Resize {
                        window,
                        width: width as u32,
                        height: screen.height,
                    })
                    &&& requests[3 * i + 2] == (Command::Show { window })
                }
        }),
{
    let screen = ctx.screens[s];
    let windows = normal_windows(screen.visible(), ctx.windows);
    let n = windows.len() as int;
    let width = column_width(screen, n);
    let requests = tiling_of_screen(&HorizontalLayout, ctx, s);
    lemma_normal_windows(screen.visible(), ctx.windows);
    let piece = |i: int| column(screen, windows, i);
    assert(requests == concat(n, piece));
    lemma_concat_uniform(n, piece, 3);
    if n > 0 {
        assert(width * n <= screen.width) by {
            lemma_column_inside(screen.width as int, n, 0);
        }
    } else {
        assert(width * n == 0);
    }
    assert forall|i: int| 0 <= i < n implies {
        let window = (#[trigger] windows[i]).id;
        &&& screen.x <= screen.x + width * i
        &&& screen.x + width * i + width <= screen.x + screen.width
        &&& requests[3 * i] == (Command::Move {
            window,
            x: (screen.x + width * i) as i32,
            y: screen.y as i32,
        })
        &&& requests[3 * i + 1] == (Command::Resize {
            window,
            width: width as u32,
            height: screen.height,
        })
        &&& requests[3 * i + 2] == (Command::Show { window })
    } by {
        lemma_column_inside(screen.width as int, n, i);
        assert(0 <= 3 * i <= 3 * n - 3);
        let part = requests.subrange(3 * i, 3 * i + 3);
        assert(part == piece(i));
        assert(part[0] == requests[3 * i]);
        assert(part[1] == requests[3 * i + 1]);
        assert(part[2] == requests[3 * i + 2]);
    }
}

/// The vertical layout divides a screen completely and in order. With `n`
/// tiled windows on a screen of height `H`, window `i` in ascending order of
/// identifiers is moved to the row that begins `i * (H / n)` below the
/// screen's top edge, at the screen's left, is given the screen's width and
/// the height `H / n`, and is shown. The rows lie inside the screen, so that
/// their heights sum to `H` at most.
pub proof fn lemma_vertical_partition(ctx: ContextView, s: int)
    requires
        ctx.wf(),
        ctx.finite(),
        0 <= s < ctx.screens.len(),
    ensures
        ({
            let screen = ctx.screens[s];
            let windows = normal_windows(screen.visible(), ctx.windows);
            let n = windows.len() as int;
            let height = row_height(screen, n);
            let requests = tiling_of_screen(&VerticalLayout, ctx, s);
            &&& requests.len() == 3 * n
            &&& n > 0 ==> height == screen.height as int / n
            &&& height * n <= screen.height
            &&& forall|i: int, j: int| 0 <= i < j < n ==> windows[i].id < windows[j].id
            &&& forall|i: int|
                0 <= i < n ==> {
                    let window = (#[trigger] windows[i]).id;
                    &&& screen.y <= screen.y + height * i
                    &&& screen.y + height * i + height <= screen.y + screen.height
                    &&& requests[3 * i] == (Command::Move {
                        window,
                        x: screen.x as i32,
                        y: (screen.y + height * i) as i32,
                    })
                    &&& requests[3 * i + 1] == (Command::Resize {
                        window,
                        width: screen.width,
                        height: height as u32,
                    })
                    &&& requests[3 * i + 2] == (Command::Show { window })
                }
        }),
{
    let screen = ctx.screens[s];
    let windows = normal_windows(screen.visible(), ctx.windows);
    let n = windows.len() as int;
    let height = row_height(screen, n);
    let requests = tiling_of_screen(&VerticalLayout, ctx, s);
    lemma_normal_windows(screen.visible(), ctx.windows);
    let piece = |i: int| row(screen, windows, i);
    assert(requests == concat(n, piece));
    lemma_concat_uniform(n, piece, 3);
    if n > 0 {
        assert(height * n <= screen.height) by {
            lemma_column_inside(screen.height as int, n, 0);
        }
    } else {
        assert(height * n == 0);
    }
    assert forall|i: int| 0 <= i < n implies {
        let window = (#[trigger] windows[i]).id;
        &&& screen.y <= screen.y + height * i
        &&& screen.y + height * i + height <= screen.y + screen.height
        &&& requests[3 * i] == (Command::Move {
            window,
            x: screen.x as i32,
            y: (screen.y + height * i) as i32,
        })
        &&& requests[3 * i + 1] == (Command::Resize {
            window,
            width: screen.width,
            height: height as u32,
        })
        &&& requests[3 * i + 2] == (Command::Show { window })
    } by {
        lemma_column_inside(screen.height as int, n, i);
        assert(0 <= 3 * i <= 3 * n - 3);
        let part = requests.subrange(3 * i, 3 * i + 3);
        assert(part == piece(i));
        assert(part[0] == requests[3 * i]);
        assert(part[1] == requests[3 * i + 1]);
        assert(part[2] == requests[3 * i + 2]);
    }
}

/// The requests that put a window in place are about that window, and the
/// last of them shows it.
pub proof fn lemma_place(window: WindowId, x: int, y: int, width: int, height: int)
    ensures
        forall|c: Command| #[trigger]
            place(window, x, y, width, height).contains(c) ==> c.target() == Some(window),
        place(window, x, y, width, height).contains(Command::Show { window }),
{
    let p = place(window, x, y, width, height);
    assert(p[2] == Command::Show { window });
    assert forall|c: Command| #[trigger] p.contains(c) implies c.target() == Some(window) by {
        let k = choose|k: int| 0 <= k < p.len() && p[k] == c;
        assert(k == 0 || k == 1 || k == 2);
    }
}

/// Whatever the strategy, the requests that tile a screen are about the
/// windows that were handed to the strategy, and each of those windows is
/// shown.
pub proof fn lemma_arrange_targets(layout: LayoutKind, screen: ScreenView, windows: Seq<Window>)
    ensures
        forall|c: Command| #[trigger]
            layout.arrange(screen, windows).contains(c) ==> exists|i: int|
                0 <= i < windows.len() && c.target() == Some(#[trigger] windows[i].id),
        forall|i: int|
            0 <= i < windows.len() ==> layout.arrange(screen, windows).contains(
                Command::Show { window: #[trigger] windows[i].id },
            ),
{
    let n = windows.len() as int;
    let requests = layout.arrange(screen, windows);
    let piece = match layout {
        LayoutKind::Horizontal(_) => |i: int| column(screen, windows, i),
        LayoutKind::Vertical(_) => |i: int| row(screen, windows, i),
        LayoutKind::MasterStack(l) => |i: int| stack_slot(screen, windows, l.master, i),
    };
    let single = layout is MasterStack && n == 1;
    if single {
        lemma_place(
            windows[0].id,
            screen.x as int,
            screen.y as int,
            screen.width as int,
            screen.height as int,
        );
    } else {
        assert(requests == concat(n, piece));
    }
    assert forall|i: int| 0 <= i < n implies (forall|c: Command| #[trigger]
        piece(i).contains(c) ==> c.target() == Some(windows[i].id)) && (#[trigger] piece(
        i,
    )).contains(Command::Show { window: windows[i].id }) by {
        match layout {
            LayoutKind::Horizontal(_) => {
                let width = column_width(screen, n);
                lemma_place(
                    windows[i].id,
                    screen.x + width * i,
                    screen.y as int,
                    width,
                    screen.height as int,
                );
            },
            LayoutKind::Vertical(_) => {
                let height = row_height(screen, n);
                lemma_place(
                    windows[i].id,
                    screen.x as int,
                    screen.y + height * i,
                    screen.width as int,
                    height,
                );
            },
            LayoutKind::MasterStack(l) => {
                let half = screen.width as int / 2;
                let slice = slice_height(screen, windows, l.master);
                lemma_place(
                    windows[i].id,
                    screen.x as int,
                    screen.y as int,
                    half,
                    screen.height as int,
                );
                lemma_place(
                    windows[i].id,
                    screen.x + half,
                    screen.y + slice * stacked_before(windows, l.master, i),
                    half,
                    slice,
                );
            },
        }
    }
    assert forall|c: Command| #[trigger] requests.contains(c) implies exists|i: int|
        0 <= i < windows.len() && c.target() == Some(#[trigger] windows[i].id) by {
        if single {
            assert(c.target() == Some(windows[0].id));
        } else {
            lemma_concat_contains(n, piece, c);
            let i = choose|i: int| 0 <= i < n && (#[trigger] piece(i)).contains(c);
            assert(c.target() == Some(windows[i].id));
        }
    }
    assert forall|i: int| 0 <= i < windows.len() implies requests.contains(
        Command::Show { window: #[trigger] windows[i].id },
    ) by {
        if !single {
            let c = Command::Show { window: windows[i].id };
            lemma_concat_contains(n, piece, c);
            assert(piece(i).contains(c));
        }
    }
}

/// A request is among those that tile the display exactly if it is among
/// those that tile one of the screens.
pub proof fn lemma_tiling_contains(layout: LayoutKind, ctx: ContextView, c: Command)
    ensures
        tiling_of(&layout, ctx).contains(c) <==> exists|s: int|
            0 <= s < ctx.screens.len() && (#[trigger] tiling_of_screen(&layout, ctx, s)).contains(c),
{
    let piece = |s: int| tiling_of_screen(&layout, ctx, s);
    assert(tiling_of(&layout, ctx) == concat(ctx.screens.len() as int, piece));
    lemma_concat_contains(ctx.screens.len() as int, piece, c);
    if tiling_of(&layout, ctx).contains(c) {
        let s = choose|s: int| 0 <= s < ctx.screens.len() && (#[trigger] piece(s)).contains(c);
        assert(tiling_of_screen(&layout, ctx, s).contains(c));
    }
    if exists|s: int|
        0 <= s < ctx.screens.len() && (#[trigger] tiling_of_screen(&layout, ctx, s)).contains(c) {
        let s = choose|s: int|
            0 <= s < ctx.screens.len() && (#[trigger] tiling_of_screen(&layout, ctx, s)).contains(
                c,
            );
        assert(piece(s).contains(c));
    }
}

/// A dock takes no part in tiling: whatever the strategy and however many
/// tiled windows there are, no request of the tiling is about a window whose
/// record says that it is a dock.
pub proof fn lemma_dock_not_tiled(layout: LayoutKind, ctx: ContextView, dock: WindowId)
    requires
        ctx.wf(),
        ctx.finite(),
        ctx.windows.contains_key(dock),
        ctx.windows[dock].is_dock(),
    ensures
        forall|c: Command| #[trigger]
            tiling_of(&layout, ctx).contains(c) ==> c.target() != Some(dock),
{
    assert forall|c: Command| #[trigger] tiling_of(&layout, ctx).contains(c) implies c.target()
        != Some(dock) by {
        lemma_tiling_contains(layout, ctx, c);
        let s = choose|s: int|
            0 <= s < ctx.screens.len() && (#[trigger] tiling_of_screen(&layout, ctx, s)).contains(
                c,
            );
        let windows = normal_windows(ctx.screens[s].visible(), ctx.windows);
        lemma_arrange_targets(layout, ctx.screens[s], windows);
        lemma_normal_windows(ctx.screens[s].visible(), ctx.windows);
        let i = choose|i: int|
            0 <= i < windows.len() && c.target() == Some(#[trigger] windows[i].id);
        assert(windows[i].is_normal());
    }
}

/// A dock is put where it asked to be: the pass over the docks of the
/// workspace under the pointer raises each dock of that workspace, moves it
/// to the position that it asked for, if it asked for one, and gives it the
/// size that it asked for, if it asked for one.
pub proof fn lemma_dock_placed(ctx: ContextView, px: i16, py: i16, dock: WindowId)
    requires
        ctx.wf(),
        ctx.finite(),
        ctx.screens.len() > 0,
        ctx.focused(px, py).shows(dock),
        ctx.windows.contains_key(dock),
        ctx.windows[dock].is_dock(),
    ensures
        dock_pass(ctx, px, py).contains(Command::Raise { window: dock }),
        ctx.windows[dock].fixed_position matches Some(p) ==> dock_pass(ctx, px, py).contains(
            Command::Move { window: dock, x: p.x, y: p.y },
        ),
        ctx.windows[dock].fixed_size matches Some(size) ==> dock_pass(ctx, px, py).contains(
            Command::Resize { window: dock, width: size.x, height: size.y },
        ),
{
    lemma_first_screen_at(ctx.screens, px, py, 0);
    let visible = ctx.focused(px, py).visible();
    assert(ctx.screens[ctx.focused_index(px, py)].wf());
    assert(visible.finite());
    lemma_in_order(visible);
    let ids = in_order(visible);
    assert(ids.contains(dock));
    let i = choose|i: int| 0 <= i < ids.len() && ids[i] == dock;
    let piece = |k: int| dock_requests(ctx.windows, ids[k]);
    assert(dock_pass(ctx, px, py) == concat(ids.len() as int, piece));
    let record = ctx.windows[dock];
    let slot = dock_slot(dock, record);
    assert(piece(i) == slot);
    let raise = Command::Raise { window: dock };
    assert(slot[slot.len() - 1] == raise);
    assert(slot.contains(raise));
    lemma_concat_contains(ids.len() as int, piece, raise);
    match record.fixed_position {
        Some(p) => {
            let c = Command::Move { window: dock, x: p.x, y: p.y };
            assert(slot[0] == c);
            assert(slot.contains(c));
            lemma_concat_contains(ids.len() as int, piece, c);
        },
        None => {},
    }
    match record.fixed_size {
        Some(size) => {
            let c = Command::Resize { window: dock, width: size.x, height: size.y };
            assert(slot[slot.len() - 2] == c);
            assert(slot.contains(c));
            lemma_concat_contains(ids.len() as int, piece, c);
        },
        None => {},
    }
}

/// The search for a screen that shows a window ends on the first such
/// screen, or on -1 if no screen shows the window.
pub proof fn lemma_first_showing(ctx: ContextView, id: WindowId, from: int)
    requires
        0 <= from <= ctx.screens.len(),
    ensures
        ({
            let s = ctx.first_showing(id, from);
            if exists|k: int| from <= k < ctx.screens.len() && ctx.screens[k].shows(id) {
                &&& from <= s < ctx.screens.len()
                &&& ctx.screens[s].shows(id)
                &&& forall|k: int| from <= k < s ==> !ctx.screens[k].shows(id)
            } else {
                s == -1
            }
        }),
    decreases ctx.screens.len() - from,
{
    if from < ctx.screens.len() && !ctx.screens[from].shows(id) {
        lemma_first_showing(ctx, id, from + 1);
    }
}

/// The focus follows the pointer only onto windows that are shown: when the
/// pointer enters a window that no screen shows, nothing changes and nothing
/// is requested.
pub proof fn lemma_enter_hidden_window(state: TDAWmView, window: WindowId)
    requires
        forall|s: int| 0 <= s < state.ctx.screens.len() ==> !state.ctx.screens[s].shows(window),
    ensures
        state.entered(window).state == state,
        state.entered(window).requests == Seq::<Command>::empty(),
        state.step(Event::Enter { window }, 0, 0) == state.entered(window),
{
    lemma_first_showing(state.ctx, window, 0);
}

/// In a consistent state a window that belongs to a workspace which its
/// screen does not show is shown by no screen, so that the pointer entering
/// it changes no focus.
pub proof fn lemma_enter_window_of_hidden_workspace(
    state: TDAWmView,
    window: WindowId,
    s: int,
    w: int,
)
    requires
        state.wf(),
        state.ctx.consistent(),
        state.ctx.member(s, w, window),
        w != state.ctx.screens[s].current,
    ensures
        state.entered(window).state == state,
        state.entered(window).requests == Seq::<Command>::empty(),
{
    assert forall|k: int| 0 <= k < state.ctx.screens.len() implies !state.ctx.screens[k].shows(
        window,
    ) by {
        if state.ctx.screens[k].shows(window) {
            assert(state.ctx.screens[k].wf());
            assert(state.ctx.member(k, state.ctx.screens[k].current, window));
        }
    }
    lemma_enter_hidden_window(state, window);
}

/// An item occurs in two sequences put together exactly if it occurs in one
/// of them.
pub proof fn lemma_add_contains<A>(a: Seq<A>, b: Seq<A>, item: A)
    ensures
        (a + b).contains(item) <==> a.contains(item) || b.contains(item),
{
    if (a + b).contains(item) {
        let k = choose|k: int| 0 <= k < (a + b).len() && (a + b)[k] == item;
        if k < a.len() {
            assert(a[k] == item);
        } else {
            assert(b[k - a.len()] == item);
        }
    }
    if a.contains(item) {
        let k = choose|k: int| 0 <= k < a.len() && a[k] == item;
        assert((a + b)[k] == item);
    }
    if b.contains(item) {
        let k = choose|k: int| 0 <= k < b.len() && b[k] == item;
        assert((a + b)[a.len() + k] == item);
    }
}

/// A switch of workspace hides what was shown and brings up what is shown
/// next. When the screen under the pointer is told to show a workspace that
/// it has, every window of the workspace that it showed is hidden; the
/// screen shows the new workspace; no workspace gains or loses a member and
/// no record changes; and of the new workspace's windows that have a record,
/// each tiled one is shown by the tiling and each dock is raised.
pub proof fn lemma_switch_workspace(state: TDAWmView, index: int, px: i16, py: i16)
    requires
        state.wf(),
        state.ctx.finite(),
        0 <= index < state.ctx.focused(px, py).workspaces.len(),
    ensures
        ({
            let f = state.ctx.focused_index(px, py);
            let before = state.ctx.screens[f];
            let out = state.switched(index, px, py);
            let after = out.state.ctx.screens[f];
            &&& out.state.wf()
            &&& out.state.ctx.screens.len() == state.ctx.screens.len()
            &&& after.current == index
            &&& after.workspaces == before.workspaces
            &&& forall|s: int|
                0 <= s < state.ctx.screens.len() && s != f ==> out.state.ctx.screens[s]
                    == state.ctx.screens[s]
            &&& out.state.ctx.windows == state.ctx.windows
            &&& out.state.layout == state.layout
            &&& forall|id: WindowId| #[trigger]
                before.visible().contains(id) ==> out.requests.contains(
                    Command::Hide { window: id },
                )
            &&& forall|id: WindowId|
                before.workspaces[index].contains(id) && #[trigger] state.ctx.windows.contains_key(
                    id,
                ) ==> if state.ctx.windows[id].is_normal() {
                    out.requests.contains(Command::Show { window: id })
                } else {
                    out.requests.contains(Command::Raise { window: id })
                }
        }),
{
    lemma_first_screen_at(state.ctx.screens, px, py, 0);
    let f = state.ctx.focused_index(px, py);
    let before = state.ctx.screens[f];
    assert(before.wf() && before.fits());
    let out = state.switched(index, px, py);
    let next = out.state.ctx;
    let after = next.screens[f];
    lemma_focus_by_geometry(state.ctx.screens, next.screens, px, py, 0);
    assert(next.focused_index(px, py) == f);
    assert forall|s: int| 0 <= s < next.screens.len() implies (#[trigger] next.screens[s]).wf()
        && next.screens[s].fits() by {
        assert(state.ctx.screens[s].wf() && state.ctx.screens[s].fits());
    }
    assert(next.finite()) by {
        assert forall|s: int, w: int|
            0 <= s < next.screens.len() && 0 <= w < next.screens[s].workspaces.len() implies
            #[trigger] next.screens[s].workspaces[w].finite() by {
            assert(state.ctx.screens[s].workspaces[w].finite());
        }
    }
    let shown = in_order(before.visible());
    assert(before.visible().finite());
    lemma_in_order(before.visible());
    let hides = hide_all(shown);
    let notes = seq![Command::FocusRoot, Command::SetCurrentDesktop { index: index as usize }];
    let tiles = tiling_of(&out.state.layout, next);
    let docks = dock_pass(next, px, py);
    assert(out.requests == hides + notes + (tiles + docks));
    assert forall|id: WindowId| #[trigger] before.visible().contains(id) implies out.requests.contains(
        Command::Hide { window: id },
    ) by {
        let c = Command::Hide { window: id };
        assert(shown.contains(id));
        let i = choose|i: int| 0 <= i < shown.len() && shown[i] == id;
        assert(hides[i] == c);
        assert(hides.contains(c));
        lemma_add_contains(hides, notes, c);
        lemma_add_contains(hides + notes, tiles + docks, c);
    }
    assert forall|id: WindowId|
        before.workspaces[index].contains(id) && #[trigger] state.ctx.windows.contains_key(
            id,
        ) implies if state.ctx.windows[id].is_normal() {
        out.requests.contains(Command::Show { window: id })
    } else {
        out.requests.contains(Command::Raise { window: id })
    } by {
        let record = state.ctx.windows[id];
        assert(after.visible() == before.workspaces[index]);
        assert(after.visible().contains(id));
        if record.is_normal() {
            let c = Command::Show { window: id };
            let windows = normal_windows(after.visible(), next.windows);
            lemma_normal_windows(after.visible(), next.windows);
            assert(windows.contains(next.windows[id]));
            let i = choose|i: int| 0 <= i < windows.len() && windows[i] == record;
            lemma_arrange_targets(out.state.layout, after, windows);
            assert(windows[i].id == id);
            assert(tiling_of_screen(&out.state.layout, next, f).contains(c));
            lemma_tiling_contains(out.state.layout, next, c);
            assert(tiles.contains(c));
            lemma_add_contains(tiles, docks, c);
            lemma_add_contains(hides + notes, tiles + docks, c);
        } else {
            let c = Command::Raise { window: id };
            assert(record.is_dock());
            assert(next.focused(px, py).shows(id));
            lemma_dock_placed(next, px, py, id);
            lemma_add_contains(tiles, docks, c);
            lemma_add_contains(hides + notes, tiles + docks, c);
        }
    }
}

/// A layout pass changes nothing, so that a second pass over the same
/// windows requests exactly what the first one did.
pub proof fn lemma_layout_idempotent(state: TDAWmView, px: i16, py: i16)
    ensures
        ({
            let first = state.laid_out(px, py);
            let second = first.state.laid_out(px, py);
            &&& first.state == state
            &&& second.state == state
            &&& second.requests == first.requests
        }),
{
}

/// The tiling is a matter of the windows that are shown, and of nothing
/// else: two states whose screens have the same rectangles and show the same
/// windows, with the same records for those windows, are tiled by the same
/// requests, whatever else differs between them.
pub proof fn lemma_tiling_by_shown_windows(layout: LayoutKind, a: ContextView, b: ContextView)
    requires
        a.wf(),
        a.finite(),
        a.screens.len() == b.screens.len(),
        forall|s: int|
            0 <= s < a.screens.len() ==> {
                &&& a.screens[s].x == b.screens[s].x
                &&& a.screens[s].y == b.screens[s].y
                &&& a.screens[s].width == b.screens[s].width
                &&& a.screens[s].height == b.screens[s].height
                &&& #[trigger] a.screens[s].visible() == b.screens[s].visible()
            },
        forall|s: int, id: WindowId|
            0 <= s < a.screens.len() && #[trigger] a.screens[s].visible().contains(id) ==> {
                &&& a.windows.contains_key(id) == b.windows.contains_key(id)
                &&& a.windows.contains_key(id) ==> a.windows[id] == b.windows[id]
            },
    ensures
        tiling_of(&layout, a) == tiling_of(&layout, b),
{
    let n = a.screens.len();
    let fa = |s: int| tiling_of_screen(&layout, a, s);
    let fb = |s: int| tiling_of_screen(&layout, b, s);
    assert forall|s: int| 0 <= s < n implies #[trigger] fa(s) == fb(s) by {
        let sa = a.screens[s];
        let sb = b.screens[s];
        let shown = sa.visible();
        assert(sb.visible() == shown);
        let ta = tiled_ids(shown, a.windows);
        let tb = tiled_ids(shown, b.windows);
        assert(ta =~= tb);
        let keys = in_order(ta);
        let wa = normal_windows(shown, a.windows);
        let wb = normal_windows(shown, b.windows);
        assert(wa =~= wb) by {
            assert(wa.len() == wb.len());
            assert forall|i: int| 0 <= i < wa.len() implies wa[i] == wb[i] by {
                assert(sa.wf());
                assert(shown.finite());
                vstd::set_lib::lemma_len_subset(ta, shown);
                lemma_in_order(ta);
                assert(keys.contains(keys[i]));
                assert(ta.contains(keys[i]));
            }
        }
        lemma_arrange_by_geometry(layout, sa, sb, wa);
    }
    assert(Seq::new(n, fa) =~= Seq::new(n, fb));
}

/// How a strategy tiles a screen is a matter of the screen's rectangle and
/// of the windows handed to it.
pub proof fn lemma_arrange_by_geometry(
    layout: LayoutKind,
    a: ScreenView,
    b: ScreenView,
    windows: Seq<Window>,
)
    requires
        a.x == b.x,
        a.y == b.y,
        a.width == b.width,
        a.height == b.height,
    ensures
        layout.arrange(a, windows) == layout.arrange(b, windows),
{
    let n = windows.len();
    match layout {
        LayoutKind::Horizontal(_) => {
            let fa = |i: int| column(a, windows, i);
            let fb = |i: int| column(b, windows, i);
            assert(Seq::new(n, fa) =~= Seq::new(n, fb));
        },
        LayoutKind::Vertical(_) => {
            let fa = |i: int| row(a, windows, i);
            let fb = |i: int| row(b, windows, i);
            assert(Seq::new(n, fa) =~= Seq::new(n, fb));
        },
        LayoutKind::MasterStack(l) => {
            let fa = |i: int| stack_slot(a, windows, l.master, i);
            let fb = |i: int| stack_slot(b, windows, l.master, i);
            assert(Seq::new(n, fa) =~= Seq::new(n, fb));
        },
    }
}

/// Every event leaves the state well formed.
pub proof fn lemma_step_wf(state: TDAWmView, event: Event, px: i16, py: i16)
    requires
        state.wf(),
    ensures
        state.step(event, px, py).state.wf(),
        state.step(event, px, py).state.ctx.screens.len() == state.ctx.screens.len(),
{
    let ctx = state.ctx;
    let next = state.step(event, px, py).state.ctx;
    lemma_first_screen_at(ctx.screens, px, py, 0);
    let f = ctx.focused_index(px, py);
    assert(ctx.screens[f].wf() && ctx.screens[f].fits());
    match event {
        Event::Enter { window } => {
            lemma_first_showing(ctx, window, 0);
        },
        _ => {},
    }
    assert(next.screens.len() == ctx.screens.len());
    assert forall|s: int| 0 <= s < next.screens.len() implies (#[trigger] next.screens[s]).wf()
        && next.screens[s].fits() by {
        assert(ctx.screens[s].wf() && ctx.screens[s].fits());
    }
    assert(filed_by_id(next.windows)) by {
        assert forall|id: WindowId| #[trigger] next.windows.contains_key(id) implies next.windows[id].id
            == id by {
            if ctx.windows.contains_key(id) {
                assert(ctx.windows[id].id == id);
            }
        }
    }
}

/// The state stays consistent whatever happens: where every window that
/// belongs to a workspace has a record, every record belongs to a window of
/// some workspace, and no window belongs to two workspaces, the same holds
/// after any event.
pub proof fn lemma_step_consistent(state: TDAWmView, event: Event, px: i16, py: i16)
    requires
        state.wf(),
        state.ctx.consistent(),
    ensures
        state.step(event, px, py).state.ctx.consistent(),
{
    let ctx = state.ctx;
    let next = state.step(event, px, py).state.ctx;
    lemma_first_screen_at(ctx.screens, px, py, 0);
    let f = ctx.focused_index(px, py);
    assert(ctx.screens[f].wf());
    let cur = ctx.screens[f].current;
    match event {
        Event::MapRequest { window, window_type } => {
            assert forall|s: int, w: int, id: WindowId| #[trigger]
                next.member(s, w, id) <==> (ctx.member(s, w, id) && id != window) || (s == f && w
                    == cur && id == window) by {
                if 0 <= s < ctx.screens.len() {
                    assert(ctx.cleared(window).screens[s] == ctx.screens[s].without(window));
                }
            }
            lemma_consistent_after(ctx, next, window, true, f, cur);
        },
        Event::Destroyed { window } => {
            assert forall|s: int, w: int, id: WindowId| #[trigger]
                next.member(s, w, id) <==> ctx.member(s, w, id) && id != window by {}
            lemma_consistent_after(ctx, next, window, false, f, cur);
        },
        Event::Enter { window } => {
            lemma_first_showing(ctx, window, 0);
            lemma_consistent_same_members(ctx, next);
        },
        Event::KeyPress { keycode } => {
            lemma_consistent_same_members(ctx, next);
        },
        Event::PropertyChanged { window, window_type } => {
            lemma_consistent_same_members(ctx, next);
        },
        Event::ConfigureRequest { window, x, y, width, height } => {
            lemma_consistent_same_members(ctx, next);
        },
        _ => {},
    }
}

/// A window that asks to be shown belongs to one workspace afterwards, the
/// one that the screen under the pointer shows, wherever it was a member
/// before, and it has a record. The other windows stay where they were.
pub proof fn lemma_registered_in_one_workspace(
    state: TDAWmView,
    window: WindowId,
    window_type: WindowType,
    px: i16,
    py: i16,
)
    requires
        state.wf(),
    ensures
        ({
            let f = state.ctx.focused_index(px, py);
            let next = state.registered(window, window_type, px, py).state.ctx;
            &&& next.windows.contains_key(window)
            &&& next.windows[window] == (Window {
                id: window,
                fixed_position: None,
                fixed_size: None,
                window_type,
            })
            &&& forall|s: int, w: int| #[trigger]
                next.member(s, w, window) <==> s == f && w == state.ctx.screens[f].current
            &&& forall|s: int, w: int, id: WindowId|
                id != window ==> (#[trigger] next.member(s, w, id) <==> state.ctx.member(s, w, id))
        }),
{
    let ctx = state.ctx;
    let next = state.registered(window, window_type, px, py).state.ctx;
    lemma_first_screen_at(ctx.screens, px, py, 0);
    let f = ctx.focused_index(px, py);
    assert(ctx.screens[f].wf());
    assert forall|s: int, w: int, id: WindowId| #[trigger]
        next.member(s, w, id) <==> (ctx.member(s, w, id) && id != window) || (s == f && w
            == ctx.screens[f].current && id == window) by {
        if 0 <= s < ctx.screens.len() {
            assert(ctx.cleared(window).screens[s] == ctx.screens[s].without(window));
        }
    }
}

/// A state with the same members in every workspace and records for the same
/// windows is consistent if the other is.
pub proof fn lemma_consistent_same_members(before: ContextView, after: ContextView)
    requires
        before.consistent(),
        forall|s: int, w: int, id: WindowId| #[trigger]
            after.member(s, w, id) <==> before.member(s, w, id),
        forall|id: WindowId| #[trigger]
            after.windows.contains_key(id) <==> before.windows.contains_key(id),
    ensures
        after.consistent(),
{
    assert forall|id: WindowId| after.placed(id) <==> #[trigger] after.windows.contains_key(
        id,
    ) by {
        if after.placed(id) {
            let (s, w) = choose|s: int, w: int| after.member(s, w, id);
            assert(before.member(s, w, id));
            assert(before.placed(id));
        }
        if after.windows.contains_key(id) {
            assert(before.placed(id));
            let (s, w) = choose|s: int, w: int| before.member(s, w, id);
            assert(after.member(s, w, id));
        }
    }
    assert forall|s1: int, w1: int, s2: int, w2: int, id: WindowId| #[trigger]
        after.member(s1, w1, id) && #[trigger] after.member(s2, w2, id) implies s1 == s2 && w1
        == w2 by {
        assert(before.member(s1, w1, id) && before.member(s2, w2, id));
    }
}

/// A consistent state stays consistent when one window gets a record and
/// becomes a member of workspace `w0` of screen `s0` and of no other, and
/// when one window loses its record and leaves every workspace.
pub proof fn lemma_consistent_after(
    before: ContextView,
    after: ContextView,
    window: WindowId,
    added: bool,
    s0: int,
    w0: int,
)
    requires
        before.consistent(),
        added ==> {
            &&& forall|s: int, w: int, id: WindowId| #[trigger]
                after.member(s, w, id) <==> (before.member(s, w, id) && id != window) || (s == s0
                    && w == w0 && id == window)
            &&& forall|id: WindowId| #[trigger]
                after.windows.contains_key(id) <==> before.windows.contains_key(id) || id
                    == window
        },
        !added ==> {
            &&& forall|s: int, w: int, id: WindowId| #[trigger]
                after.member(s, w, id) <==> before.member(s, w, id) && id != window
            &&& forall|id: WindowId| #[trigger]
                after.windows.contains_key(id) <==> before.windows.contains_key(id) && id
                    != window
        },
    ensures
        after.consistent(),
{
    assert forall|id: WindowId| after.placed(id) <==> #[trigger] after.windows.contains_key(
        id,
    ) by {
        if after.placed(id) {
            let (s, w) = choose|s: int, w: int| after.member(s, w, id);
            if before.member(s, w, id) {
                assert(before.placed(id));
            }
        }
        if after.windows.contains_key(id) {
            if added && id == window {
                assert(after.member(s0, w0, id));
            } else {
                assert(before.placed(id));
                let (s, w) = choose|s: int, w: int| before.member(s, w, id);
                assert(after.member(s, w, id));
            }
        }
    }
    assert forall|s1: int, w1: int, s2: int, w2: int, id: WindowId| #[trigger]
        after.member(s1, w1, id) && #[trigger] after.member(s2, w2, id) implies s1 == s2 && w1
        == w2 by {
        if id != window {
            assert(before.member(s1, w1, id) && before.member(s2, w2, id));
        }
    }
}

/// A state without windows is consistent.
pub proof fn lemma_empty_consistent(ctx: ContextView)
    requires
        ctx.windows == Map::<WindowId, Window>::empty(),
        forall|s: int, w: int|
            0 <= s < ctx.screens.len() && 0 <= w < ctx.screens[s].workspaces.len()
                ==> #[trigger] ctx.screens[s].workspaces[w] == Set::<WindowId>::empty(),
    ensures
        ctx.consistent(),
{
    assert forall|id: WindowId| ctx.placed(id) <==> #[trigger] ctx.windows.contains_key(id) by {
        if ctx.placed(id) {
            let (s, w) = choose|s: int, w: int| ctx.member(s, w, id);
            assert(ctx.screens[s].workspaces[w] == Set::<WindowId>::empty());
        }
    }
    assert forall|s1: int, w1: int, s2: int, w2: int, id: WindowId| #[trigger]
        ctx.member(s1, w1, id) && #[trigger] ctx.member(s2, w2, id) implies s1 == s2 && w1
        == w2 by {
        assert(ctx.screens[s1].workspaces[w1] == Set::<WindowId>::empty());
    }
}

/// Consistency is an invariant of a run: from a consistent state, any run
/// ends in a consistent state.
pub proof fn lemma_run_consistent(state: TDAWmView, inputs: Seq<(Event, (i16, i16))>, n: int)
    requires
        state.wf(),
        state.ctx.consistent(),
        0 <= n <= inputs.len(),
    ensures
        state.run_upto(inputs, n).state.wf(),
        state.run_upto(inputs, n).state.ctx.consistent(),
    decreases n,
{
    if n > 0 {
        lemma_run_consistent(state, inputs, n - 1);
        let before = state.run_upto(inputs, n - 1).state;
        let input = inputs[n - 1];
        lemma_step_wf(before, input.0, input.1.0, input.1.1);
        lemma_step_consistent(before, input.0, input.1.0, input.1.1);
    }
}

} // verus!
