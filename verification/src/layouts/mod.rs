use vstd::prelude::*;
use crate::command::Command;
use crate::context::{Context, ContextView};
use crate::screen::{Screen, ScreenView};
use crate::tdawm::TDAWmError;
use crate::window::{Window, WindowId};
use crate::workspace::normal_windows;

pub mod dwm;
pub mod horizontal;
pub mod kind;
pub mod vertical;

pub use dwm::DWMLayout;
pub use horizontal::HorizontalLayout;
pub use kind::LayoutKind;
pub use vertical::VerticalLayout;

verus! {

broadcast use Seq::lemma_flatten_push;

/// A way to divide one screen among the tiled windows of the workspace that
/// it shows.
pub trait Tiling: Sized {
    /// The requests that tile one screen, given the tiled windows of its
    /// shown workspace by ascending identifier.
    spec fn arrange(&self, screen: ScreenView, windows: Seq<Window>) -> Seq<Command>;

    /// The requests that tile one screen.
    fn tile(&self, screen: &Screen, windows: &Vec<Window>) -> (requests: Vec<Command>)
        requires
            screen@.fits(),
        ensures
            requests@ == self.arrange(screen@, windows@),
    ;
}

/// The requests with which `tiling` tiles screen `s`.
pub open spec fn tiling_of_screen<T: Tiling>(tiling: &T, ctx: ContextView, s: int) -> Seq<Command> {
    tiling.arrange(ctx.screens[s], normal_windows(ctx.screens[s].visible(), ctx.windows))
}

/// The requests with which `tiling` tiles the first `n` screens.
pub open spec fn tiling_upto<T: Tiling>(tiling: &T, ctx: ContextView, n: int) -> Seq<Command> {
    Seq::new(n as nat, |s: int| tiling_of_screen(tiling, ctx, s)).flatten()
}

/// The requests with which `tiling` tiles every screen, screen after screen.
pub open spec fn tiling_of<T: Tiling>(tiling: &T, ctx: ContextView) -> Seq<Command> {
    tiling_upto(tiling, ctx, ctx.screens.len() as int)
}

/// A tiling strategy for the whole display.
pub trait Layout: Tiling {
    /// The key that names the strategy.
    spec fn name(&self) -> Seq<char>;

    /// The strategy after `window` was proposed as its master window.
    spec fn with_master(&self, window: WindowId) -> Self;

    /// The key that names the strategy.
    fn id(&self) -> (name: String)
        ensures
            name@ == self.name(),
    ;

    /// The requests that tile every screen, screen after screen. A screen
    /// whose shown workspace has no tiled window gets none. Without any screen
    /// there is nothing to lay out on, which is an error.
    fn layout(&self, ctx: &Context) -> (requests: Result<Vec<Command>, TDAWmError>)
        requires
            ctx@.tileable(),
        ensures
            ctx@.screens.len() == 0 ==> requests == Err::<Vec<Command>, TDAWmError>(
                TDAWmError::NoScreenFound,
            ),
            ctx@.screens.len() > 0 ==> requests is Ok && requests->Ok_0@ == tiling_of(self, ctx@),
    ;

    /// Proposes `window` as the master window. A strategy without a master
    /// window takes no notice.
    fn set_master(&mut self, window: WindowId)
        ensures
            *final(self) == old(self).with_master(window),
    ;
}

/// Tiles every screen with `tiling`.
pub fn tile_screens<T: Tiling>(tiling: &T, ctx: &Context) -> (requests: Result<
    Vec<Command>,
    TDAWmError,
>)
    requires
        ctx@.tileable(),
    ensures
        ctx@.screens.len() == 0 ==> requests == Err::<Vec<Command>, TDAWmError>(
            TDAWmError::NoScreenFound,
        ),
        ctx@.screens.len() > 0 ==> requests is Ok && requests->Ok_0@ == tiling_of(tiling, ctx@),
{
    if ctx.screens.len() == 0 {
        return Err(TDAWmError::NoScreenFound);
    }
    let mut requests: Vec<Command> = Vec::new();
    let mut s: usize = 0;
    while s < ctx.screens.len()
        invariant
            0 <= s <= ctx.screens.len(),
            ctx@.tileable(),
            requests@ == tiling_upto(tiling, ctx@, s as int),
        decreases ctx.screens.len() - s,
    {
        let screen = &ctx.screens[s];
        assert(screen@ == ctx@.screens[s as int]);
        let windows = screen.current_workspace().iter_normal_windows(&ctx.windows_by_id);
        let mut tiles = tiling.tile(screen, &windows);
        proof {
            let f = |k: int| tiling_of_screen(tiling, ctx@, k);
            assert(Seq::new((s + 1) as nat, f) =~= Seq::new(s as nat, f).push(f(s as int)));
        }
        requests.append(&mut tiles);
        s += 1;
    }
    Ok(requests)
}

} // verus!
