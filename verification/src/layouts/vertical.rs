use vstd::prelude::*;
use crate::command::{place, push_place, Command};
use crate::context::Context;
use crate::layouts::horizontal::lemma_column_inside;
use crate::layouts::{tile_screens, Layout, Tiling};
use crate::screen::{Screen, ScreenView};
use crate::tdawm::TDAWmError;
use crate::window::{Window, WindowId};

verus! {

broadcast use Seq::lemma_flatten_push;

/// Tiles a screen in rows of equal height and full width, one for each
/// window, from top to bottom by ascending identifier.
#[derive(Debug, Clone, Copy, PartialEq, Eq, Structural)]
pub struct VerticalLayout;

/// Height of one of `n` equal rows of the screen. What is left of the height
/// after the division stays free at the bottom edge.
pub open spec fn row_height(screen: ScreenView, n: int) -> int {
    if n > 0 {
        screen.height as int / n
    } else {
        0
    }
}

/// The requests that put window `i` of `windows` into its row.
pub open spec fn row(screen: ScreenView, windows: Seq<Window>, i: int) -> Seq<Command> {
    let height = row_height(screen, windows.len() as int);
    place(windows[i].id, screen.x as int, screen.y + height * i, screen.width as int, height)
}

/// The requests that put the first `n` windows into their rows.
pub open spec fn rows_upto(screen: ScreenView, windows: Seq<Window>, n: int) -> Seq<Command> {
    Seq::new(n as nat, |i: int| row(screen, windows, i)).flatten()
}

/// The requests that tile a screen in rows.
pub open spec fn rows(screen: ScreenView, windows: Seq<Window>) -> Seq<Command> {
    rows_upto(screen, windows, windows.len() as int)
}

impl VerticalLayout {
    /// The strategy.
    pub fn init() -> (layout: VerticalLayout)
        ensures
            layout == VerticalLayout,
    {
        VerticalLayout {  }
    }
}

impl Tiling for VerticalLayout {
    open spec fn arrange(&self, screen: ScreenView, windows: Seq<Window>) -> Seq<Command> {
        rows(screen, windows)
    }

    fn tile(&self, screen: &Screen, windows: &Vec<Window>) -> (requests: Vec<Command>) {
        let mut requests: Vec<Command> = Vec::new();
        let n = windows.len();
        if n == 0 {
            return requests;
        }
        let height: u64 = screen.height as u64 / n as u64;
        let mut i: usize = 0;
        while i < n
            invariant
                0 <= i <= n,
                n == windows@.len(),
                n > 0,
                screen@.fits(),
                height == row_height(screen@, n as int),
                requests@ == rows_upto(screen@, windows@, i as int),
            decreases n - i,
        {
            proof {
                lemma_column_inside(screen.height as int, n as int, i as int);
                let f = |k: int| row(screen@, windows@, k);
                assert(Seq::new((i + 1) as nat, f) =~= Seq::new(i as nat, f).push(f(i as int)));
            }
            assert(height * i <= screen.height);
            let offset: u64 = height * (i as u64);
            let y: i64 = screen.y as i64 + offset as i64;
            push_place(
                &mut requests,
                windows[i].id,
                screen.x as i32,
                y as i32,
                screen.width,
                height as u32,
            );
            i += 1;
        }
        requests
    }
}

impl Layout for VerticalLayout {
    open spec fn name(&self) -> Seq<char> {
        "vertical"@
    }

    open spec fn with_master(&self, window: WindowId) -> VerticalLayout {
        *self
    }

    fn id(&self) -> (name: String) {
        "vertical".to_owned()
    }

    fn layout(&self, ctx: &Context) -> (requests: Result<Vec<Command>, TDAWmError>) {
        tile_screens(self, ctx)
    }

    fn set_master(&mut self, window: WindowId) {
    }
}

} // verus!
