use vstd::prelude::*;
use crate::command::{place, push_place, Command};
use crate::context::Context;
use crate::layouts::{tile_screens, Layout, Tiling};
use crate::screen::{Screen, ScreenView};
use crate::tdawm::TDAWmError;
use crate::window::{Window, WindowId};

verus! {

broadcast use Seq::lemma_flatten_push;

/// Tiles a screen in columns of equal width and full height, one for each
/// window, from left to right by ascending identifier.
#[derive(Debug, Clone, Copy, PartialEq, Eq, Structural)]
pub struct HorizontalLayout;

/// Width of one of `n` equal columns of the screen. What is left of the width
/// after the division stays free at the right edge.
pub open spec fn column_width(screen: ScreenView, n: int) -> int {
    if n > 0 {
        screen.width as int / n
    } else {
        0
    }
}

/// The requests that put window `i` of `windows` into its column.
pub open spec fn column(screen: ScreenView, windows: Seq<Window>, i: int) -> Seq<Command> {
    let width = column_width(screen, windows.len() as int);
    place(windows[i].id, screen.x + width * i, screen.y as int, width, screen.height as int)
}

/// The requests that put the first `n` windows into their columns.
pub open spec fn columns_upto(screen: ScreenView, windows: Seq<Window>, n: int) -> Seq<Command> {
    Seq::new(n as nat, |i: int| column(screen, windows, i)).flatten()
}

/// The requests that tile a screen in columns.
pub open spec fn columns(screen: ScreenView, windows: Seq<Window>) -> Seq<Command> {
    columns_upto(screen, windows, windows.len() as int)
}

/// The columns lie side by side inside the screen.
pub proof fn lemma_column_inside(width: int, n: int, i: int)
    requires
        0 <= i < n,
        0 <= width,
    ensures
        0 <= (width / n) * i,
        (width / n) * i + (width / n) <= width,
        (width / n) * n <= width,
        0 <= width / n <= width,
{
    assert(0 <= width / n <= width && (width / n) * n <= width) by (nonlinear_arith)
        requires
            0 < n,
            0 <= width,
    ;
    assert(0 <= (width / n) * i && (width / n) * i + (width / n) <= (width / n) * n)
        by (nonlinear_arith)
        requires
            0 <= i < n,
            0 <= width / n,
    ;
}

impl HorizontalLayout {
    /// The strategy.
    pub fn init() -> (layout: HorizontalLayout)
        ensures
            layout == HorizontalLayout,
    {
        HorizontalLayout {  }
    }
}

impl Tiling for HorizontalLayout {
    open spec fn arrange(&self, screen: ScreenView, windows: Seq<Window>) -> Seq<Command> {
        columns(screen, windows)
    }

    fn tile(&self, screen: &Screen, windows: &Vec<Window>) -> (requests: Vec<Command>) {
        let mut requests: Vec<Command> = Vec::new();
        let n = windows.len();
        if n == 0 {
            return requests;
        }
        let width: u64 = screen.width as u64 / n as u64;
        let mut i: usize = 0;
        while i < n
            invariant
                0 <= i <= n,
                n == windows@.len(),
                n > 0,
                screen@.fits(),
                width == column_width(screen@, n as int),
                requests@ == columns_upto(screen@, windows@, i as int),
            decreases n - i,
        {
            proof {
                lemma_column_inside(screen.width as int, n as int, i as int);
                let f = |k: int| column(screen@, windows@, k);
                assert(Seq::new((i + 1) as nat, f) =~= Seq::new(i as nat, f).push(f(i as int)));
            }
            assert(width * i <= screen.width);
            let offset: u64 = width * (i as u64);
            let x: i64 = screen.x as i64 + offset as i64;
            push_place(
                &mut requests,
                windows[i].id,
                x as i32,
                screen.y as i32,
                width as u32,
                screen.height,
            );
            i += 1;
        }
        requests
    }
}

impl Layout for HorizontalLayout {
    open spec fn name(&self) -> Seq<char> {
        "horizontal"@
    }

    open spec fn with_master(&self, window: WindowId) -> HorizontalLayout {
        *self
    }

    fn id(&self) -> (name: String) {
        "horizontal".to_owned()
    }

    fn layout(&self, ctx: &Context) -> (requests: Result<Vec<Command>, TDAWmError>) {
        tile_screens(self, ctx)
    }

    fn set_master(&mut self, window: WindowId) {
    }
}

} // verus!
