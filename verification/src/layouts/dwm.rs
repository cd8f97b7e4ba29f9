use vstd::prelude::*;
use crate::command::{place, push_place, Command};
use crate::context::Context;
use crate::layouts::horizontal::lemma_column_inside;
use crate::layouts::{tile_screens, Layout, Tiling};
use crate::screen::{Screen, ScreenView};
use crate::tdawm::TDAWmError;
use crate::window::{Window, WindowId};

verus! {

broadcast use Seq::lemma_flatten_push;

/// Gives the left half of a screen to one window, the master, and stacks the
/// other windows in the right half, from top to bottom by ascending
/// identifier. A window that is alone on its screen fills it.
#[derive(Debug, Clone, Copy, PartialEq, Eq, Structural)]
pub struct DWMLayout {
    /// The window that was proposed as the master last, or 0.
    pub master: WindowId,
}

/// How many of the first `n` windows are not the master.
pub open spec fn stacked_before(windows: Seq<Window>, master: WindowId, n: int) -> int
    decreases n,
{
    if n <= 0 {
        0
    } else if windows[n - 1].id != master {
        stacked_before(windows, master, n - 1) + 1
    } else {
        stacked_before(windows, master, n - 1)
    }
}

/// How many windows are stacked in the right half.
pub open spec fn stacked(windows: Seq<Window>, master: WindowId) -> int {
    stacked_before(windows, master, windows.len() as int)
}

/// Height of one slice of the stack: the stacked windows divide the height
/// of the screen evenly.
pub open spec fn slice_height(screen: ScreenView, windows: Seq<Window>, master: WindowId) -> int {
    if stacked(windows, master) > 0 {
        screen.height as int / stacked(windows, master)
    } else {
        0
    }
}

/// The requests that put window `i` of two or more windows in place.
pub open spec fn stack_slot(
    screen: ScreenView,
    windows: Seq<Window>,
    master: WindowId,
    i: int,
) -> Seq<Command> {
    let half = screen.width as int / 2;
    let slice = slice_height(screen, windows, master);
    if windows[i].id == master {
        place(windows[i].id, screen.x as int, screen.y as int, half, screen.height as int)
    } else {
        place(
            windows[i].id,
            screen.x + half,
            screen.y + slice * stacked_before(windows, master, i),
            half,
            slice,
        )
    }
}

/// The requests that put the first `n` of two or more windows in place.
pub open spec fn stack_upto(
    screen: ScreenView,
    windows: Seq<Window>,
    master: WindowId,
    n: int,
) -> Seq<Command> {
    Seq::new(n as nat, |i: int| stack_slot(screen, windows, master, i)).flatten()
}

/// The requests that tile a screen as master and stack.
pub open spec fn master_stack(screen: ScreenView, windows: Seq<Window>, master: WindowId) -> Seq<
    Command,
> {
    if windows.len() == 1 {
        place(
            windows[0].id,
            screen.x as int,
            screen.y as int,
            screen.width as int,
            screen.height as int,
        )
    } else {
        stack_upto(screen, windows, master, windows.len() as int)
    }
}

/// Among the first `i` windows at most `i` are stacked.
pub proof fn lemma_stacked_bounds(windows: Seq<Window>, master: WindowId, i: int)
    requires
        0 <= i,
    ensures
        0 <= stacked_before(windows, master, i) <= i,
    decreases i,
{
    if i > 0 {
        lemma_stacked_bounds(windows, master, i - 1);
    }
}

/// The count of stacked windows grows with the prefix, and grows by one
/// where the window after the prefix is stacked.
pub proof fn lemma_stacked_before(windows: Seq<Window>, master: WindowId, i: int, n: int)
    requires
        0 <= i <= n,
    ensures
        stacked_before(windows, master, i) <= stacked_before(windows, master, n),
        i < n && windows[i].id != master ==> stacked_before(windows, master, i) < stacked_before(
            windows,
            master,
            n,
        ),
    decreases n - i,
{
    if i < n {
        lemma_stacked_before(windows, master, i + 1, n);
    }
}

impl DWMLayout {
    /// The strategy, with no window for a master yet.
    pub fn init() -> (layout: DWMLayout)
        ensures
            layout.master == 0,
    {
        DWMLayout { master: 0 }
    }
}

impl Tiling for DWMLayout {
    open spec fn arrange(&self, screen: ScreenView, windows: Seq<Window>) -> Seq<Command> {
        master_stack(screen, windows, self.master)
    }

    fn tile(&self, screen: &Screen, windows: &Vec<Window>) -> (requests: Vec<Command>) {
        let mut requests: Vec<Command> = Vec::new();
        let n = windows.len();
        if n == 1 {
            push_place(
                &mut requests,
                windows[0].id,
                screen.x as i32,
                screen.y as i32,
                screen.width,
                screen.height,
            );
            return requests;
        }
        let mut others: usize = 0;
        let mut k: usize = 0;
        while k < n
            invariant
                0 <= k <= n,
                n == windows@.len(),
                others == stacked_before(windows@, self.master, k as int),
                others <= k,
            decreases n - k,
        {
            if windows[k].id != self.master {
                others += 1;
            }
            k += 1;
        }
        let half: u32 = screen.width / 2;
        let slice: u64 = if others > 0 {
            screen.height as u64 / others as u64
        } else {
            0
        };
        let mut rank: usize = 0;
        let mut i: usize = 0;
        while i < n
            invariant
                0 <= i <= n,
                n == windows@.len(),
                screen@.fits(),
                others == stacked(windows@, self.master),
                half == screen.width / 2,
                slice == slice_height(screen@, windows@, self.master),
                rank == stacked_before(windows@, self.master, i as int),
                requests@ == stack_upto(screen@, windows@, self.master, i as int),
            decreases n - i,
        {
            proof {
                lemma_stacked_bounds(windows@, self.master, i as int);
                lemma_stacked_before(windows@, self.master, i as int, n as int);
                let f = |k: int| stack_slot(screen@, windows@, self.master, k);
                assert(Seq::new((i + 1) as nat, f) =~= Seq::new(i as nat, f).push(f(i as int)));
            }
            let window = windows[i].id;
            if window != self.master {
                proof {
                    lemma_column_inside(screen.height as int, others as int, rank as int);
                }
                assert(slice * rank <= screen.height);
                let offset: u64 = slice * (rank as u64);
                let x: i64 = screen.x as i64 + half as i64;
                let y: i64 = screen.y as i64 + offset as i64;
                push_place(&mut requests, window, x as i32, y as i32, half, slice as u32);
                rank += 1;
            } else {
                push_place(
                    &mut requests,
                    window,
                    screen.x as i32,
                    screen.y as i32,
                    half,
                    screen.height,
                );
            }
            i += 1;
        }
        requests
    }
}

impl Layout for DWMLayout {
    open spec fn name(&self) -> Seq<char> {
        "dwm"@
    }

    open spec fn with_master(&self, window: WindowId) -> DWMLayout {
        DWMLayout { master: window }
    }

    fn id(&self) -> (name: String) {
        "dwm".to_owned()
    }

    fn layout(&self, ctx: &Context) -> (requests: Result<Vec<Command>, TDAWmError>) {
        tile_screens(self, ctx)
    }

    fn set_master(&mut self, window: WindowId) {
        self.master = window;
    }
}

} // verus!
