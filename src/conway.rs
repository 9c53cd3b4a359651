use vstd::prelude::*;
use crate::universe::{Grid, Universe};

verus! {

/// Width of the page's grid, in cells.
pub const GRID_WIDTH: usize = 53;

/// Height of the page's grid, in cells.
pub const GRID_HEIGHT: usize = 40;

/// A request to the Game of Life page.
#[derive(Clone, Copy, Debug)]
pub enum Msg {
    /// Let the timer advance the grid.
    Start,
    /// Stop advancing the grid.
    Stop,
    /// Restore the seed pattern.
    Reset,
    /// Flip the cell at column `x`, row `y`, given as `(x, y)`.
    ToggleCell((usize, usize)),
    /// One beat of the timer.
    Tick,
}

/// The state behind the Game of Life page: the grid and whether the timer
/// may advance it.
pub struct Conway {
    universe: Universe,
    active: bool,
}

impl Conway {
    /// The grid's model.
    pub closed spec fn grid(&self) -> Grid {
        self.universe@
    }

    /// Whether ticks advance the grid.
    pub closed spec fn running(&self) -> bool {
        self.active
    }

    /// Whether a message may be handled: a toggle must name a cell inside
    /// the grid.
    pub open spec fn accepts(&self, msg: Msg) -> bool {
        match msg {
            Msg::ToggleCell((x, y)) => x < self.grid().width && y < self.grid().height,
            _ => true,
        }
    }

    /// A stopped page over the seed pattern.
    pub fn new() -> (r: Conway)
        ensures
            r.grid() == Grid::seed(GRID_WIDTH as nat, GRID_HEIGHT as nat),
            r.grid().wf(),
            !r.running(),
    {
        Conway { universe: Universe::new(GRID_WIDTH, GRID_HEIGHT), active: false }
    }

    /// The grid.
    pub fn universe(&self) -> (r: &Universe)
        ensures
            r@ == self.grid(),
    {
        &self.universe
    }

    /// Whether ticks advance the grid.
    pub fn is_active(&self) -> (r: bool)
        ensures
            r == self.running(),
    {
        self.active
    }

    /// Handles one message; the result says whether the grid changed and
    /// should be drawn again.
    pub fn update(&mut self, msg: Msg) -> (redraw: bool)
        requires
            old(self).grid().wf(),
            old(self).accepts(msg),
        ensures
            final(self).grid().wf(),
            match msg {
                Msg::Start => {
                    &&& final(self).running()
                    &&& final(self).grid() == old(self).grid()
                    &&& !redraw
                },
                Msg::Stop => {
                    &&& !final(self).running()
                    &&& final(self).grid() == old(self).grid()
                    &&& !redraw
                },
                Msg::Reset => {
                    &&& final(self).running() == old(self).running()
                    &&& final(self).grid() == Grid::seed(
                        old(self).grid().width,
                        old(self).grid().height,
                    )
                    &&& redraw
                },
                Msg::ToggleCell((x, y)) => {
                    &&& final(self).running() == old(self).running()
                    &&& final(self).grid() == old(self).grid().toggled(y as int, x as int)
                    &&& redraw
                },
                Msg::Tick => {
                    &&& final(self).running() == old(self).running()
                    &&& old(self).running() ==> final(self).grid() == old(self).grid().next()
                    &&& !old(self).running() ==> final(self).grid() == old(self).grid()
                    &&& redraw == old(self).running()
                },
            },
    {
        match msg {
            Msg::Start => {
                self.active = true;
                false
            },
            Msg::Stop => {
                self.active = false;
                false
            },
            Msg::Reset => {
                self.universe.reset();
                true
            },
            Msg::ToggleCell((x, y)) => {
                self.universe.toggle_cell(y, x);
                true
            },
            Msg::Tick => {
                if self.active {
                    self.universe.tick();
                    true
                } else {
                    false
                }
            },
        }
    }
}

} // verus!
