use crate::cell_array::{array_cells, array_cols, is_binary, rows_view, CellArray};
use crate::life_api::{lemma_small_board_fits, Board, Generation};
use vstd::prelude::*;

verus! {

/// A cell of the grid as the screen addresses it: column, then row.
pub type GridPosition = (usize, usize);

/// A mouse button, as far as the game tells buttons apart.
#[derive(Clone, Copy, Debug, PartialEq, Eq, Structural)]
pub enum MouseButton {
    Left,
    Right,
    Other,
}

/// A key, as far as the game tells keys apart.
#[derive(Clone, Copy, Debug, PartialEq, Eq, Structural)]
pub enum KeyCode {
    Space,
    Escape,
    Other,
}

/// What a game state stands for.
pub struct GameView {
    /// Generations do not advance while this holds.
    pub is_paused: bool,
    /// The button that is held down and edits the cells under the pointer.
    pub pressing_click: Option<MouseButton>,
    /// The current generation.
    pub grid: Generation,
}

/// The state of a game: the board, whether it is paused, and the mouse
/// button that is being held down.
pub struct GameState {
    is_paused: bool,
    pressing_click: Option<MouseButton>,
    grid: Board,
}

/// The cells that a new game starts from.
pub open spec fn initial_cells() -> Seq<Seq<u8>> {
    seq![
        seq![1u8, 1, 0, 0, 0, 1, 1, 1, 0, 1],
        seq![1u8, 1, 0, 0, 1, 1, 0, 1, 1, 0],
        seq![0u8, 1, 1, 1, 0, 0, 0, 1, 0, 0],
        seq![1u8, 0, 0, 0, 0, 0, 1, 1, 0, 0],
        seq![0u8, 0, 0, 0, 1, 1, 1, 1, 0, 0],
        seq![1u8, 1, 0, 0, 0, 1, 0, 0, 0, 1],
        seq![0u8, 1, 1, 0, 0, 0, 0, 0, 0, 0],
        seq![1u8, 0, 1, 1, 0, 1, 1, 1, 0, 1],
        seq![1u8, 1, 0, 0, 1, 0, 1, 1, 0, 0],
        seq![1u8, 1, 1, 1, 1, 1, 1, 1, 1, 1],
    ]
}

/// `a` comes before `b` where the cells are read row by row.
pub open spec fn row_major_before(a: GridPosition, b: GridPosition) -> bool {
    a.1 < b.1 || (a.1 == b.1 && a.0 < b.0)
}

/// `pixels` names the live cells of `g`, each once, row by row.
pub open spec fn lists_live_cells(pixels: Seq<GridPosition>, g: Generation) -> bool {
    &&& forall|k: int|
        0 <= k < pixels.len() ==> (#[trigger] pixels[k]).1 < g.rows && pixels[k].0 < g.cols
            && g.cells[pixels[k].1 as int][pixels[k].0 as int] != 0
    &&& forall|r: int, c: int|
        0 <= r < g.rows && 0 <= c < g.cols && #[trigger] g.cells[r][c] != 0 ==> exists|k: int|
            0 <= k < pixels.len() && #[trigger] pixels[k] == (c as usize, r as usize)
    &&& forall|k1: int, k2: int|
        0 <= k1 < k2 < pixels.len() ==> row_major_before(#[trigger] pixels[k1], #[trigger] pixels[k2])
}

/// `pixels` names, row by row and each once, the live cells of `g` that come
/// before row `r`, column `c`.
spec fn live_up_to(pixels: Seq<GridPosition>, g: Generation, r: int, c: int) -> bool {
    &&& forall|k: int|
        0 <= k < pixels.len() ==> (#[trigger] pixels[k]).1 < g.rows && pixels[k].0 < g.cols
            && g.cells[pixels[k].1 as int][pixels[k].0 as int] != 0 && (pixels[k].1 < r || (
        pixels[k].1 == r && pixels[k].0 < c))
    &&& forall|i: int, j: int|
        0 <= i < g.rows && 0 <= j < g.cols && (i < r || (i == r && j < c))
            && #[trigger] g.cells[i][j] != 0 ==> exists|k: int|
            0 <= k < pixels.len() && #[trigger] pixels[k] == (j as usize, i as usize)
    &&& forall|k1: int, k2: int|
        0 <= k1 < k2 < pixels.len() ==> row_major_before(#[trigger] pixels[k1], #[trigger] pixels[k2])
}

impl View for GameState {
    type V = GameView;

    open spec fn view(&self) -> GameView {
        GameView {
            is_paused: self.paused(),
            pressing_click: self.pressed(),
            grid: self.board()@,
        }
    }
}

impl GameState {
    /// The board of the game.
    pub closed spec fn board(&self) -> Board {
        self.grid
    }

    /// Whether the game is paused.
    pub closed spec fn paused(&self) -> bool {
        self.is_paused
    }

    /// The button that is held down.
    pub closed spec fn pressed(&self) -> Option<MouseButton> {
        self.pressing_click
    }

    /// The invariant of a game state: the board is well formed, and the
    /// button held down, if any, is one that edits cells.
    pub open spec fn wf(&self) -> bool {
        &&& self.board().wf()
        &&& self.pressed() != Some(MouseButton::Other)
    }

    /// `grid_pos` names a cell of the board.
    pub open spec fn on_grid(&self, grid_pos: GridPosition) -> bool {
        grid_pos.1 < self@.grid.rows && grid_pos.0 < self@.grid.cols
    }

    /// A paused game on the initial cells, with no button held down.
    pub fn new() -> (state: GameState)
        ensures
            state.wf(),
            state@ == (GameView {
                is_paused: true,
                pressing_click: None,
                grid: Generation { rows: 10, cols: 10, cells: initial_cells() },
            }),
    {
        let rows: Vec<Vec<u8>> = vec![
            vec![1, 1, 0, 0, 0, 1, 1, 1, 0, 1],
            vec![1, 1, 0, 0, 1, 1, 0, 1, 1, 0],
            vec![0, 1, 1, 1, 0, 0, 0, 1, 0, 0],
            vec![1, 0, 0, 0, 0, 0, 1, 1, 0, 0],
            vec![0, 0, 0, 0, 1, 1, 1, 1, 0, 0],
            vec![1, 1, 0, 0, 0, 1, 0, 0, 0, 1],
            vec![0, 1, 1, 0, 0, 0, 0, 0, 0, 0],
            vec![1, 0, 1, 1, 0, 1, 1, 1, 0, 1],
            vec![1, 1, 0, 0, 1, 0, 1, 1, 0, 0],
            vec![1, 1, 1, 1, 1, 1, 1, 1, 1, 1],
        ];
        assert(rows_view(rows@) =~~= initial_cells());
        proof {
            lemma_initial_cells_binary();
        }
        let arr = CellArray::from_rows(&rows).unwrap();
        assert(array_cells(arr).len() == 10 && array_cols(arr) == 10);
        proof {
            lemma_small_board_fits(10, 10);
        }
        GameState { is_paused: true, pressing_click: None, grid: Board::from(arr) }
    }

    /// Whether the game is paused.
    pub fn is_paused(&self) -> (paused: bool)
        ensures
            paused == self@.is_paused,
    {
        self.is_paused
    }

    /// Whether a button that edits the cells is held down.
    pub fn is_pressing(&self) -> (pressing: bool)
        ensures
            pressing == self@.pressing_click is Some,
    {
        self.pressing_click.is_some()
    }

    /// The board of the game.
    pub fn grid(&self) -> (board: &Board)
        ensures
            *board == self.board(),
    {
        &self.grid
    }

    /// Whether `grid_pos` names a cell of the board.
    pub fn is_on_grid(&self, grid_pos: GridPosition) -> (yes: bool)
        requires
            self.wf(),
        ensures
            yes == self.on_grid(grid_pos),
    {
        let (rows, cols) = self.grid.dim();
        grid_pos.1 < rows && grid_pos.0 < cols
    }

    /// The live cells in the order in which they are drawn: row by row, each
    /// as column and row.
    pub fn live_pixels(&self) -> (pixels: Vec<GridPosition>)
        requires
            self.wf(),
        ensures
            lists_live_cells(pixels@, self@.grid),
    {
        let cells = self.grid.get_array();
        let (rows, cols) = cells.dim();
        let ghost g = self@.grid;
        let mut pixels: Vec<GridPosition> = Vec::new();
        let mut r: usize = 0;
        while r < rows
            invariant
                r <= rows,
                rows == g.rows,
                cols == g.cols,
                array_cells(cells) == g.cells,
                array_cols(cells) == cols,
                g.cells.len() == rows,
                live_up_to(pixels@, g, r as int, 0),
            decreases rows - r,
        {
            let mut c: usize = 0;
            while c < cols
                invariant
                    r < rows,
                    c <= cols,
                    rows == g.rows,
                    cols == g.cols,
                    array_cells(cells) == g.cells,
                    array_cols(cells) == cols,
                    g.cells.len() == rows,
                    live_up_to(pixels@, g, r as int, c as int),
                decreases cols - c,
            {
                if cells.cell(r, c) != 0 {
                    let ghost before = pixels@;
                    pixels.push((c, r));
                    assert forall|i: int, j: int|
                        0 <= i < g.rows && 0 <= j < g.cols && (i < r || (i == r && j < c + 1))
                            && #[trigger] g.cells[i][j] != 0 implies exists|k: int|
                        0 <= k < pixels@.len() && #[trigger] pixels@[k] == (j as usize, i as usize) by {
                        if i == r && j == c {
                            assert(pixels@[before.len() as int] == (c, r));
                        } else {
                            let k = choose|k: int|
                                0 <= k < before.len() && #[trigger] before[k] == (
                                    j as usize,
                                    i as usize,
                                );
                            assert(pixels@[k] == before[k]);
                        }
                    }
                }
                c += 1;
            }
            r += 1;
        }
        pixels
    }

    /// Makes the cell at `grid_pos` alive.
    pub fn create_pixel(&mut self, grid_pos: GridPosition)
        requires
            old(self).wf(),
            old(self).on_grid(grid_pos),
        ensures
            final(self).wf(),
            final(self)@ == (GameView {
                grid: old(self)@.grid.with_cell(grid_pos.1 as int, grid_pos.0 as int, 1),
                ..old(self)@
            }),
    {
        self.grid.set_cell(grid_pos.1, grid_pos.0);
    }

    /// Makes the cell at `grid_pos` dead.
    pub fn delete_pixel(&mut self, grid_pos: GridPosition)
        requires
            old(self).wf(),
            old(self).on_grid(grid_pos),
        ensures
            final(self).wf(),
            final(self)@ == (GameView {
                grid: old(self)@.grid.with_cell(grid_pos.1 as int, grid_pos.0 as int, 0),
                ..old(self)@
            }),
    {
        self.grid.clear_cell(grid_pos.1, grid_pos.0);
    }

    /// One tick of the clock. The board advances by a generation where the
    /// time between two generations has run out and the game is not paused;
    /// the result says whether it did, so that the caller starts the time
    /// anew.
    pub fn update(&mut self, timed_out: bool) -> (advanced: bool)
        requires
            old(self).wf(),
        ensures
            final(self).wf(),
            advanced == (timed_out && !old(self)@.is_paused),
            final(self)@ == (GameView {
                grid: if advanced {
                    old(self)@.grid.step()
                } else {
                    old(self)@.grid
                },
                ..old(self)@
            }),
    {
        if timed_out && !self.is_paused {
            self.grid.update();
            true
        } else {
            false
        }
    }

    /// A key went down: the space bar pauses the game or lets it go on, and
    /// the escape key asks to leave it, which the result reports.
    pub fn key_down_event(&mut self, key: KeyCode) -> (quit: bool)
        ensures
            old(self).wf() ==> final(self).wf(),
            quit == (key == KeyCode::Escape),
            final(self)@ == (GameView {
                is_paused: if key == KeyCode::Space {
                    !old(self)@.is_paused
                } else {
                    old(self)@.is_paused
                },
                ..old(self)@
            }),
    {
        match key {
            KeyCode::Space => {
                self.is_paused = !self.is_paused;
                false
            },
            KeyCode::Escape => true,
            KeyCode::Other => false,
        }
    }

    /// A mouse button went down over the cell at `grid_pos`: the left
    /// button makes the cell alive, the right one makes it dead, and either
    /// is held from now on. Another button changes nothing.
    pub fn mouse_button_down_event(&mut self, button: MouseButton, grid_pos: GridPosition)
        requires
            old(self).wf(),
            button != MouseButton::Other ==> old(self).on_grid(grid_pos),
        ensures
            final(self).wf(),
            final(self)@ == (match button {
                MouseButton::Left => GameView {
                    pressing_click: Some(MouseButton::Left),
                    grid: old(self)@.grid.with_cell(grid_pos.1 as int, grid_pos.0 as int, 1),
                    ..old(self)@
                },
                MouseButton::Right => GameView {
                    pressing_click: Some(MouseButton::Right),
                    grid: old(self)@.grid.with_cell(grid_pos.1 as int, grid_pos.0 as int, 0),
                    ..old(self)@
                },
                MouseButton::Other => old(self)@,
            }),
    {
        match button {
            MouseButton::Left => {
                self.pressing_click = Some(MouseButton::Left);
                self.create_pixel(grid_pos);
            },
            MouseButton::Right => {
                self.pressing_click = Some(MouseButton::Right);
                self.delete_pixel(grid_pos);
            },
            MouseButton::Other => {},
        }
    }

    /// A mouse button went up: it is held no longer, if it was the one held.
    pub fn mouse_button_up_event(&mut self, button: MouseButton)
        ensures
            old(self).wf() ==> final(self).wf(),
            final(self)@ == (GameView {
                pressing_click: if old(self)@.pressing_click == Some(button) {
                    None
                } else {
                    old(self)@.pressing_click
                },
                ..old(self)@
            }),
    {
        match self.pressing_click {
            Some(key) => {
                if key == button {
                    self.pressing_click = None;
                }
            },
            None => {},
        }
    }

    /// The pointer moved to the cell at `grid_pos`: with the left button
    /// held the cell becomes alive, with the right one dead.
    pub fn mouse_motion_event(&mut self, grid_pos: GridPosition)
        requires
            old(self).wf(),
            old(self)@.pressing_click is Some ==> old(self).on_grid(grid_pos),
        ensures
            final(self).wf(),
            final(self)@ == (match old(self)@.pressing_click {
                Some(MouseButton::Left) => GameView {
                    grid: old(self)@.grid.with_cell(grid_pos.1 as int, grid_pos.0 as int, 1),
                    ..old(self)@
                },
                Some(MouseButton::Right) => GameView {
                    grid: old(self)@.grid.with_cell(grid_pos.1 as int, grid_pos.0 as int, 0),
                    ..old(self)@
                },
                _ => old(self)@,
            }),
    {
        match self.pressing_click {
            Some(MouseButton::Left) => self.create_pixel(grid_pos),
            Some(MouseButton::Right) => self.delete_pixel(grid_pos),
            _ => {},
        }
    }
}

/// The initial cells are zeros and ones.
proof fn lemma_initial_cells_binary()
    ensures
        is_binary(initial_cells()),
{
    let m = initial_cells();
    assert forall|r: int, c: int| 0 <= r < m.len() && 0 <= c < m[r].len() implies #[trigger] m[r][c]
        <= 1 by {
        assert(m.len() == 10);
        assert(m[r].len() == 10);
    }
}

} // verus!
