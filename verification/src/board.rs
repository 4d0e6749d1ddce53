use vstd::prelude::*;

use crate::piece::{occ, size, lemma_shape_nonempty, lemma_occ_in_bitmap};
use crate::piece::{PieceState, RotateKind, Rotation, TetronimoKind};
use crate::piece::kind_from_index;
use crate::rng::random_piece_index;
use crate::TickResult;

verus! {

pub const NUM_ROWS: usize = 40;
pub const NUM_VISIBLE_ROWS: usize = 20;
pub const NUM_COLUMNS: usize = 10;

/// A display color, as red/green/blue components.
#[derive(Clone, Copy, Debug, PartialEq, Eq, Structural)]
pub struct Color {
    pub r: u8,
    pub g: u8,
    pub b: u8,
}

/// The fixed display color of each piece kind.
pub open spec fn color_of(kind: TetronimoKind) -> Color {
    match kind {
        TetronimoKind::I => Color { r: 3, g: 65, b: 174 },
        TetronimoKind::J => Color { r: 114, g: 203, b: 59 },
        TetronimoKind::L => Color { r: 255, g: 213, b: 0 },
        TetronimoKind::O => Color { r: 255, g: 151, b: 28 },
        TetronimoKind::S => Color { r: 255, g: 50, b: 19 },
        TetronimoKind::T => Color { r: 128, g: 0, b: 128 },
        TetronimoKind::Z => Color { r: 255, g: 127, b: 0 },
    }
}

/// One board cell: permanently settled, part of the falling piece, or empty.
#[derive(Clone, Copy, Debug, PartialEq, Eq, Structural)]
pub enum CellState {
    Filled(Color),
    Active(Color),
    Empty,
}

/// A board position: row then column, with (0, 0) the top-left corner.
/// Either coordinate may be negative for a piece anchor whose occupied
/// sub-cells still all lie on the board.
#[derive(Clone, Copy, Debug, PartialEq, Eq, Structural)]
pub struct Position(pub isize, pub isize);

/// The currently falling piece: its kind, the board position of its
/// bitmap's top-left corner, and its orientation.
#[derive(Clone, Copy, Debug, PartialEq, Eq, Structural)]
pub struct Tetronimo {
    pub kind: TetronimoKind,
    pub pos: Position,
    pub rotation: Rotation,
}

impl TetronimoKind {
    /// The display color of this kind.
    pub fn color(&self) -> (c: Color)
        ensures
            c == color_of(*self),
    {
        match self {
            Self::I => Color { r: 3, g: 65, b: 174 },
            Self::J => Color { r: 114, g: 203, b: 59 },
            Self::L => Color { r: 255, g: 213, b: 0 },
            Self::O => Color { r: 255, g: 151, b: 28 },
            Self::S => Color { r: 255, g: 50, b: 19 },
            Self::T => Color { r: 128, g: 0, b: 128 },
            Self::Z => Color { r: 255, g: 127, b: 0 },
        }
    }

    /// The fixed spawn anchor, just above the visible window.
    pub fn start_position(&self) -> (p: Position)
        ensures
            p == spec_start_position(),
    {
        Position(20, 4)
    }

    /// Side length of this kind's bitmap, as an executable value.
    pub fn bitmap_size(&self) -> (s: usize)
        ensures
            s == size(*self),
    {
        match self {
            Self::I => 4,
            Self::O => 4,
            _ => 3,
        }
    }
}

/// The spawn anchor shared by every kind.
pub open spec fn spec_start_position() -> Position {
    Position(20, 4)
}

/// The piece a spawn attempt tries to place: `kind` at the spawn anchor
/// with the initial orientation.
pub open spec fn spawn_tet(kind: TetronimoKind) -> Tetronimo {
    Tetronimo { kind, pos: spec_start_position(), rotation: Rotation::R0 }
}

/// Whether the piece `tet` occupies board position (r, c).
pub open spec fn tet_occupies(tet: Tetronimo, r: int, c: int) -> bool {
    occ(tet.kind, tet.rotation, r - tet.pos.0 as int, c - tet.pos.1 as int)
}

/// The cell as it is after the footprint-erase pass: settled cells
/// stay, anything else becomes empty.
pub open spec fn cleared_cell(c: CellState) -> CellState {
    match c {
        CellState::Filled(_) => c,
        _ => CellState::Empty,
    }
}

/// The cell at (r, c) after `tet` has been committed on `pre`'s board:
/// the piece's footprint is drawn as active cells of its kind's color,
/// settled cells stay, and everything else (in particular the previous
/// footprint) is empty.
pub open spec fn placed_cell(pre: Game, tet: Tetronimo, r: int, c: int) -> CellState {
    if tet_occupies(tet, r, c) {
        CellState::Active(color_of(tet.kind))
    } else {
        cleared_cell(pre.cell(r, c))
    }
}

/// The grid in the middle of the drawing pass: the occupied sub-cells
/// of `tet` that come before (i, j) in row-major order are already
/// drawn, the rest of the grid still shows the erased board.
pub open spec fn partly_placed_cell(
    pre: Game,
    tet: Tetronimo,
    i: int,
    j: int,
    r: int,
    c: int,
) -> CellState {
    if exists|ii: int, jj: int|
        (ii < i || (ii == i && jj < j)) && occ(tet.kind, tet.rotation, ii, jj) && r == tet.pos.0
            as int + ii && c == tet.pos.1 as int + jj {
        CellState::Active(color_of(tet.kind))
    } else {
        cleared_cell(pre.cell(r, c))
    }
}

/// Anchors of placeable pieces stay in a narrow band around the grid:
/// an occupied sub-cell on the board keeps its bitmap's corner nearby.
pub open spec fn anchor_in_range(tet: Tetronimo) -> bool {
    &&& -4 <= tet.pos.0 as int <= NUM_ROWS
    &&& -4 <= tet.pos.1 as int <= NUM_COLUMNS
}

/// `post`'s grid is `pre`'s grid with `tet` committed on it.
pub open spec fn grid_placed(pre: Game, post: Game, tet: Tetronimo) -> bool {
    forall|r: int, c: int|
        0 <= r < NUM_ROWS && 0 <= c < NUM_COLUMNS ==> post.cell(r, c) == placed_cell(pre, tet, r, c)
}

/// `post`'s grid holds exactly the same cells as `pre`'s.
pub open spec fn grid_unchanged(pre: Game, post: Game) -> bool {
    forall|r: int, c: int|
        0 <= r < NUM_ROWS && 0 <= c < NUM_COLUMNS ==> post.cell(r, c) == pre.cell(r, c)
}

/// A sideways or downward step of the falling piece.
#[derive(Clone, Copy, Debug, PartialEq, Eq, Structural)]
pub enum Move {
    Left,
    Right,
    Down,
}

/// The candidate a move produces: the anchor shifted one column or row.
pub open spec fn move_candidate(tet: Tetronimo, m: Move) -> Tetronimo {
    let pos = match m {
        Move::Left => Position(tet.pos.0, (tet.pos.1 as int - 1) as isize),
        Move::Right => Position(tet.pos.0, (tet.pos.1 as int + 1) as isize),
        Move::Down => Position((tet.pos.0 as int + 1) as isize, tet.pos.1),
    };
    Tetronimo { pos, ..tet }
}

/// The candidate a rotation produces: the orientation stepped one place
/// along the cycle, the anchor unchanged.
pub open spec fn rotate_candidate(tet: Tetronimo, rk: RotateKind) -> Tetronimo {
    Tetronimo { rotation: tet.rotation.spec_rotate(rk), ..tet }
}

/// A placeable piece keeps its anchor near the grid: some occupied
/// sub-cell lies on the board, and the bitmap square is small.
pub proof fn lemma_can_place_anchor(g: Game, tet: Tetronimo)
    requires
        g.spec_can_place(tet),
    ensures
        anchor_in_range(tet),
{
    lemma_shape_nonempty(tet.kind, tet.rotation);
    let (i, j) = choose|i: int, j: int| occ(tet.kind, tet.rotation, i, j);
    lemma_occ_in_bitmap(tet.kind, tet.rotation, i, j);
    assert(g.place_ok(tet, i, j));
}

/// A candidate with any occupied sub-cell outside the grid is never
/// placeable, whatever the board holds.
pub proof fn lemma_out_of_bounds_not_placeable(g: Game, tet: Tetronimo, i: int, j: int)
    requires
        occ(tet.kind, tet.rotation, i, j),
        !(0 <= tet.pos.0 as int + i < NUM_ROWS) || !(0 <= tet.pos.1 as int + j < NUM_COLUMNS),
    ensures
        !g.spec_can_place(tet),
{
    assert(!g.place_ok(tet, i, j));
}

/// After a commit, the only active cells are the piece's own footprint,
/// each holding its kind's color: nothing of a prior piece survives as
/// active.
pub proof fn lemma_place_only_footprint_active(
    pre: Game,
    post: Game,
    tet: Tetronimo,
    r: int,
    c: int,
)
    requires
        grid_placed(pre, post, tet),
        0 <= r < NUM_ROWS,
        0 <= c < NUM_COLUMNS,
        post.cell(r, c) is Active,
    ensures
        tet_occupies(tet, r, c),
        post.cell(r, c) == CellState::Active(color_of(tet.kind)),
{
    assert(post.cell(r, c) == placed_cell(pre, tet, r, c));
}

/// On a board with no settled cells, the spawn position of every kind
/// is placeable: each occupied sub-cell lands in rows 20..24 and
/// columns 4..8 of the grid, on a cell that is not settled.
pub proof fn lemma_spawn_can_place(g: Game, kind: TetronimoKind)
    requires
        g.wf(),
        forall|r: int, c: int|
            0 <= r < NUM_ROWS && 0 <= c < NUM_COLUMNS ==> !((#[trigger] g.cell(r, c)) is Filled),
    ensures
        g.spec_can_place(spawn_tet(kind)),
{
    let t = spawn_tet(kind);
    assert forall|i: int, j: int| g.place_ok(t, i, j) by {
        if occ(t.kind, t.rotation, i, j) {
            lemma_occ_in_bitmap(t.kind, t.rotation, i, j);
            assert(!(g.cell(20 + i, 4 + j) is Filled));
        }
    }
}

/// Locking a cell: an active cell settles with its color, everything
/// else is untouched.
pub open spec fn freeze_cell(c: CellState) -> CellState {
    match c {
        CellState::Active(col) => CellState::Filled(col),
        _ => c,
    }
}

/// A row is complete when every one of its cells is settled.
pub open spec fn spec_row_full(row: Seq<CellState>) -> bool {
    forall|c: int| 0 <= c < row.len() ==> (#[trigger] row[c]) is Filled
}

/// A row mapped through the locking pass.
pub open spec fn frozen_row(row: Seq<CellState>) -> Seq<CellState> {
    Seq::new(row.len(), |c: int| freeze_cell(row[c]))
}

/// `pre`'s grid with every active cell settled.
pub open spec fn frozen_grid(pre: Game) -> Seq<Seq<CellState>> {
    Seq::new(NUM_ROWS as nat, |r: int| frozen_row(pre.row(r)))
}

/// The rows among g[0..n) that are not complete, in their original
/// top-to-bottom order: exactly the rows that survive a line clear.
pub open spec fn kept_rows(g: Seq<Seq<CellState>>, n: int) -> Seq<Seq<CellState>>
    decreases n,
{
    if n <= 0 {
        Seq::empty()
    } else if spec_row_full(g[n - 1]) {
        kept_rows(g, n - 1)
    } else {
        kept_rows(g, n - 1).push(g[n - 1])
    }
}

/// At most n rows survive among the first n.
pub proof fn lemma_kept_rows_len(g: Seq<Seq<CellState>>, n: int)
    requires
        0 <= n,
    ensures
        kept_rows(g, n).len() <= n,
    decreases n,
{
    if n > 0 {
        lemma_kept_rows_len(g, n - 1);
    }
}

/// An all-empty row.
pub open spec fn empty_row_spec() -> Seq<CellState> {
    Seq::new(NUM_COLUMNS as nat, |c: int| CellState::Empty)
}

/// `post`'s grid is `pre`'s grid after locking and line clear: the
/// surviving rows of the locked grid sit at the bottom in their old
/// order, and everything above them is empty.
pub open spec fn grid_cleared(pre: Game, post: Game) -> bool {
    let kept = kept_rows(frozen_grid(pre), NUM_ROWS as int);
    &&& forall|r: int| 0 <= r < NUM_ROWS - kept.len() ==> post.row(r) == empty_row_spec()
    &&& forall|k: int|
        0 <= k < kept.len() ==> post.row(NUM_ROWS - kept.len() + k) == kept[k]
}

/// What one gravity step does. With no falling piece it spawns `kind`
/// at the fixed start position: if that collides with settled cells the
/// game is over and nothing changes; otherwise the piece is committed.
/// With a falling piece it tries one row down: if that fits it is
/// committed, and if not the piece locks, complete lines are cleared,
/// and no piece is falling any more. Either way the gravity clock now
/// reads `now_ms`.
pub open spec fn tick_rel(
    pre: Game,
    post: Game,
    now_ms: u64,
    kind: TetronimoKind,
    res: TickResult,
) -> bool {
    &&& post.spec_last_tick_ms() == now_ms
    &&& post.spec_tick_interval_ms() == pre.spec_tick_interval_ms()
    &&& match pre.spec_active_tet() {
        None => ({
            let t = spawn_tet(kind);
            if pre.spec_can_place(t) {
                &&& res == TickResult::Continue
                &&& post.spec_active_tet() == Some(t)
                &&& grid_placed(pre, post, t)
            } else {
                &&& res == TickResult::GameOver
                &&& post.spec_active_tet() is None
                &&& grid_unchanged(pre, post)
            }
        }),
        Some(t0) => ({
            let t = move_candidate(t0, Move::Down);
            &&& res == TickResult::Continue
            &&& if pre.spec_can_place(t) {
                post.spec_active_tet() == Some(t) && grid_placed(pre, post, t)
            } else {
                post.spec_active_tet() is None && grid_cleared(pre, post)
            }
        }),
    }
}

/// The board engine: the grid of cells, the currently falling piece if
/// any, and the gravity clock.
pub struct Game {
    cells: Vec<Vec<CellState>>,
    active_tet: Option<Tetronimo>,
    last_tick_ms: u64,
    tick_interval_ms: u64,
}

impl Game {
    /// The grid is exactly `NUM_ROWS` rows of `NUM_COLUMNS` cells each.
    pub closed spec fn wf(self) -> bool {
        &&& self.cells@.len() == NUM_ROWS
        &&& forall|r: int|
            0 <= r < NUM_ROWS ==> (#[trigger] self.cells@[r])@.len() == NUM_COLUMNS
        &&& match self.active_tet {
            Some(t) => anchor_in_range(t),
            None => true,
        }
    }

    /// The row at index r, top to bottom.
    pub closed spec fn row(self, r: int) -> Seq<CellState> {
        self.cells@[r]@
    }

    /// The cell at board position (r, c).
    pub closed spec fn cell(self, r: int, c: int) -> CellState {
        self.cells@[r]@[c]
    }

    /// The currently falling piece, if any.
    pub closed spec fn spec_active_tet(self) -> Option<Tetronimo> {
        self.active_tet
    }

    /// The gravity clock: the time of the last tick, in milliseconds.
    pub closed spec fn spec_last_tick_ms(self) -> u64 {
        self.last_tick_ms
    }

    /// The gravity clock: the fixed tick interval, in milliseconds.
    pub closed spec fn spec_tick_interval_ms(self) -> u64 {
        self.tick_interval_ms
    }

    /// The occupied sub-cell (i, j) of `tet`'s bitmap lands on the board
    /// and does not overlap a settled cell.
    pub open spec fn place_ok(self, tet: Tetronimo, i: int, j: int) -> bool {
        occ(tet.kind, tet.rotation, i, j) ==> {
            let r = tet.pos.0 as int + i;
            let c = tet.pos.1 as int + j;
            &&& 0 <= r < NUM_ROWS
            &&& 0 <= c < NUM_COLUMNS
            &&& !(self.cell(r, c) is Filled)
        }
    }

    /// Every occupied sub-cell of `tet` lies inside the grid and on a
    /// cell that is not settled. Active cells of a previous footprint do
    /// not block a piece.
    pub open spec fn spec_can_place(self, tet: Tetronimo) -> bool {
        forall|i: int, j: int| self.place_ok(tet, i, j)
    }

    /// Collision check for a candidate piece. Pure: the board is not
    /// touched, and the result is determined by the grid and the
    /// candidate alone.
    pub fn can_place(&self, tet: &Tetronimo) -> (r: bool)
        requires
            self.wf(),
        ensures
            r == self.spec_can_place(*tet),
    {
        let Position(x, y) = tet.pos;
        let s = tet.kind.bitmap_size();
        // An anchor this far out forces some occupied sub-cell off the
        // board, whatever the bitmap looks like.
        if x <= -(s as isize) || x >= NUM_ROWS as isize || y <= -(s as isize) || y >= NUM_COLUMNS
            as isize {
            proof {
                lemma_shape_nonempty(tet.kind, tet.rotation);
                let (i, j) = choose|i: int, j: int| occ(tet.kind, tet.rotation, i, j);
                lemma_occ_in_bitmap(tet.kind, tet.rotation, i, j);
                assert(!self.place_ok(*tet, i, j));
            }
            return false;
        }
        let piece_cells = tet.kind.cells(&tet.rotation);
        let mut i: usize = 0;
        while i < s
            invariant
                self.wf(),
                s == size(tet.kind),
                tet.pos.0 == x,
                tet.pos.1 == y,
                -(s as int) < x < NUM_ROWS,
                -(s as int) < y < NUM_COLUMNS,
                i <= s,
                piece_cells@.len() == s,
                forall|ii: int|
                    0 <= ii < s ==> (#[trigger] piece_cells@[ii])@.len() == s,
                forall|ii: int, jj: int|
                    0 <= ii < s && 0 <= jj < s ==> ((#[trigger] piece_cells@[ii]@[jj])
                        == (if occ(tet.kind, tet.rotation, ii, jj) {
                        PieceState::T
                    } else {
                        PieceState::O
                    })),
                forall|ii: int, jj: int| 0 <= ii < i ==> self.place_ok(*tet, ii, jj),
            decreases s - i,
        {
            let mut j: usize = 0;
            while j < s
                invariant
                    self.wf(),
                    s == size(tet.kind),
                    tet.pos.0 == x,
                    tet.pos.1 == y,
                    -(s as int) < x < NUM_ROWS,
                    -(s as int) < y < NUM_COLUMNS,
                    i < s,
                    j <= s,
                    piece_cells@.len() == s,
                    forall|ii: int|
                        0 <= ii < s ==> (#[trigger] piece_cells@[ii])@.len() == s,
                    forall|ii: int, jj: int|
                        0 <= ii < s && 0 <= jj < s ==> ((#[trigger] piece_cells@[ii]@[jj])
                            == (if occ(tet.kind, tet.rotation, ii, jj) {
                            PieceState::T
                        } else {
                            PieceState::O
                        })),
                    forall|ii: int, jj: int| 0 <= ii < i ==> self.place_ok(*tet, ii, jj),
                    forall|jj: int| 0 <= jj < j ==> self.place_ok(*tet, i as int, jj),
                decreases s - j,
            {
                if matches!(piece_cells[i][j], PieceState::T) {
                    let cell_x = x + i as isize;
                    let cell_y = y + j as isize;
                    if cell_x < 0 || cell_x >= NUM_ROWS as isize || cell_y < 0 || cell_y
                        >= NUM_COLUMNS as isize {
                        proof {
                            assert(!self.place_ok(*tet, i as int, j as int));
                        }
                        return false;
                    }
                    if matches!(self.cells[cell_x as usize][cell_y as usize], CellState::Filled(_)) {
                        proof {
                            assert(self.cell(cell_x as int, cell_y as int) is Filled);
                            assert(!self.place_ok(*tet, i as int, j as int));
                        }
                        return false;
                    }
                }
                proof {
                    assert(self.place_ok(*tet, i as int, j as int));
                }
                j = j + 1;
            }
            proof {
                assert forall|ii: int, jj: int| 0 <= ii < i + 1 implies self.place_ok(
                    *tet,
                    ii,
                    jj,
                ) by {
                    if ii == i && !(0 <= jj < s) {
                        if occ(tet.kind, tet.rotation, ii, jj) {
                            lemma_occ_in_bitmap(tet.kind, tet.rotation, ii, jj);
                        }
                    }
                }
            }
            i = i + 1;
        }
        proof {
            assert forall|i2: int, j2: int| self.place_ok(*tet, i2, j2) by {
                if occ(tet.kind, tet.rotation, i2, j2) {
                    lemma_occ_in_bitmap(tet.kind, tet.rotation, i2, j2);
                }
            }
        }
        true
    }

    /// A fresh game: an all-empty grid, no falling piece, and the
    /// gravity clock at zero with the fixed 200 ms interval.
    pub fn new() -> (g: Game)
        ensures
            g.wf(),
            g.spec_active_tet() is None,
            g.spec_last_tick_ms() == 0,
            g.spec_tick_interval_ms() == 200,
            forall|r: int, c: int|
                0 <= r < NUM_ROWS && 0 <= c < NUM_COLUMNS ==> g.cell(r, c) == CellState::Empty,
    {
        let mut cells: Vec<Vec<CellState>> = Vec::new();
        let mut r: usize = 0;
        while r < NUM_ROWS
            invariant
                r <= NUM_ROWS,
                cells@.len() == r,
                forall|r2: int|
                    0 <= r2 < r ==> (#[trigger] cells@[r2])@.len() == NUM_COLUMNS,
                forall|r2: int, c2: int|
                    0 <= r2 < r && 0 <= c2 < NUM_COLUMNS ==> cells@[r2]@[c2] == CellState::Empty,
            decreases NUM_ROWS - r,
        {
            cells.push(Self::empty_row());
            r = r + 1;
        }
        Game { cells, active_tet: None, last_tick_ms: 0, tick_interval_ms: 200 }
    }

    /// One all-empty row of the grid.
    fn empty_row() -> (row: Vec<CellState>)
        ensures
            row@.len() == NUM_COLUMNS,
            forall|c: int| 0 <= c < NUM_COLUMNS ==> row@[c] == CellState::Empty,
    {
        let mut row: Vec<CellState> = Vec::new();
        let mut c: usize = 0;
        while c < NUM_COLUMNS
            invariant
                c <= NUM_COLUMNS,
                row@.len() == c,
                forall|c2: int| 0 <= c2 < c ==> row@[c2] == CellState::Empty,
            decreases NUM_COLUMNS - c,
        {
            row.push(CellState::Empty);
            c = c + 1;
        }
        row
    }

    /// The cell at (r, c), for rendering and inspection.
    pub fn cell_at(&self, r: usize, c: usize) -> (cell: CellState)
        requires
            self.wf(),
            r < NUM_ROWS,
            c < NUM_COLUMNS,
        ensures
            cell == self.cell(r as int, c as int),
    {
        self.cells[r][c]
    }

    /// The currently falling piece, if any.
    pub fn active_piece(&self) -> (t: Option<Tetronimo>)
        ensures
            t == self.spec_active_tet(),
    {
        self.active_tet
    }

    /// The time of the last gravity step, in milliseconds.
    pub fn last_tick_time_ms(&self) -> (t: u64)
        ensures
            t == self.spec_last_tick_ms(),
    {
        self.last_tick_ms
    }

    /// The fixed gravity interval, in milliseconds.
    pub fn tick_interval_time_ms(&self) -> (t: u64)
        ensures
            t == self.spec_tick_interval_ms(),
    {
        self.tick_interval_ms
    }

    /// Write one cell of the grid.
    fn set_cell(&mut self, r: usize, c: usize, v: CellState)
        requires
            old(self).wf(),
            r < NUM_ROWS,
            c < NUM_COLUMNS,
        ensures
            final(self).wf(),
            final(self).spec_active_tet() == old(self).spec_active_tet(),
            final(self).spec_last_tick_ms() == old(self).spec_last_tick_ms(),
            final(self).spec_tick_interval_ms() == old(self).spec_tick_interval_ms(),
            final(self).cell(r as int, c as int) == v,
            forall|r2: int, c2: int|
                0 <= r2 < NUM_ROWS && 0 <= c2 < NUM_COLUMNS && !(r2 == r && c2 == c)
                    ==> final(self).cell(r2, c2) == old(self).cell(r2, c2),
    {
        self.cells[r][c] = v;
    }

    /// One row mapped through the footprint-erase pass.
    fn cleared_row(row: &Vec<CellState>) -> (out: Vec<CellState>)
        ensures
            out@.len() == row@.len(),
            forall|c: int| 0 <= c < row@.len() ==> out@[c] == cleared_cell(row@[c]),
    {
        let mut out: Vec<CellState> = Vec::new();
        let mut c: usize = 0;
        while c < row.len()
            invariant
                c <= row@.len(),
                out@.len() == c,
                forall|c2: int| 0 <= c2 < c ==> out@[c2] == cleared_cell(row@[c2]),
            decreases row@.len() - c,
        {
            let cell = row[c];
            match cell {
                CellState::Filled(_) => out.push(cell),
                _ => out.push(CellState::Empty),
            }
            c = c + 1;
        }
        out
    }

    /// Commit a validated candidate: erase the previous footprint, draw
    /// the piece's occupied sub-cells as active cells of its color, and
    /// record it as the falling piece. The caller must have run the
    /// collision check; only then is every target cell known to be free.
    pub fn place(&mut self, tet: &Tetronimo)
        requires
            old(self).wf(),
            old(self).spec_can_place(*tet),
        ensures
            final(self).wf(),
            final(self).spec_active_tet() == Some(*tet),
            final(self).spec_last_tick_ms() == old(self).spec_last_tick_ms(),
            final(self).spec_tick_interval_ms() == old(self).spec_tick_interval_ms(),
            grid_placed(*old(self), *final(self), *tet),
    {
        proof {
            lemma_can_place_anchor(*old(self), *tet);
        }
        let ghost g0 = *self;
        // First pass: erase everything that is not settled, removing the
        // previous footprint of the falling piece.
        let mut r: usize = 0;
        while r < NUM_ROWS
            invariant
                self.wf(),
                g0.wf(),
                r <= NUM_ROWS,
                self.spec_active_tet() == g0.spec_active_tet(),
                self.spec_last_tick_ms() == g0.spec_last_tick_ms(),
                self.spec_tick_interval_ms() == g0.spec_tick_interval_ms(),
                forall|r2: int, c2: int|
                    0 <= r2 < r && 0 <= c2 < NUM_COLUMNS ==> self.cell(r2, c2) == cleared_cell(
                        g0.cell(r2, c2),
                    ),
                forall|r2: int, c2: int|
                    r <= r2 < NUM_ROWS && 0 <= c2 < NUM_COLUMNS ==> self.cell(r2, c2) == g0.cell(
                        r2,
                        c2,
                    ),
            decreases NUM_ROWS - r,
        {
            let nr = Self::cleared_row(&self.cells[r]);
            self.cells[r] = nr;
            r = r + 1;
        }
        // Second pass: draw the new footprint.
        let Position(x, y) = tet.pos;
        let color = tet.kind.color();
        let s = tet.kind.bitmap_size();
        let piece_cells = tet.kind.cells(&tet.rotation);
        let mut i: usize = 0;
        while i < s
            invariant
                self.wf(),
                g0.wf(),
                g0.spec_can_place(*tet),
                s == size(tet.kind),
                tet.pos.0 == x,
                tet.pos.1 == y,
                color == color_of(tet.kind),
                i <= s,
                piece_cells@.len() == s,
                forall|ii: int|
                    0 <= ii < s ==> (#[trigger] piece_cells@[ii])@.len() == s,
                forall|ii: int, jj: int|
                    0 <= ii < s && 0 <= jj < s ==> ((#[trigger] piece_cells@[ii]@[jj])
                        == (if occ(tet.kind, tet.rotation, ii, jj) {
                        PieceState::T
                    } else {
                        PieceState::O
                    })),
                self.spec_active_tet() == g0.spec_active_tet(),
                self.spec_last_tick_ms() == g0.spec_last_tick_ms(),
                self.spec_tick_interval_ms() == g0.spec_tick_interval_ms(),
                forall|r2: int, c2: int|
                    0 <= r2 < NUM_ROWS && 0 <= c2 < NUM_COLUMNS ==> self.cell(r2, c2)
                        == partly_placed_cell(g0, *tet, i as int, 0, r2, c2),
            decreases s - i,
        {
            let mut j: usize = 0;
            while j < s
                invariant
                    self.wf(),
                    g0.wf(),
                    g0.spec_can_place(*tet),
                    s == size(tet.kind),
                    tet.pos.0 == x,
                    tet.pos.1 == y,
                    color == color_of(tet.kind),
                    i < s,
                    j <= s,
                    piece_cells@.len() == s,
                    forall|ii: int|
                        0 <= ii < s ==> (#[trigger] piece_cells@[ii])@.len() == s,
                    forall|ii: int, jj: int|
                        0 <= ii < s && 0 <= jj < s ==> ((#[trigger] piece_cells@[ii]@[jj])
                            == (if occ(tet.kind, tet.rotation, ii, jj) {
                            PieceState::T
                        } else {
                            PieceState::O
                        })),
                    self.spec_active_tet() == g0.spec_active_tet(),
                    self.spec_last_tick_ms() == g0.spec_last_tick_ms(),
                    self.spec_tick_interval_ms() == g0.spec_tick_interval_ms(),
                    forall|r2: int, c2: int|
                        0 <= r2 < NUM_ROWS && 0 <= c2 < NUM_COLUMNS ==> self.cell(r2, c2)
                            == partly_placed_cell(g0, *tet, i as int, j as int, r2, c2),
                decreases s - j,
            {
                if matches!(piece_cells[i][j], PieceState::T) {
                    proof {
                        assert(occ(tet.kind, tet.rotation, i as int, j as int));
                        assert(g0.place_ok(*tet, i as int, j as int));
                    }
                    let cell_x = (x + i as isize) as usize;
                    let cell_y = (y + j as isize) as usize;
                    let ghost pre = *self;
                    self.set_cell(cell_x, cell_y, CellState::Active(color));
                    proof {
                        assert forall|r2: int, c2: int|
                            0 <= r2 < NUM_ROWS && 0 <= c2 < NUM_COLUMNS implies self.cell(r2, c2)
                            == partly_placed_cell(g0, *tet, i as int, j + 1, r2, c2) by {
                            if r2 == cell_x && c2 == cell_y {
                                assert(occ(tet.kind, tet.rotation, i as int, j as int));
                            } else {
                                assert(self.cell(r2, c2) == pre.cell(r2, c2));
                            }
                        }
                    }
                } else {
                    proof {
                        assert(!occ(tet.kind, tet.rotation, i as int, j as int));
                        assert forall|r2: int, c2: int|
                            0 <= r2 < NUM_ROWS && 0 <= c2 < NUM_COLUMNS implies self.cell(r2, c2)
                            == partly_placed_cell(g0, *tet, i as int, j + 1, r2, c2) by {
                        }
                    }
                }
                j = j + 1;
            }
            proof {
                assert forall|r2: int, c2: int|
                    0 <= r2 < NUM_ROWS && 0 <= c2 < NUM_COLUMNS implies self.cell(r2, c2)
                    == partly_placed_cell(g0, *tet, i + 1, 0, r2, c2) by {
                    assert forall|ii: int, jj: int|
                        ((ii < i as int || (ii == i as int && jj < s)) && occ(
                            tet.kind,
                            tet.rotation,
                            ii,
                            jj,
                        )) == ((ii < i + 1 || (ii == i + 1 && jj < 0)) && occ(
                            tet.kind,
                            tet.rotation,
                            ii,
                            jj,
                        )) by {
                        if occ(tet.kind, tet.rotation, ii, jj) {
                            lemma_occ_in_bitmap(tet.kind, tet.rotation, ii, jj);
                        }
                    }
                }
            }
            i = i + 1;
        }
        proof {
            assert forall|r2: int, c2: int|
                0 <= r2 < NUM_ROWS && 0 <= c2 < NUM_COLUMNS implies self.cell(r2, c2)
                == placed_cell(g0, *tet, r2, c2) by {
                assert(self.cell(r2, c2) == partly_placed_cell(g0, *tet, s as int, 0, r2, c2));
                if tet_occupies(*tet, r2, c2) {
                    lemma_occ_in_bitmap(
                        tet.kind,
                        tet.rotation,
                        r2 - tet.pos.0 as int,
                        c2 - tet.pos.1 as int,
                    );
                    assert(occ(tet.kind, tet.rotation, r2 - tet.pos.0 as int, c2 - tet.pos.1 as int)
                        && r2 == tet.pos.0 as int + (r2 - tet.pos.0 as int) && c2 == tet.pos.1
                        as int + (c2 - tet.pos.1 as int));
                } else {
                    if exists|ii: int, jj: int|
                        (ii < s as int || (ii == s as int && jj < 0)) && occ(
                            tet.kind,
                            tet.rotation,
                            ii,
                            jj,
                        ) && r2 == tet.pos.0 as int + ii && c2 == tet.pos.1 as int + jj {
                        let (ii, jj) = choose|ii: int, jj: int|
                            (ii < s as int || (ii == s as int && jj < 0)) && occ(
                                tet.kind,
                                tet.rotation,
                                ii,
                                jj,
                            ) && r2 == tet.pos.0 as int + ii && c2 == tet.pos.1 as int + jj;
                        assert(tet_occupies(*tet, r2, c2));
                    }
                }
            }
        }
        self.active_tet = Some(*tet);
        proof {
            lemma_can_place_anchor(g0, *tet);
            assert(g0 == *old(self));
            assert(forall|r2: int, c2: int|
                0 <= r2 < NUM_ROWS && 0 <= c2 < NUM_COLUMNS ==> self.cell(r2, c2) == placed_cell(
                    g0,
                    *tet,
                    r2,
                    c2,
                ));
        }
    }

    /// Player intent: shift the falling piece one column or row. The
    /// candidate is committed only if it collides with nothing;
    /// otherwise the move is silently rejected and nothing changes. With
    /// no falling piece this is a no-op.
    pub fn move_(&mut self, m: Move)
        requires
            old(self).wf(),
        ensures
            final(self).wf(),
            match old(self).spec_active_tet() {
                None => *final(self) == *old(self),
                Some(t) => ({
                    let cand = move_candidate(t, m);
                    if old(self).spec_can_place(cand) {
                        &&& final(self).spec_active_tet() == Some(cand)
                        &&& final(self).spec_last_tick_ms() == old(self).spec_last_tick_ms()
                        &&& final(self).spec_tick_interval_ms() == old(
                            self,
                        ).spec_tick_interval_ms()
                        &&& grid_placed(*old(self), *final(self), cand)
                    } else {
                        *final(self) == *old(self)
                    }
                }),
            },
    {
        match self.active_tet {
            None => {},
            Some(tet) => {
                let Position(x, y) = tet.pos;
                let new_pos = match m {
                    Move::Left => Position(x, y - 1),
                    Move::Right => Position(x, y + 1),
                    Move::Down => Position(x + 1, y),
                };
                let next_tet = Tetronimo { pos: new_pos, ..tet };
                proof {
                    assert(next_tet == move_candidate(tet, m));
                }
                if self.can_place(&next_tet) {
                    self.place(&next_tet);
                }
            },
        }
    }

    /// Player intent: step the falling piece's orientation along the
    /// cycle, the anchor unchanged. The candidate is committed only if
    /// it collides with nothing; otherwise the rotation is silently
    /// rejected and nothing changes. With no falling piece this is a
    /// no-op.
    pub fn rotate(&mut self, rk: RotateKind)
        requires
            old(self).wf(),
        ensures
            final(self).wf(),
            match old(self).spec_active_tet() {
                None => *final(self) == *old(self),
                Some(t) => ({
                    let cand = rotate_candidate(t, rk);
                    if old(self).spec_can_place(cand) {
                        &&& final(self).spec_active_tet() == Some(cand)
                        &&& final(self).spec_last_tick_ms() == old(self).spec_last_tick_ms()
                        &&& final(self).spec_tick_interval_ms() == old(
                            self,
                        ).spec_tick_interval_ms()
                        &&& grid_placed(*old(self), *final(self), cand)
                    } else {
                        *final(self) == *old(self)
                    }
                }),
            },
    {
        match self.active_tet {
            None => {},
            Some(tet) => {
                let new_rotation = tet.rotation.rotate(rk);
                let next_tet = Tetronimo { rotation: new_rotation, ..tet };
                if self.can_place(&next_tet) {
                    self.place(&next_tet);
                }
            },
        }
    }

    /// Whether every cell of this row is settled.
    fn row_full(row: &Vec<CellState>) -> (b: bool)
        ensures
            b == spec_row_full(row@),
    {
        let mut c: usize = 0;
        while c < row.len()
            invariant
                c <= row@.len(),
                forall|c2: int| 0 <= c2 < c ==> (#[trigger] row@[c2]) is Filled,
            decreases row@.len() - c,
        {
            if !matches!(row[c], CellState::Filled(_)) {
                return false;
            }
            c = c + 1;
        }
        true
    }

    /// One row mapped through the locking pass.
    fn frozen_row_vec(row: &Vec<CellState>) -> (out: Vec<CellState>)
        ensures
            out@ == frozen_row(row@),
    {
        let mut out: Vec<CellState> = Vec::new();
        let mut c: usize = 0;
        while c < row.len()
            invariant
                c <= row@.len(),
                out@.len() == c,
                forall|c2: int| 0 <= c2 < c ==> out@[c2] == freeze_cell(row@[c2]),
            decreases row@.len() - c,
        {
            let cell = row[c];
            match cell {
                CellState::Active(col) => out.push(CellState::Filled(col)),
                _ => out.push(cell),
            }
            c = c + 1;
        }
        proof {
            assert(out@ =~= frozen_row(row@));
        }
        out
    }

    /// A copy of one row.
    fn clone_row(row: &Vec<CellState>) -> (out: Vec<CellState>)
        ensures
            out@ == row@,
    {
        let mut out: Vec<CellState> = Vec::new();
        let mut c: usize = 0;
        while c < row.len()
            invariant
                c <= row@.len(),
                out@.len() == c,
                forall|c2: int| 0 <= c2 < c ==> out@[c2] == row@[c2],
            decreases row@.len() - c,
        {
            out.push(row[c]);
            c = c + 1;
        }
        proof {
            assert(out@ =~= row@);
        }
        out
    }

    /// Lock the fallen piece and clear complete lines: every active cell
    /// settles with its color, then every row whose cells are all
    /// settled is removed, the surviving rows slide to the bottom in
    /// their old top-to-bottom order, and the rows above them become
    /// empty. All complete rows vanish in this one call.
    pub fn freeze_and_remove_completed_rows(&mut self)
        requires
            old(self).wf(),
        ensures
            final(self).wf(),
            final(self).spec_active_tet() == old(self).spec_active_tet(),
            final(self).spec_last_tick_ms() == old(self).spec_last_tick_ms(),
            final(self).spec_tick_interval_ms() == old(self).spec_tick_interval_ms(),
            grid_cleared(*old(self), *final(self)),
    {
        let ghost g0 = *self;
        // First pass: settle the falling piece.
        let mut r: usize = 0;
        while r < NUM_ROWS
            invariant
                self.wf(),
                g0.wf(),
                r <= NUM_ROWS,
                self.spec_active_tet() == g0.spec_active_tet(),
                self.spec_last_tick_ms() == g0.spec_last_tick_ms(),
                self.spec_tick_interval_ms() == g0.spec_tick_interval_ms(),
                forall|r2: int| 0 <= r2 < r ==> self.row(r2) == frozen_row(#[trigger] g0.row(r2)),
                forall|r2: int| r <= r2 < NUM_ROWS ==> self.row(r2) == #[trigger] g0.row(r2),
            decreases NUM_ROWS - r,
        {
            proof {
                assert(self.row(r as int) == g0.row(r as int));
            }
            let nr = Self::frozen_row_vec(&self.cells[r]);
            let ghost pre = *self;
            self.cells[r] = nr;
            proof {
                assert(self.row(r as int) == frozen_row(g0.row(r as int)));
                assert forall|r2: int| 0 <= r2 < NUM_ROWS && r2 != r implies self.row(r2)
                    == pre.row(r2) by {}
            }
            r = r + 1;
        }
        let ghost fg = frozen_grid(g0);
        proof {
            assert(forall|r2: int| 0 <= r2 < NUM_ROWS ==> self.row(r2) == fg[r2]);
        }
        // Second pass: collect the rows that are not complete, in order.
        let mut kept: Vec<Vec<CellState>> = Vec::new();
        let mut r: usize = 0;
        while r < NUM_ROWS
            invariant
                self.wf(),
                g0.wf(),
                r <= NUM_ROWS,
                fg == frozen_grid(g0),
                self.spec_active_tet() == g0.spec_active_tet(),
                self.spec_last_tick_ms() == g0.spec_last_tick_ms(),
                self.spec_tick_interval_ms() == g0.spec_tick_interval_ms(),
                forall|r2: int| 0 <= r2 < NUM_ROWS ==> self.row(r2) == fg[r2],
                kept@.len() == kept_rows(fg, r as int).len(),
                forall|k: int|
                    0 <= k < kept@.len() ==> (#[trigger] kept@[k])@ == kept_rows(fg, r as int)[k],
                forall|k: int|
                    0 <= k < kept@.len() ==> (#[trigger] kept@[k])@.len() == NUM_COLUMNS,
            decreases NUM_ROWS - r,
        {
            let ghost kept_pre = kept@;
            if !Self::row_full(&self.cells[r]) {
                let rowcopy = Self::clone_row(&self.cells[r]);
                kept.push(rowcopy);
                proof {
                    assert(kept_rows(fg, r + 1) == kept_rows(fg, r as int).push(fg[r as int]));
                }
            } else {
                proof {
                    assert(kept_rows(fg, r + 1) == kept_rows(fg, r as int));
                }
            }
            r = r + 1;
        }
        // Third pass: empty rows on top, the surviving rows below.
        let n = kept.len();
        proof {
            lemma_kept_rows_len(fg, NUM_ROWS as int);
        }
        let mut newg: Vec<Vec<CellState>> = Vec::new();
        let mut r: usize = 0;
        while r < NUM_ROWS - n
            invariant
                n <= NUM_ROWS,
                r <= NUM_ROWS - n,
                newg@.len() == r,
                forall|r2: int| 0 <= r2 < r ==> (#[trigger] newg@[r2])@ == empty_row_spec(),
            decreases NUM_ROWS - n - r,
        {
            let er = Self::empty_row();
            proof {
                assert(er@ =~= empty_row_spec());
            }
            newg.push(er);
            r = r + 1;
        }
        newg.append(&mut kept);
        self.cells = newg;
        proof {
            assert(g0 == *old(self));
            assert(self.cells@.len() == NUM_ROWS);
            assert forall|r2: int| 0 <= r2 < NUM_ROWS implies (#[trigger] self.cells@[r2])@.len()
                == NUM_COLUMNS by {
                if r2 < NUM_ROWS - n {
                    assert(self.row(r2) == empty_row_spec());
                } else {
                    assert(self.row(r2) == kept_rows(fg, NUM_ROWS as int)[r2 - (NUM_ROWS - n)]);
                }
            }
        }
    }

    /// One gravity step, deciding from the given piece kind where a
    /// spawn is due; the draw itself is left to the caller. The gravity
    /// clock is set to `now_ms`.
    pub fn tick_with_kind(&mut self, now_ms: u64, kind: TetronimoKind) -> (res: TickResult)
        requires
            old(self).wf(),
        ensures
            final(self).wf(),
            tick_rel(*old(self), *final(self), now_ms, kind, res),
    {
        let ghost g0 = *self;
        let res = match self.active_tet {
            None => {
                let start = kind.start_position();
                let new_tet = Tetronimo { kind, pos: start, rotation: Rotation::R0 };
                proof {
                    assert(new_tet == spawn_tet(kind));
                }
                if self.can_place(&new_tet) {
                    self.place(&new_tet);
                    TickResult::Continue
                } else {
                    TickResult::GameOver
                }
            },
            Some(tet) => {
                let Position(x, y) = tet.pos;
                let next_tet = Tetronimo { pos: Position(x + 1, y), ..tet };
                proof {
                    assert(next_tet == move_candidate(tet, Move::Down));
                }
                if self.can_place(&next_tet) {
                    self.place(&next_tet);
                } else {
                    self.freeze_and_remove_completed_rows();
                    let ghost fz = *self;
                    self.active_tet = None;
                    proof {
                        let kept = kept_rows(frozen_grid(g0), NUM_ROWS as int);
                        lemma_kept_rows_len(frozen_grid(g0), NUM_ROWS as int);
                        assert forall|r: int| 0 <= r < NUM_ROWS - kept.len() implies self.row(r)
                            == empty_row_spec() by {
                            assert(self.row(r) == fz.row(r));
                            assert(fz.row(r) == empty_row_spec());
                        }
                        assert forall|k: int| 0 <= k < kept.len() implies self.row(
                            NUM_ROWS - kept.len() + k,
                        ) == kept[k] by {
                            assert(self.row(NUM_ROWS - kept.len() + k) == fz.row(
                                NUM_ROWS - kept.len() + k,
                            ));
                        }
                        assert(grid_cleared(g0, *self));
                    }
                }
                TickResult::Continue
            },
        };
        let ghost mid = *self;
        self.last_tick_ms = now_ms;
        proof {
            assert(g0 == *old(self));
            match g0.spec_active_tet() {
                None => {
                    let t = spawn_tet(kind);
                    if g0.spec_can_place(t) {
                        assert forall|r: int, c: int|
                            0 <= r < NUM_ROWS && 0 <= c < NUM_COLUMNS implies self.cell(r, c)
                            == placed_cell(g0, t, r, c) by {
                            assert(self.cell(r, c) == mid.cell(r, c));
                            assert(mid.cell(r, c) == placed_cell(g0, t, r, c));
                        }
                        assert(grid_placed(g0, *self, t));
                    } else {
                        assert forall|r: int, c: int|
                            0 <= r < NUM_ROWS && 0 <= c < NUM_COLUMNS implies self.cell(r, c)
                            == g0.cell(r, c) by {
                            assert(self.cell(r, c) == mid.cell(r, c));
                        }
                        assert(grid_unchanged(g0, *self));
                    }
                },
                Some(t0) => {
                    let t = move_candidate(t0, Move::Down);
                    if g0.spec_can_place(t) {
                        assert forall|r: int, c: int|
                            0 <= r < NUM_ROWS && 0 <= c < NUM_COLUMNS implies self.cell(r, c)
                            == placed_cell(g0, t, r, c) by {
                            assert(self.cell(r, c) == mid.cell(r, c));
                            assert(mid.cell(r, c) == placed_cell(g0, t, r, c));
                        }
                        assert(grid_placed(g0, *self, t));
                    } else {
                        let kept = kept_rows(frozen_grid(g0), NUM_ROWS as int);
                        lemma_kept_rows_len(frozen_grid(g0), NUM_ROWS as int);
                        assert forall|r: int| 0 <= r < NUM_ROWS - kept.len() implies self.row(r)
                            == empty_row_spec() by {
                            assert(self.row(r) == mid.row(r));
                            assert(mid.row(r) == empty_row_spec());
                        }
                        assert forall|k: int| 0 <= k < kept.len() implies self.row(
                            NUM_ROWS - kept.len() + k,
                        ) == kept[k] by {
                            assert(self.row(NUM_ROWS - kept.len() + k) == mid.row(
                                NUM_ROWS - kept.len() + k,
                            ));
                        }
                        assert(grid_cleared(g0, *self));
                    }
                },
            }
        }
        res
    }

    /// One gravity step, drawing the kind of a fresh piece uniformly at
    /// random where a spawn is due. Some drawn kind explains the step;
    /// when a piece is already falling, the step does not depend on the
    /// draw at all.
    pub fn tick(&mut self, now_ms: u64) -> (res: TickResult)
        requires
            old(self).wf(),
        ensures
            final(self).wf(),
            exists|kind: TetronimoKind| tick_rel(*old(self), *final(self), now_ms, kind, res),
            old(self).spec_active_tet() is Some ==> forall|kind: TetronimoKind|
                tick_rel(*old(self), *final(self), now_ms, kind, res),
    {
        let idx = random_piece_index();
        let kind = kind_from_index(idx);
        let res = self.tick_with_kind(now_ms, kind);
        proof {
            let pre = *old(self);
            assert(tick_rel(pre, *self, now_ms, kind, res));
            if pre.spec_active_tet() is Some {
                assert forall|k2: TetronimoKind| tick_rel(pre, *self, now_ms, k2, res) by {}
            }
        }
        res
    }

    /// Time-driven entry point: perform exactly one gravity step if more
    /// than the tick interval has elapsed since the last one, and
    /// otherwise do nothing at all.
    pub fn maybe_tick(&mut self, now_ms: u64)
        requires
            old(self).wf(),
        ensures
            final(self).wf(),
            if now_ms > old(self).spec_last_tick_ms() + old(self).spec_tick_interval_ms() {
                exists|kind: TetronimoKind, res: TickResult|
                    tick_rel(*old(self), *final(self), now_ms, kind, res)
            } else {
                *final(self) == *old(self)
            },
    {
        if now_ms > self.last_tick_ms && now_ms - self.last_tick_ms > self.tick_interval_ms {
            let _ = self.tick(now_ms);
        }
    }
}

} // verus!
