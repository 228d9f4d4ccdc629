use vstd::prelude::*;

verus! {

/// Width of one grid cell, in terminal columns.
pub const CELL_WIDTH: u16 = 8;

/// Height of one grid cell, in terminal rows.
pub const CELL_HEIGHT: u16 = 4;

/// Columns kept free beside the grid.
pub const GRID_MARGIN: u16 = 4;

/// Rows kept free below the grid, for the status lines.
pub const RESERVED_ROWS: u16 = 6;

/// Column of the first cell's left edge.
pub const FIRST_COLUMN: u16 = 2;

/// Row of the first cell's top edge.
pub const FIRST_ROW: u16 = 1;

/// Cells in one grid row for a terminal `cols` columns wide.
pub open spec fn items_per_row_spec(cols: int) -> int {
    if cols >= GRID_MARGIN {
        (cols - GRID_MARGIN) / (CELL_WIDTH as int)
    } else {
        0
    }
}

/// Grid rows that fit in a terminal `rows` rows high.
pub open spec fn grid_rows_spec(rows: int) -> int {
    if rows >= RESERVED_ROWS {
        (rows - RESERVED_ROWS) / (CELL_HEIGHT as int)
    } else {
        0
    }
}

/// How many cells the visible grid holds.
pub open spec fn capacity_spec(cols: int, rows: int) -> int {
    grid_rows_spec(rows) * items_per_row_spec(cols)
}

pub fn items_per_row(cols: u16) -> (r: u16)
    ensures
        r == items_per_row_spec(cols as int),
{
    cols.saturating_sub(GRID_MARGIN) / CELL_WIDTH
}

pub fn grid_rows(rows: u16) -> (r: u16)
    ensures
        r == grid_rows_spec(rows as int),
{
    rows.saturating_sub(RESERVED_ROWS) / CELL_HEIGHT
}

pub fn visible_capacity(cols: u16, rows: u16) -> (r: usize)
    ensures
        r == capacity_spec(cols as int, rows as int),
{
    let per_row = items_per_row(cols);
    let grid = grid_rows(rows);
    assert(grid as int * per_row as int <= 0xffff * 0xffff) by (nonlinear_arith)
        requires
            grid <= 0xffff,
            per_row <= 0xffff,
    ;
    (grid as u32 * per_row as u32) as usize
}

/// Keeps of `results` only what the visible grid holds, in order.
pub fn truncate_to_fit(results: &mut Vec<String>, cols: u16, rows: u16)
    ensures
        final(results)@ == old(results)@.subrange(
            0,
            if old(results)@.len() <= capacity_spec(cols as int, rows as int) {
                old(results)@.len() as int
            } else {
                capacity_spec(cols as int, rows as int)
            },
        ),
{
    let capacity = visible_capacity(cols, rows);
    results.truncate(capacity);
    proof {
        if capacity > old(results).len() {
            assert(old(results)@.subrange(0, old(results)@.len() as int) =~= old(results)@);
        }
    }
}

/// The screen position of a cell's top-left corner.
#[derive(Debug, Clone, Copy, PartialEq, Eq, Structural)]
pub struct Cell {
    pub x: u32,
    pub y: u32,
}

/// The cell of the `index`-th result in a grid of `per_row` cells a row.
pub open spec fn cell_spec(index: int, per_row: int) -> Cell {
    Cell {
        x: (FIRST_COLUMN + CELL_WIDTH * (index % per_row)) as u32,
        y: (FIRST_ROW + CELL_HEIGHT * (index / per_row)) as u32,
    }
}

/// Where the cell of the `index`-th result stands, for a terminal `cols`
/// columns wide: row `index / per_row`, column `index % per_row`.
pub fn cell_origin(index: u16, cols: u16) -> (r: Cell)
    requires
        items_per_row_spec(cols as int) > 0,
    ensures
        r == cell_spec(index as int, items_per_row_spec(cols as int)),
{
    let per_row = items_per_row(cols);
    let col = index % per_row;
    let row = index / per_row;
    assert(row <= index) by (nonlinear_arith)
        requires
            row == index / per_row,
            per_row > 0,
    ;
    assert(CELL_HEIGHT as u32 * row as u32 <= 4 * 0xffff) by (nonlinear_arith)
        requires
            CELL_HEIGHT == 4,
            row <= 0xffff,
    ;
    Cell {
        x: FIRST_COLUMN as u32 + CELL_WIDTH as u32 * col as u32,
        y: FIRST_ROW as u32 + CELL_HEIGHT as u32 * row as u32,
    }
}

/// A move of the selection in the grid.
#[derive(Debug, Clone, Copy, PartialEq, Eq, Structural)]
pub enum Direction {
    Up,
    Down,
    Left,
    Right,
}

/// Where a move takes the selection `s` among `items` results laid out
/// `per_row` a row, or `None` where the move is blocked: it would leave the
/// results or, for `Up` and `Down`, land on no row.
pub open spec fn move_target(d: Direction, s: int, items: int, per_row: int) -> Option<int> {
    match d {
        Direction::Up => if per_row > 0 && s >= per_row {
            Some(s - per_row)
        } else {
            None
        },
        Direction::Down => if per_row > 0 && s + per_row < items {
            Some(s + per_row)
        } else {
            None
        },
        Direction::Left => if s > 0 {
            Some(s - 1)
        } else {
            None
        },
        Direction::Right => if s + 1 < items {
            Some(s + 1)
        } else {
            None
        },
    }
}

/// Moves the selection; a move that happens records the index it left.
pub fn do_move(
    direction: Direction,
    selected_index: &mut u16,
    previously_selected_index: &mut Option<u16>,
    items: u16,
    cols: &u16,
)
    ensures
        match move_target(
            direction,
            *old(selected_index) as int,
            items as int,
            items_per_row_spec(*cols as int),
        ) {
            Some(n) => *final(selected_index) as int == n && *final(previously_selected_index)
                == Some(*old(selected_index)),
            None => *final(selected_index) == *old(selected_index)
                && *final(previously_selected_index) == *old(previously_selected_index),
        },
        *old(selected_index) < items ==> *final(selected_index) < items,
{
    let per_row = items_per_row(*cols);
    let s = *selected_index;
    match direction {
        Direction::Up => {
            if per_row > 0 && s >= per_row {
                *previously_selected_index = Some(s);
                *selected_index = s - per_row;
            }
        },
        Direction::Down => {
            if per_row > 0 && s < items && per_row < items - s {
                *previously_selected_index = Some(s);
                *selected_index = s + per_row;
            }
        },
        Direction::Left => {
            if s > 0 {
                *previously_selected_index = Some(s);
                *selected_index = s - 1;
            }
        },
        Direction::Right => {
            if s < items && s < items - 1 {
                *previously_selected_index = Some(s);
                *selected_index = s + 1;
            }
        },
    }
}

/// The selection after the moves `ds`, one after another, from `s`.
pub open spec fn after_moves(ds: Seq<Direction>, s: int, items: int, per_row: int) -> int
    decreases ds.len(),
{
    if ds.len() == 0 {
        s
    } else {
        let prior = after_moves(ds.drop_last(), s, items, per_row);
        match move_target(ds.last(), prior, items, per_row) {
            Some(n) => n,
            None => prior,
        }
    }
}

/// However many moves are made, a selection among the results stays among
/// them.
pub proof fn law_moves_stay_in_results(ds: Seq<Direction>, s: int, items: int, per_row: int)
    requires
        0 <= s < items,
    ensures
        0 <= after_moves(ds, s, items, per_row) < items,
    decreases ds.len(),
{
    if ds.len() > 0 {
        law_moves_stay_in_results(ds.drop_last(), s, items, per_row);
    }
}

/// Which cells a frame repaints after a move: the cell left, to clear, and
/// the cell selected, to highlight. Nothing else is written.
#[derive(Debug, Clone, Copy, PartialEq, Eq, Structural)]
pub struct RedrawPlan {
    pub clear: Option<Cell>,
    pub highlight: Option<Cell>,
}

/// The cell of `index` if it is one of `count` results on a grid with
/// `per_row` cells a row.
pub open spec fn cell_of_result(index: int, count: int, per_row: int) -> Option<Cell> {
    if per_row > 0 && 0 <= index < count {
        Some(cell_spec(index, per_row))
    } else {
        None
    }
}

fn result_cell(index: u16, count: usize, cols: u16) -> (r: Option<Cell>)
    ensures
        r == cell_of_result(index as int, count as int, items_per_row_spec(cols as int)),
{
    if items_per_row(cols) > 0 && (index as usize) < count {
        Some(cell_origin(index, cols))
    } else {
        None
    }
}

/// The repaint for one frame, from the previous and the current selection.
pub fn plan_redraw(previous: Option<u16>, selected: u16, count: usize, cols: u16) -> (r: RedrawPlan)
    ensures
        r.clear == match previous {
            Some(p) => cell_of_result(p as int, count as int, items_per_row_spec(cols as int)),
            None => None,
        },
        r.highlight == cell_of_result(selected as int, count as int, items_per_row_spec(cols as int)),
{
    let clear = match previous {
        Some(p) => result_cell(p, count, cols),
        None => None,
    };
    RedrawPlan { clear, highlight: result_cell(selected, count, cols) }
}

} // verus!
