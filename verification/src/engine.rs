use vstd::prelude::*;

use crate::cell::{color_for, emphasis_for, step_cell, Color, Content, Emphasis, Pixel};
use crate::cell::lemma_step_cell_wf;
use crate::{DENSITY_DENOMINATOR, DENSITY_NUMERATOR, MAX_STREAM_LENGTH, MIN_STREAM_LENGTH};

verus! {

/// An occupied cell that stays occupied through one aging step.
pub open spec fn survives(c: Pixel) -> bool {
    c.age >= 1 && c.age + 1 <= c.lifetime
}

/// The column holds at least one cell that stays occupied through this
/// tick's age pass; such a column takes no fresh spawn this tick.
pub open spec fn col_occupied(col: Seq<Pixel>) -> bool {
    exists|y: int| 0 <= y < col.len() && survives(#[trigger] col[y])
}

/// Well-formedness of one column between ticks: every cell keeps the cell
/// invariant, every occupied cell was given a lifetime of at least 2, and
/// at most one cell is a stream head (age 1).
pub open spec fn col_wf(col: Seq<Pixel>) -> bool {
    &&& forall|y: int| 0 <= y < col.len() ==> (#[trigger] col[y]).wf()
    &&& forall|y: int| 0 <= y < col.len() && (#[trigger] col[y]).age >= 1 ==> col[y].lifetime >= 2
    &&& forall|y1: int, y2: int|
        #![trigger col[y1], col[y2]]
        0 <= y1 < col.len() && 0 <= y2 < col.len() && col[y1].age == 1 && col[y2].age == 1
            ==> y1 == y2
}

/// The cell freshly activated as a head with the given lifetime: age 1,
/// brightest styling, and one of the two digit glyphs.
pub open spec fn is_activated(c: Pixel, lifetime: u8) -> bool {
    &&& c.age == 1
    &&& c.lifetime == lifetime
    &&& c.color == Color::BrightGreen
    &&& c.emphasis == Emphasis::Normal
    &&& (c.content == Content::Zero || c.content == Content::One)
}

/// Row `y` is the in-grid target of a continuation this tick: the row just
/// above it held a stream head (age 1) when the tick began.
pub open spec fn continues_to(col: Seq<Pixel>, y: int) -> bool {
    1 <= y < col.len() && col[y - 1].age == 1
}

/// What one tick does to the cell at row `y` of a column, given the spawn
/// decision for that column: a continuation target is activated with the
/// lifetime its head carried; otherwise the top cell of a column that kept
/// no occupant is activated with the spawned lifetime, if a spawn was
/// decided; every other cell just ages in place.
pub open spec fn cell_ticked(
    before: Seq<Pixel>,
    after: Seq<Pixel>,
    spawn: Option<u8>,
    y: int,
) -> bool {
    if continues_to(before, y) {
        is_activated(after[y], before[y - 1].lifetime)
    } else if y == 0 && !col_occupied(before) {
        match spawn {
            Some(lifetime) => is_activated(after[0], lifetime),
            None => after[y] == step_cell(before[y]),
        }
    } else {
        after[y] == step_cell(before[y])
    }
}

/// What one tick does to a whole column.
pub open spec fn column_ticked(before: Seq<Pixel>, after: Seq<Pixel>, spawn: Option<u8>) -> bool {
    &&& after.len() == before.len()
    &&& forall|y: int| 0 <= y < before.len() ==> #[trigger] cell_ticked(before, after, spawn, y)
}

/// One tick's age pass and continuation pass over a single column: every
/// occupied cell is advanced in place, and if the column held a stream head
/// (age 1), the cell one row below it — when that row exists — is activated
/// with the lifetime the head carried and a fresh random glyph. Returns
/// whether any cell of the column remained occupied through the age pass.
fn age_and_continue(col: &mut Vec<Pixel>) -> (occupied: bool)
    requires
        col_wf(old(col)@),
    ensures
        final(col)@.len() == old(col)@.len(),
        occupied == col_occupied(old(col)@),
        column_ticked(old(col)@, final(col)@, None),
{
    let mut cont_lifetime: u8 = 0;
    let mut cont_row: usize = 0;
    let mut has_cont: bool = false;
    let mut occupied: bool = false;
    let mut y: usize = 0;
    while y < col.len()
        invariant
            col_wf(old(col)@),
            y <= col@.len(),
            col@.len() == old(col)@.len(),
            forall|j: int| 0 <= j < y as int ==> col@[j] == step_cell(#[trigger] old(col)@[j]),
            forall|j: int| y as int <= j < col@.len() ==> col@[j] == #[trigger] old(col)@[j],
            occupied <==> exists|j: int| 0 <= j < y as int && survives(#[trigger] old(col)@[j]),
            has_cont <==> exists|j: int| 0 <= j < y as int && (#[trigger] old(col)@[j]).age == 1,
            has_cont ==> 1 <= cont_row <= y as int && old(col)@[cont_row - 1].age == 1
                && cont_lifetime == old(col)@[cont_row - 1].lifetime,
        decreases col@.len() - y,
    {
        let c = col[y];
        if c.age >= 1 {
            if c.age == 1 {
                has_cont = true;
                cont_row = y + 1;
                cont_lifetime = c.lifetime;
            }
            let mut p = c;
            p.advance();
            col[y] = p;
            if p.age >= 1 {
                occupied = true;
            }
            proof {
                assert(c == old(col)@[y as int]);
                if survives(c) {
                    assert(survives(old(col)@[y as int]));
                    assert(exists|j: int|
                        0 <= j < y as int + 1 && survives(#[trigger] old(col)@[j]));
                }
                if c.age == 1 {
                    assert((old(col)@[y as int]).age == 1);
                    assert(exists|j: int|
                        0 <= j < y as int + 1 && (#[trigger] old(col)@[j]).age == 1);
                }
            }
        }
        y = y + 1;
    }
    let ghost aged = col@;
    if has_cont {
        if cont_row < col.len() {
            let mut p = col[cont_row];
            let glyph = p.new_content();
            proof {
                // The head the continuation came from was occupied, so the
                // column invariant gives it a lifetime of at least 2.
                assert(old(col)@[cont_row - 1].wf());
            }
            p.activate(cont_lifetime, glyph);
            col[cont_row] = p;
        }
    }
    proof {
        assert forall|yy: int| 0 <= yy < old(col)@.len() implies #[trigger] cell_ticked(
            old(col)@,
            col@,
            None,
            yy,
        ) by {
            if continues_to(old(col)@, yy) {
                // There is a head at yy - 1, so the loop recorded a
                // continuation, and by uniqueness of heads it is this one.
                assert(old(col)@[yy - 1].age == 1);
                assert(has_cont);
                assert(old(col)@[cont_row - 1].age == 1);
                assert(cont_row - 1 == yy - 1);
                assert(col@[yy] == aged.update(cont_row as int, col@[cont_row as int])[yy]);
            } else {
                if has_cont && cont_row < aged.len() {
                    assert(cont_row != yy);
                    assert(col@[yy] == aged[yy]);
                } else {
                    assert(col@[yy] == aged[yy]);
                }
            }
        }
    }
    occupied
}

/// One tick keeps a column well formed, and in particular never leaves two
/// stream heads (age 1) in it at once: the spawn pass skips a column in
/// which any cell stayed occupied, so a fresh head and a continuation head
/// cannot both appear, and aged cells are never at age 1.
pub proof fn lemma_tick_preserves_column(before: Seq<Pixel>, after: Seq<Pixel>, spawn: Option<u8>)
    requires
        col_wf(before),
        column_ticked(before, after, spawn),
        spawn matches Some(lifetime) ==> lifetime >= 2,
    ensures
        col_wf(after),
        forall|y1: int, y2: int|
            #![trigger after[y1], after[y2]]
            0 <= y1 < after.len() && 0 <= y2 < after.len() && after[y1].age == 1
                && after[y2].age == 1 ==> y1 == y2,
{
    assert forall|y: int| 0 <= y < after.len() implies (#[trigger] after[y]).wf()
        && (after[y].age >= 1 ==> after[y].lifetime >= 2) by {
        assert(cell_ticked(before, after, spawn, y));
        if continues_to(before, y) {
            assert(before[y - 1].wf());
        } else if y == 0 && !col_occupied(before) && spawn is Some {
        } else {
            assert(before[y].wf());
            lemma_step_cell_wf(before[y]);
        }
    }
    assert forall|y1: int, y2: int|
        #![trigger after[y1], after[y2]]
        0 <= y1 < after.len() && 0 <= y2 < after.len() && after[y1].age == 1
            && after[y2].age == 1 implies y1 == y2 by {
        assert(cell_ticked(before, after, spawn, y1));
        assert(cell_ticked(before, after, spawn, y2));
        // A cell that merely aged cannot be at age 1 afterwards, so both
        // rows were activated this tick: each is the continuation target of
        // a head, or row 0 of a column that kept no occupant.
        if continues_to(before, y1) && continues_to(before, y2) {
            assert(before[y1 - 1].age == 1 && before[y2 - 1].age == 1);
        } else if continues_to(before, y1) && !continues_to(before, y2) {
            // The head above y1 was occupied with lifetime at least 2, so it
            // survives the age pass and the column took no spawn.
            assert(before[y1 - 1].wf());
            assert(survives(before[y1 - 1]));
            assert(col_occupied(before));
            assert(after[y2] == step_cell(before[y2]));
        } else if !continues_to(before, y1) && continues_to(before, y2) {
            assert(before[y2 - 1].wf());
            assert(survives(before[y2 - 1]));
            assert(col_occupied(before));
            assert(after[y1] == step_cell(before[y1]));
        } else {
            if !(y1 == 0 && !col_occupied(before) && spawn is Some) {
                assert(after[y1] == step_cell(before[y1]));
            }
            if !(y2 == 0 && !col_occupied(before) && spawn is Some) {
                assert(after[y2] == step_cell(before[y2]));
            }
        }
    }
}

/// The head of a fresh stream looks the same whatever its lifetime: a tick
/// that spawned into an unoccupied column leaves its top cell at age 1,
/// bright green, without emphasis, carrying exactly the decided lifetime.
pub proof fn lemma_spawned_head(before: Seq<Pixel>, after: Seq<Pixel>, lifetime: u8)
    requires
        col_wf(before),
        column_ticked(before, after, Some(lifetime)),
        !col_occupied(before),
        before.len() > 0,
    ensures
        after[0].age == 1,
        after[0].lifetime == lifetime,
        after[0].color == Color::BrightGreen,
        after[0].emphasis == Emphasis::Normal,
        after[0].content != Content::Empty,
{
    assert(cell_ticked(before, after, Some(lifetime), 0));
    assert(!continues_to(before, 0));
}

/// A stream's head hands its lifetime on: if row `r` held a head with some
/// lifetime when a tick began, then after the tick row `r` is the body of
/// the stream at age 2 with that same lifetime, and row `r + 1` — when it
/// exists — is the new head, again with that same lifetime.
pub proof fn lemma_continuation_round_trip(
    before: Seq<Pixel>,
    after: Seq<Pixel>,
    spawn: Option<u8>,
    r: int,
)
    requires
        col_wf(before),
        column_ticked(before, after, spawn),
        0 <= r < before.len(),
        before[r].age == 1,
    ensures
        after[r].age == 2,
        after[r].lifetime == before[r].lifetime,
        r + 1 < before.len() ==> is_activated(after[r + 1], before[r].lifetime),
{
    assert(before[r].wf());
    assert(survives(before[r]));
    assert(col_occupied(before));
    assert(cell_ticked(before, after, spawn, r));
    if continues_to(before, r) {
        assert(before[r - 1].age == 1 && before[r].age == 1);
        assert(false);
    }
    assert(after[r] == step_cell(before[r]));
    if r + 1 < before.len() {
        assert(cell_ticked(before, after, spawn, r + 1));
        assert(continues_to(before, r + 1));
    }
}

/// A continuation aimed past the bottom edge is dropped without touching
/// any cell: when the only head sits in the last row, the tick leaves every
/// cell of the column simply aged in place, and activates nothing.
pub proof fn lemma_bottom_continuation_dropped(
    before: Seq<Pixel>,
    after: Seq<Pixel>,
    spawn: Option<u8>,
)
    requires
        col_wf(before),
        column_ticked(before, after, spawn),
        before.len() > 0,
        before[before.len() - 1].age == 1,
    ensures
        forall|y: int| 0 <= y < after.len() ==> #[trigger] after[y] == step_cell(before[y]),
{
    let bottom = before.len() - 1;
    assert(before[bottom].wf());
    assert(survives(before[bottom]));
    assert(col_occupied(before));
    assert forall|y: int| 0 <= y < after.len() implies #[trigger] after[y] == step_cell(
        before[y],
    ) by {
        assert(cell_ticked(before, after, spawn, y));
        if continues_to(before, y) {
            assert(before[y - 1].age == 1 && before[bottom].age == 1);
            assert(y - 1 == bottom);
            assert(false);
        }
    }
}

/// One full tick of a single column, with the spawn decision for that
/// column handed in: the age pass, the continuation pass, and — when the
/// column kept no occupant and a spawn was decided — the activation of the
/// top cell with the decided lifetime and a fresh random glyph.
fn tick_column(col: &mut Vec<Pixel>, spawn: Option<u8>)
    requires
        col_wf(old(col)@),
        spawn matches Some(lifetime) ==> lifetime >= 2,
    ensures
        final(col)@.len() == old(col)@.len(),
        column_ticked(old(col)@, final(col)@, spawn),
        col_wf(final(col)@),
{
    let ghost before = old(col)@;
    let occupied = age_and_continue(col);
    let ghost aged = col@;
    if !occupied {
        if let Some(lifetime) = spawn {
            if col.len() > 0 {
                let mut p = col[0];
                let glyph = p.new_content();
                p.activate(lifetime, glyph);
                col[0] = p;
            }
        }
    }
    proof {
        assert forall|y: int| 0 <= y < before.len() implies #[trigger] cell_ticked(
            before,
            col@,
            spawn,
            y,
        ) by {
            assert(cell_ticked(before, aged, None, y));
            if y == 0 && !col_occupied(before) && spawn is Some {
                assert(!continues_to(before, 0));
            } else if col@ != aged {
                assert(col@ == aged.update(0, col@[0]));
                if y != 0 {
                    assert(col@[y] == aged[y]);
                }
            }
        }
        lemma_tick_preserves_column(before, col@, spawn);
    }
}

/// One tick over every column of the table, with the spawn decision for
/// each column handed in alongside it.
fn tick_columns(grid: &mut Vec<Vec<Pixel>>, spawns: &Vec<Option<u8>>)
    requires
        spawns@.len() == old(grid)@.len(),
        forall|i: int| 0 <= i < old(grid)@.len() ==> col_wf((#[trigger] old(grid)@[i])@),
        forall|i: int|
            0 <= i < spawns@.len() ==> ((#[trigger] spawns@[i]) matches Some(lifetime)
                ==> lifetime >= 2),
    ensures
        final(grid)@.len() == old(grid)@.len(),
        forall|i: int|
            0 <= i < old(grid)@.len() ==> col_wf((#[trigger] final(grid)@[i])@) && column_ticked(
                old(grid)@[i]@,
                final(grid)@[i]@,
                spawns@[i],
            ),
{
    let mut x: usize = 0;
    while x < grid.len()
        invariant
            spawns@.len() == old(grid)@.len(),
            forall|i: int| 0 <= i < old(grid)@.len() ==> col_wf((#[trigger] old(grid)@[i])@),
            forall|i: int|
                0 <= i < spawns@.len() ==> ((#[trigger] spawns@[i]) matches Some(lifetime)
                    ==> lifetime >= 2),
            x <= grid@.len(),
            grid@.len() == old(grid)@.len(),
            forall|i: int| x as int <= i < grid@.len() ==> #[trigger] grid@[i] == old(grid)@[i],
            forall|i: int|
                0 <= i < x as int ==> col_wf((#[trigger] grid@[i])@) && column_ticked(
                    old(grid)@[i]@,
                    grid@[i]@,
                    spawns@[i],
                ),
        decreases grid@.len() - x,
    {
        let spawn = spawns[x];
        tick_column(&mut grid[x], spawn);
        x = x + 1;
    }
}

/// The full cell table of the rain simulation, one inner vector per screen
/// column, each holding that column's cells from the top row down.
pub struct Screen {
    pub grid: Vec<Vec<Pixel>>,
    pub columns: u16,
    pub rows: u16,
}

impl Screen {
    /// The cells of column `x`, top row first.
    pub open spec fn col(self, x: int) -> Seq<Pixel> {
        self.grid@[x]@
    }

    /// Well-formedness of the whole table: one inner vector per column,
    /// each of the advertised height and itself well formed.
    pub open spec fn wf(self) -> bool {
        &&& self.grid@.len() == self.columns as int
        &&& forall|x: int|
            0 <= x < self.grid@.len() ==> (#[trigger] self.grid@[x])@.len() == self.rows as int
        &&& forall|x: int| 0 <= x < self.grid@.len() ==> col_wf((#[trigger] self.grid@[x])@)
    }

    /// Build the table for a `columns` by `rows` grid, every cell blank.
    pub fn new(columns: u16, rows: u16) -> (s: Screen)
        ensures
            s.wf(),
            s.columns == columns,
            s.rows == rows,
            forall|x: int, y: int|
                0 <= x < columns && 0 <= y < rows ==> #[trigger] s.col(x)[y] == Pixel::blank(),
    {
        let mut grid: Vec<Vec<Pixel>> = Vec::new();
        let mut x: u16 = 0;
        while x < columns
            invariant
                x <= columns,
                grid@.len() == x as int,
                forall|i: int| 0 <= i < x as int ==> (#[trigger] grid@[i])@.len() == rows as int,
                forall|i: int, j: int|
                    #![trigger grid@[i]@[j]]
                    0 <= i < x as int && 0 <= j < rows as int ==> grid@[i]@[j] == Pixel::blank(),
            decreases columns - x,
        {
            let mut column: Vec<Pixel> = Vec::new();
            let mut y: u16 = 0;
            while y < rows
                invariant
                    y <= rows,
                    column@.len() == y as int,
                    forall|j: int| 0 <= j < y as int ==> #[trigger] column@[j] == Pixel::blank(),
                decreases rows - y,
            {
                column.push(Pixel::default());
                y = y + 1;
            }
            grid.push(column);
            x = x + 1;
        }
        let s = Screen { grid, columns, rows };
        proof {
            assert forall|x0: int| 0 <= x0 < s.grid@.len() implies col_wf(
                (#[trigger] s.grid@[x0])@,
            ) by {
                assert(forall|j: int|
                    0 <= j < rows as int ==> (#[trigger] s.grid@[x0]@[j]) == Pixel::blank());
            }
        }
        s
    }

    /// One simulation tick with the spawn decision for every column handed
    /// in: `spawns` holds, for each column, `None` for no spawn attempt, or
    /// the lifetime a fresh stream head is to be given if the column kept
    /// no occupant through its age pass. Each column ages, propagates its
    /// continuation one row down, and takes its decided spawn.
    pub fn tick_step(&mut self, spawns: &Vec<Option<u8>>)
        requires
            old(self).wf(),
            spawns@.len() == old(self).columns as int,
            forall|x: int|
                0 <= x < spawns@.len() ==> ((#[trigger] spawns@[x]) matches Some(lifetime)
                    ==> lifetime >= 2),
        ensures
            final(self).wf(),
            final(self).columns == old(self).columns,
            final(self).rows == old(self).rows,
            forall|x: int|
                0 <= x < old(self).columns as int ==> column_ticked(
                    old(self).col(x),
                    #[trigger] final(self).col(x),
                    spawns@[x],
                ),
    {
        tick_columns(&mut self.grid, spawns);
        proof {
            assert forall|x: int| 0 <= x < self.grid@.len() implies col_wf(
                (#[trigger] self.grid@[x])@,
            ) && self.grid@[x]@.len() == self.rows as int && column_ticked(
                old(self).col(x),
                self.col(x),
                spawns@[x],
            ) by {
                assert(col_wf((old(self).grid@[x])@));
                assert(col_wf((self.grid@[x])@) && column_ticked(
                    old(self).grid@[x]@,
                    self.grid@[x]@,
                    spawns@[x],
                ));
            }
        }
    }

    /// One simulation tick with the spawn decisions drawn at random: each
    /// column gets an independent Bernoulli trial with the density
    /// constant's probability, and on success a lifetime drawn uniformly
    /// from the configured inclusive range. A column that kept an occupant
    /// through its age pass ignores its draw, so at most one stream falls
    /// per column at a time. Returns the decisions that were drawn, one per
    /// column: `None` for no spawn attempt, or the lifetime the column's
    /// fresh head was to be given.
    pub fn tick(&mut self) -> (spawns: Vec<Option<u8>>)
        requires
            old(self).wf(),
        ensures
            final(self).wf(),
            final(self).columns == old(self).columns,
            final(self).rows == old(self).rows,
            spawns@.len() == old(self).columns as int,
            forall|x: int|
                0 <= x < spawns@.len() ==> ((#[trigger] spawns@[x]) matches Some(lifetime)
                    ==> MIN_STREAM_LENGTH <= lifetime <= MAX_STREAM_LENGTH),
            forall|x: int|
                0 <= x < old(self).columns as int ==> column_ticked(
                    old(self).col(x),
                    #[trigger] final(self).col(x),
                    spawns@[x],
                ),
    {
        let mut spawns: Vec<Option<u8>> = Vec::new();
        let columns = self.grid.len();
        while spawns.len() < columns
            invariant
                spawns@.len() <= columns as int,
                forall|i: int|
                    0 <= i < spawns@.len() ==> ((#[trigger] spawns@[i]) matches Some(lifetime)
                        ==> MIN_STREAM_LENGTH <= lifetime <= MAX_STREAM_LENGTH),
            decreases columns - spawns@.len(),
        {
            let decision: Option<u8> = if crate::random::random_ratio(
                DENSITY_NUMERATOR,
                DENSITY_DENOMINATOR,
            ) {
                Some(crate::random::random_in_range(MIN_STREAM_LENGTH, MAX_STREAM_LENGTH))
            } else {
                None
            };
            spawns.push(decision);
        }
        self.tick_step(&spawns);
        spawns
    }
    /// Read the cell at column `x`, row `y`.
    pub fn get(&self, x: u16, y: u16) -> (p: Pixel)
        requires
            self.wf(),
            x < self.columns,
            y < self.rows,
        ensures
            p == self.col(x as int)[y as int],
    {
        self.grid[x as usize][y as usize]
    }
}

} // verus!
