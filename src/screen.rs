//! The 64x32 monochrome framebuffer and its XOR sprite blit.
use vstd::prelude::*;
use vstd::arithmetic::div_mod::{
    lemma_add_mod_noop, lemma_fundamental_div_mod, lemma_fundamental_div_mod_converse,
    lemma_mod_bound,
};

verus! {

/// Columns of the display.
pub const WIDTH: usize = 64;

/// Rows of the display.
pub const HEIGHT: usize = 32;

/// Cells of the display.
pub const CELLS: usize = 2048;

/// The colour that `to_buffer` gives a lit cell.
pub const ON_COLOUR: u32 = 0xFF0000;

/// Whether column `c` (0 is the most significant bit) of a sprite row is set.
pub open spec fn sprite_bit(b: u8, c: int) -> bool {
    (b >> ((7 - c) as u8)) & 1u8 == 1u8
}

/// How many columns cell `i` lies to the right of column `x`, wrapping.
pub open spec fn col_offset(x: int, i: int) -> int {
    (i % 64 + 64 - x % 64) % 64
}

/// Whether the first `lim` columns of sprite row `b`, drawn with its left edge
/// at column `x` in display row `row` (both wrapping), toggle cell `i`.
pub open spec fn row_hits_upto(x: int, row: int, b: u8, i: int, lim: int) -> bool {
    &&& i / 64 == row % 32
    &&& col_offset(x, i) < lim
    &&& sprite_bit(b, col_offset(x, i))
}

/// Whether sprite row `b` at column `x`, display row `row` toggles cell `i`.
pub open spec fn row_hits(x: int, row: int, b: u8, i: int) -> bool {
    row_hits_upto(x, row, b, i, 8)
}

/// The screen `s` with one sprite row XOR-ed onto it.
pub open spec fn xor_row(s: Seq<bool>, x: int, row: int, b: u8) -> Seq<bool> {
    Seq::new(s.len(), |i: int| s[i] != row_hits(x, row, b, i))
}

/// Whether XOR-ing one sprite row onto `s` turns a lit cell off.
pub open spec fn row_collides(s: Seq<bool>, x: int, row: int, b: u8) -> bool {
    exists|i: int| 0 <= i < s.len() && s[i] && #[trigger] row_hits(x, row, b, i)
}

/// The screen `s` with `sprite` drawn at `(x, y)`: row `k` of the sprite is
/// XOR-ed onto display row `y + k`, wrapping.
pub open spec fn drawn(s: Seq<bool>, x: int, y: int, sprite: Seq<u8>) -> Seq<bool>
    decreases sprite.len(),
{
    if sprite.len() == 0 {
        s
    } else {
        xor_row(drawn(s, x, y, sprite.drop_last()), x, y + sprite.len() - 1, sprite.last())
    }
}

/// Whether drawing `sprite` at `(x, y)` onto `s` turns some lit cell off.
pub open spec fn collides(s: Seq<bool>, x: int, y: int, sprite: Seq<u8>) -> bool
    decreases sprite.len(),
{
    if sprite.len() == 0 {
        false
    } else {
        collides(s, x, y, sprite.drop_last()) || row_collides(
            drawn(s, x, y, sprite.drop_last()),
            x,
            y + sprite.len() - 1,
            sprite.last(),
        )
    }
}

/// The cell at column `x`, row `y`.
pub open spec fn cell_index(x: int, y: int) -> int {
    y * 64 + x
}

/// The colour of a cell in the frame buffer.
pub open spec fn colour(on: bool) -> u32 {
    if on {
        ON_COLOUR
    } else {
        0
    }
}

proof fn lemma_mod64(v: int)
    requires
        0 <= v < 128,
    ensures
        v % 64 == if v < 64 {
            v
        } else {
            v - 64
        },
{
    if v < 64 {
        lemma_fundamental_div_mod_converse(v, 64, 0, v);
    } else {
        lemma_fundamental_div_mod_converse(v, 64, 1, v - 64);
    }
}

/// Cell `t` is where column `c` of a sprite row at column `x`, display row
/// `row` lands, and no other cell of that row has the same offset.
proof fn lemma_target(x: int, row: int, c: int, i: int)
    requires
        0 <= x,
        0 <= row < 32,
        0 <= c < 8,
        0 <= i < CELLS,
    ensures
        ({
            let t = row * 64 + (x % 64 + c) % 64;
            &&& 0 <= t < CELLS
            &&& t / 64 == row
            &&& col_offset(x, t) == c
            &&& (i / 64 == row && col_offset(x, i) == c) <==> i == t
        }),
{
    let xm = x % 64;
    let m = (xm + c) % 64;
    lemma_mod64(xm + c);
    let t = row * 64 + m;
    lemma_fundamental_div_mod_converse(t, 64, row, m);
    lemma_mod64(m + 64 - xm);
    let im = i % 64;
    lemma_fundamental_div_mod(i, 64);
    lemma_mod64(im + 64 - xm);
}

/// Whether an odd number of the rows of `sprite` drawn at `(x, y)` toggle
/// cell `i`.
pub open spec fn toggled(x: int, y: int, sprite: Seq<u8>, i: int) -> bool
    decreases sprite.len(),
{
    if sprite.len() == 0 {
        false
    } else {
        toggled(x, y, sprite.drop_last(), i) != row_hits(
            x,
            y + sprite.len() - 1,
            sprite.last(),
            i,
        )
    }
}

/// Drawing a sprite flips exactly the cells that its rows toggle an odd
/// number of times.
pub proof fn lemma_drawn_cells(s: Seq<bool>, x: int, y: int, sprite: Seq<u8>)
    ensures
        drawn(s, x, y, sprite).len() == s.len(),
        forall|i: int|
            0 <= i < s.len() ==> #[trigger] drawn(s, x, y, sprite)[i] == (s[i] != toggled(
                x,
                y,
                sprite,
                i,
            )),
    decreases sprite.len(),
{
    if sprite.len() > 0 {
        lemma_drawn_cells(s, x, y, sprite.drop_last());
    }
}

proof fn lemma_toggled_row(x: int, y: int, sprite: Seq<u8>, i: int)
    requires
        toggled(x, y, sprite, i),
    ensures
        exists|j: int| 0 <= j < sprite.len() && i / 64 == #[trigger] ((y + j) % 32),
    decreases sprite.len(),
{
    let n = sprite.len() as int;
    if toggled(x, y, sprite.drop_last(), i) {
        lemma_toggled_row(x, y, sprite.drop_last(), i);
        let j = choose|j: int| 0 <= j < n - 1 && i / 64 == #[trigger] ((y + j) % 32);
        assert(0 <= j < n && i / 64 == (y + j) % 32);
    } else {
        assert(i / 64 == (y + (n - 1)) % 32);
    }
}

proof fn lemma_rows_distinct(y: int, j: int, k: int)
    requires
        0 <= y,
        0 <= j < k < 32,
    ensures
        (y + j) % 32 != (y + k) % 32,
{
    lemma_fundamental_div_mod(y + j, 32);
    lemma_fundamental_div_mod(y + k, 32);
    lemma_mod_bound(y + j, 32);
    lemma_mod_bound(y + k, 32);
}

/// In a sprite of at most 32 rows, a cell that one row toggles is toggled
/// by that row alone.
proof fn lemma_toggled_exact(x: int, y: int, sprite: Seq<u8>, j: int, i: int)
    requires
        0 <= y,
        sprite.len() <= 32,
        0 <= j < sprite.len(),
        row_hits(x, y + j, sprite[j], i),
    ensures
        toggled(x, y, sprite, i),
    decreases sprite.len(),
{
    let n = sprite.len() as int;
    if j == n - 1 {
        if toggled(x, y, sprite.drop_last(), i) {
            lemma_toggled_row(x, y, sprite.drop_last(), i);
            let k = choose|k: int| 0 <= k < n - 1 && i / 64 == #[trigger] ((y + k) % 32);
            lemma_rows_distinct(y, k, n - 1);
        }
    } else {
        lemma_rows_distinct(y, j, n - 1);
        assert(sprite.drop_last()[j] == sprite[j]);
        lemma_toggled_exact(x, y, sprite.drop_last(), j, i);
    }
}

/// Drawing the same sprite twice at the same place restores the screen:
/// every cell the first draw turned on, the second turns off again.
pub proof fn lemma_draw_twice_restores(s: Seq<bool>, x: usize, y: usize, sprite: Seq<u8>)
    ensures
        drawn(drawn(s, x as int, y as int, sprite), x as int, y as int, sprite) == s,
{
    let s1 = drawn(s, x as int, y as int, sprite);
    lemma_drawn_cells(s, x as int, y as int, sprite);
    lemma_drawn_cells(s1, x as int, y as int, sprite);
    assert(drawn(s1, x as int, y as int, sprite) =~= s);
}

/// A sprite of at most 32 rows drawn onto a blank screen reports no
/// collision.
pub proof fn lemma_blank_draw_no_collision(s: Seq<bool>, x: usize, y: usize, sprite: Seq<u8>)
    requires
        sprite.len() <= HEIGHT,
        forall|i: int| 0 <= i < s.len() ==> !s[i],
    ensures
        !collides(s, x as int, y as int, sprite),
    decreases sprite.len(),
{
    let n = sprite.len() as int;
    if n > 0 {
        let rest = sprite.drop_last();
        lemma_blank_draw_no_collision(s, x, y, rest);
        let s1 = drawn(s, x as int, y as int, rest);
        lemma_drawn_cells(s, x as int, y as int, rest);
        assert forall|i: int|
            0 <= i < s1.len() && s1[i] implies !#[trigger] row_hits(
            x as int,
            y + n - 1,
            sprite.last(),
            i,
        ) by {
            lemma_toggled_row(x as int, y as int, rest, i);
            let j = choose|j: int| 0 <= j < n - 1 && i / 64 == #[trigger] ((y + j) % 32);
            lemma_rows_distinct(y as int, j, n - 1);
        }
    }
}

proof fn lemma_collides_prefix(s: Seq<bool>, x: int, y: int, sprite: Seq<u8>, k: int)
    requires
        0 <= k <= sprite.len(),
        collides(s, x, y, sprite.subrange(0, k)),
    ensures
        collides(s, x, y, sprite),
    decreases sprite.len(),
{
    if k < sprite.len() {
        assert(sprite.drop_last().subrange(0, k) =~= sprite.subrange(0, k));
        lemma_collides_prefix(s, x, y, sprite.drop_last(), k);
    } else {
        assert(sprite.subrange(0, k) =~= sprite);
    }
}

/// After a sprite of at most 32 rows with a set bit (column `c` of row `k`)
/// is drawn onto a blank screen, drawing it again at the same place reports
/// a collision.
pub proof fn lemma_redraw_collides(
    s: Seq<bool>,
    x: usize,
    y: usize,
    sprite: Seq<u8>,
    k: int,
    c: int,
)
    requires
        s.len() == CELLS,
        forall|i: int| 0 <= i < s.len() ==> !s[i],
        sprite.len() <= HEIGHT,
        0 <= k < sprite.len(),
        0 <= c < 8,
        sprite_bit(sprite[k], c),
    ensures
        collides(drawn(s, x as int, y as int, sprite), x as int, y as int, sprite),
{
    let (xi, yi) = (x as int, y as int);
    let s1 = drawn(s, xi, yi, sprite);
    lemma_drawn_cells(s, xi, yi, sprite);
    let pre = sprite.subrange(0, k);
    let pre1 = sprite.subrange(0, k + 1);
    let row = (yi + k) % 32;
    lemma_mod_bound(yi + k, 32);
    let t = row * 64 + (xi % 64 + c) % 64;
    lemma_target(xi, row, c, 0);
    assert(row_hits(xi, yi + k, sprite[k], t));
    lemma_toggled_exact(xi, yi, sprite, k, t);
    lemma_drawn_cells(s1, xi, yi, pre);
    if toggled(xi, yi, pre, t) {
        lemma_toggled_row(xi, yi, pre, t);
        let j = choose|j: int| 0 <= j < k && t / 64 == #[trigger] ((yi + j) % 32);
        lemma_rows_distinct(yi, j, k);
    }
    assert(pre1.drop_last() =~= pre);
    assert(drawn(s1, xi, yi, pre)[t]);
    assert(row_collides(drawn(s1, xi, yi, pre), xi, yi + k, sprite[k]));
    assert(collides(s1, xi, yi, pre1));
    lemma_collides_prefix(s1, xi, yi, sprite, k + 1);
}

/// The display: its view holds the cells row by row, `true` for lit.
pub struct Screen {
    cells: Vec<bool>,
}

impl View for Screen {
    type V = Seq<bool>;

    closed spec fn view(&self) -> Seq<bool> {
        self.cells@
    }
}

impl Screen {
    /// Every cell of the display exists.
    pub open spec fn wf(&self) -> bool {
        self@.len() == CELLS
    }

    /// A display with every cell lit.
    pub fn new() -> (r: Screen)
        ensures
            r.wf(),
            r@ == Seq::new(CELLS as nat, |i: int| true),
    {
        let mut cells: Vec<bool> = Vec::new();
        let mut k: usize = 0;
        while k < CELLS
            invariant
                k <= CELLS,
                cells@ == Seq::new(k as nat, |i: int| true),
            decreases CELLS - k,
        {
            cells.push(true);
            k = k + 1;
            assert(cells@ =~= Seq::new(k as nat, |i: int| true));
        }
        Screen { cells }
    }

    /// The cell at column `x`, row `y`, if it exists.
    pub fn get(&self, x: usize, y: usize) -> (r: Option<bool>)
        requires
            self.wf(),
        ensures
            x < WIDTH && y < HEIGHT ==> r == Some(self@[cell_index(x as int, y as int)]),
            !(x < WIDTH && y < HEIGHT) ==> r == None::<bool>,
    {
        if x < WIDTH && y < HEIGHT {
            Some(self.cells[y * WIDTH + x])
        } else {
            None
        }
    }

    /// Sets the cell at column `x`, row `y`; fails, changing nothing, when
    /// it does not exist.
    pub fn set(&mut self, value: bool, x: usize, y: usize) -> (r: Result<(), ()>)
        requires
            old(self).wf(),
        ensures
            final(self).wf(),
            x < WIDTH && y < HEIGHT ==> r == Ok::<(), ()>(()) && final(self)@ == old(
                self,
            )@.update(cell_index(x as int, y as int), value),
            !(x < WIDTH && y < HEIGHT) ==> r == Err::<(), ()>(()) && final(self)@ == old(
                self,
            )@,
    {
        if x < WIDTH && y < HEIGHT {
            self.cells[y * WIDTH + x] = value;
            Ok(())
        } else {
            Err(())
        }
    }

    /// Turns every cell off.
    pub fn clear(&mut self)
        requires
            old(self).wf(),
        ensures
            final(self).wf(),
            final(self)@ == Seq::new(CELLS as nat, |i: int| false),
    {
        let mut k: usize = 0;
        while k < CELLS
            invariant
                k <= CELLS,
                self@.len() == CELLS,
                forall|i: int| 0 <= i < k ==> !self@[i],
            decreases CELLS - k,
        {
            self.cells[k] = false;
            k = k + 1;
        }
        assert(self@ =~= Seq::new(CELLS as nat, |i: int| false));
    }

    /// XORs one sprite row onto display row `row`, its left edge at column
    /// `x` (wrapping); returns whether a lit cell went off.
    fn draw_row(&mut self, x: usize, row: usize, b: u8) -> (r: bool)
        requires
            old(self).wf(),
            row < HEIGHT,
        ensures
            final(self).wf(),
            final(self)@ == xor_row(old(self)@, x as int, row as int, b),
            r == row_collides(old(self)@, x as int, row as int, b),
    {
        let ghost s0 = self@;
        let base = row * WIDTH;
        let xm = x % WIDTH;
        let mut hit = false;
        let mut c: u8 = 0;
        while c < 8
            invariant
                row < HEIGHT,
                base == row * 64,
                xm == x % 64,
                c <= 8,
                self@.len() == CELLS,
                s0.len() == CELLS,
                forall|i: int|
                    0 <= i < CELLS ==> self@[i] == (s0[i] != row_hits_upto(
                        x as int,
                        row as int,
                        b,
                        i,
                        c as int,
                    )),
                hit == exists|i: int|
                    0 <= i < CELLS && s0[i] && #[trigger] row_hits_upto(
                        x as int,
                        row as int,
                        b,
                        i,
                        c as int,
                    ),
            decreases 8 - c,
        {
            let idx = base + (xm + c as usize) % WIDTH;
            let set = (b >> (7 - c)) & 1 == 1;
            let ghost hit_before = hit;
            proof {
                assert(row as int % 32 == row as int);
                assert forall|i: int| 0 <= i < CELLS implies ((i / 64 == row && col_offset(
                    x as int,
                    i,
                ) == c) <==> i == idx) by {
                    lemma_target(x as int, row as int, c as int, i);
                }
                lemma_target(x as int, row as int, c as int, 0);
            }
            if set {
                if self.cells[idx] {
                    hit = true;
                }
                self.cells[idx] = !self.cells[idx];
            }
            c = c + 1;
            proof {
                assert forall|i: int|
                    0 <= i < CELLS implies #[trigger] row_hits_upto(
                        x as int,
                        row as int,
                        b,
                        i,
                        c as int,
                    ) == (row_hits_upto(x as int, row as int, b, i, c - 1) || (i == idx
                        && set)) by {
                    lemma_target(x as int, row as int, (c - 1) as int, i);
                }
                if hit {
                    if !hit_before {
                        assert(s0[idx as int] && row_hits_upto(
                            x as int,
                            row as int,
                            b,
                            idx as int,
                            c as int,
                        ));
                    } else {
                        let j = choose|j: int|
                            0 <= j < CELLS && s0[j] && #[trigger] row_hits_upto(
                                x as int,
                                row as int,
                                b,
                                j,
                                c - 1,
                            );
                        assert(row_hits_upto(x as int, row as int, b, j, c as int));
                    }
                }
                if !hit {
                    assert forall|i: int|
                        0 <= i < CELLS && s0[i] implies !#[trigger] row_hits_upto(
                            x as int,
                            row as int,
                            b,
                            i,
                            c as int,
                        ) by {
                        assert(!row_hits_upto(x as int, row as int, b, i, c - 1));
                    }
                }
            }
        }
        assert(self@ =~= xor_row(s0, x as int, row as int, b));
        proof {
            if hit {
                let j = choose|j: int|
                    0 <= j < CELLS && s0[j] && #[trigger] row_hits_upto(
                        x as int,
                        row as int,
                        b,
                        j,
                        8,
                    );
                assert(row_hits(x as int, row as int, b, j));
            }
        }
        hit
    }
    /// Draws `sprite` with its top-left corner at `(x, y)`: each set bit of
    /// row `k` toggles the cell at column `x + c`, row `y + k`, both wrapping
    /// around the display. Returns whether a lit cell went off.
    pub fn draw(&mut self, x: usize, y: usize, sprite: &[u8]) -> (r: bool)
        requires
            old(self).wf(),
        ensures
            final(self).wf(),
            final(self)@ == drawn(old(self)@, x as int, y as int, sprite@),
            r == collides(old(self)@, x as int, y as int, sprite@),
    {
        let ghost s0 = self@;
        let mut collision = false;
        let mut k: usize = 0;
        while k < sprite.len()
            invariant
                k <= sprite@.len(),
                self@.len() == CELLS,
                self@ == drawn(s0, x as int, y as int, sprite@.subrange(0, k as int)),
                collision == collides(s0, x as int, y as int, sprite@.subrange(0, k as int)),
            decreases sprite@.len() - k,
        {
            let row = (y % HEIGHT + k % HEIGHT) % HEIGHT;
            let ghost before = self@;
            let hit = self.draw_row(x, row, sprite[k]);
            proof {
                lemma_add_mod_noop(y as int, k as int, 32);
                assert(row as int % 32 == row as int);
                let prefix = sprite@.subrange(0, k + 1);
                assert(prefix.drop_last() =~= sprite@.subrange(0, k as int));
                assert(prefix.last() == sprite[k as int]);
                assert(xor_row(before, x as int, row as int, sprite[k as int]) =~= xor_row(
                    before,
                    x as int,
                    y + k,
                    sprite[k as int],
                ));
                assert(row_collides(before, x as int, row as int, sprite[k as int])
                    == row_collides(before, x as int, y + k, sprite[k as int])) by {
                    if row_collides(before, x as int, row as int, sprite[k as int]) {
                        let j = choose|j: int|
                            0 <= j < before.len() && before[j] && #[trigger] row_hits(
                                x as int,
                                row as int,
                                sprite[k as int],
                                j,
                            );
                        assert(row_hits(x as int, y + k, sprite[k as int], j));
                    }
                    if row_collides(before, x as int, y + k, sprite[k as int]) {
                        let j = choose|j: int|
                            0 <= j < before.len() && before[j] && #[trigger] row_hits(
                                x as int,
                                y + k,
                                sprite[k as int],
                                j,
                            );
                        assert(row_hits(x as int, row as int, sprite[k as int], j));
                    }
                }
            }
            collision = collision || hit;
            k = k + 1;
        }
        assert(sprite@.subrange(0, k as int) =~= sprite@);
        collision
    }

    /// The cells, row by row, `true` for lit: what a renderer reads once per
    /// frame.
    pub fn snapshot(&self) -> (r: Vec<bool>)
        ensures
            r@ == self@,
    {
        self.cells.clone()
    }

    /// The frame buffer for a renderer: one colour per cell, row by row.
    pub fn to_buffer(&self) -> (r: Vec<u32>)
        requires
            self.wf(),
        ensures
            r@ == Seq::new(CELLS as nat, |i: int| colour(self@[i])),
    {
        let mut out: Vec<u32> = Vec::new();
        let mut k: usize = 0;
        while k < CELLS
            invariant
                k <= CELLS,
                self@.len() == CELLS,
                out@ == Seq::new(k as nat, |i: int| colour(self@[i])),
            decreases CELLS - k,
        {
            if self.cells[k] {
                out.push(ON_COLOUR);
            } else {
                out.push(0);
            }
            k = k + 1;
            assert(out@ =~= Seq::new(k as nat, |i: int| colour(self@[i])));
        }
        out
    }
}

} // verus!
