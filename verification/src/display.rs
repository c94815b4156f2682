use vstd::prelude::*;

verus! {

// The screen is 64 pixels wide and 32 tall; cell (row, col) of the grid
// lives at flat index row * 64 + col of the view.

/// A screen with every cell off.
pub open spec fn blank_screen() -> Seq<bool> {
    Seq::new(2048, |i: int| false)
}

/// Flat index of grid cell (row, col).
pub open spec fn pix_idx(row: int, col: int) -> int {
    row * 64 + col
}

/// Bit `col` of a sprite row byte, most significant bit first.
pub open spec fn row_bit(b: u8, col: int) -> bool {
    (b >> (7 - col) as u8) & 1 == 1
}

/// The screen row that sprite row `r` lands on when drawn at `y`.
pub open spec fn tgt_row(y: u8, r: int) -> int {
    (y + r) % 32
}

/// The screen column that sprite column `c` lands on when drawn at `x`.
pub open spec fn tgt_col(x: u8, c: int) -> int {
    (x + c) % 64
}

/// The sprite row that lands on screen row `row` when drawn at `y`.
pub open spec fn src_row(y: u8, row: int) -> int {
    if row >= y % 32 {
        row - y % 32
    } else {
        row + 32 - y % 32
    }
}

/// The sprite column that lands on screen column `col` when drawn at `x`.
pub open spec fn src_col(x: u8, col: int) -> int {
    if col >= x % 64 {
        col - x % 64
    } else {
        col + 64 - x % 64
    }
}

/// Whether drawing sprite `s` at (x, y) toggles screen cell (row, col).
pub open spec fn draw_bit(x: u8, y: u8, s: Seq<u8>, row: int, col: int) -> bool {
    src_row(y, row) < s.len() && src_col(x, col) < 8 && row_bit(
        s[src_row(y, row)],
        src_col(x, col),
    )
}

/// The screen after sprite `s` is XORed on at (x, y), with toroidal wrap.
pub open spec fn draw_pixels(p: Seq<bool>, x: u8, y: u8, s: Seq<u8>) -> Seq<bool> {
    Seq::new(2048, |i: int| p[i] != draw_bit(x, y, s, i / 64, i % 64))
}

/// Whether the draw turns any previously set cell off: some set sprite
/// bit lands on a cell that is already set.
pub open spec fn draw_collision(p: Seq<bool>, x: u8, y: u8, s: Seq<u8>) -> bool {
    exists|r: int, c: int|
        0 <= r < s.len() && 0 <= c < 8 && #[trigger] row_bit(s[r], c) && p[pix_idx(
            tgt_row(y, r),
            tgt_col(x, c),
        )]
}

/// Wrapping a sprite coordinate onto the screen and mapping the screen
/// cell back are mutually inverse, row-wise.
pub proof fn lemma_row_inverse(y: u8, r: int)
    requires
        0 <= r < 32,
    ensures
        0 <= tgt_row(y, r) < 32,
        src_row(y, tgt_row(y, r)) == r,
{
    assert((y + r) % 32 == (y % 32 + r) % 32) by (nonlinear_arith);
}

/// The same, column-wise.
pub proof fn lemma_col_inverse(x: u8, c: int)
    requires
        0 <= c < 64,
    ensures
        0 <= tgt_col(x, c) < 64,
        src_col(x, tgt_col(x, c)) == c,
{
    assert((x + c) % 64 == (x % 64 + c) % 64) by (nonlinear_arith);
}

/// Mapping a screen cell to its sprite coordinate and wrapping back is
/// the identity as well.
pub proof fn lemma_row_forward(y: u8, row: int)
    requires
        0 <= row < 32,
    ensures
        0 <= src_row(y, row) < 32,
        tgt_row(y, src_row(y, row)) == row,
{
    assert((y + src_row(y, row)) % 32 == (y % 32 + src_row(y, row)) % 32) by (nonlinear_arith);
}

pub proof fn lemma_col_forward(x: u8, col: int)
    requires
        0 <= col < 64,
    ensures
        0 <= src_col(x, col) < 64,
        tgt_col(x, src_col(x, col)) == col,
{
    assert((x + src_col(x, col)) % 64 == (x % 64 + src_col(x, col)) % 64) by (nonlinear_arith);
}

/// Drawing an identical sprite twice at the same coordinates restores
/// the pre-draw pixel pattern, and the second draw collides exactly when
/// the first draw turned some previously unset cell on.
pub proof fn lemma_draw_self_inverse(p: Seq<bool>, x: u8, y: u8, s: Seq<u8>)
    requires
        p.len() == 2048,
        s.len() <= 15,
    ensures
        draw_pixels(draw_pixels(p, x, y, s), x, y, s) == p,
        draw_collision(draw_pixels(p, x, y, s), x, y, s) == (exists|r: int, c: int|
            0 <= r < s.len() && 0 <= c < 8 && #[trigger] row_bit(s[r], c) && !p[pix_idx(
                tgt_row(y, r),
                tgt_col(x, c),
            )]),
{
    let dp = draw_pixels(p, x, y, s);
    assert(draw_pixels(dp, x, y, s) =~= p);
    // At the cell a set sprite bit lands on, the first draw flipped the
    // pre-draw value.
    assert forall|r: int, c: int|
        0 <= r < s.len() && 0 <= c < 8 && #[trigger] row_bit(s[r], c) implies dp[pix_idx(
        tgt_row(y, r),
        tgt_col(x, c),
    )] == !p[pix_idx(tgt_row(y, r), tgt_col(x, c))] by {
        lemma_row_inverse(y, r);
        lemma_col_inverse(x, c);
        let row = tgt_row(y, r);
        let col = tgt_col(x, c);
        let idx = pix_idx(row, col);
        assert(idx / 64 == row && idx % 64 == col) by (nonlinear_arith)
            requires
                idx == row * 64 + col,
                0 <= row < 32,
                0 <= col < 64,
        ;
        assert(draw_bit(x, y, s, row, col));
    }
}

/// The grid-update half of the draw contract, exposed to every
/// framebuffer implementation.
pub trait Update: Sized {
    /// The 2048 cells of the grid, row-major.
    spec fn pixels(&self) -> Seq<bool>;

    /// The implementation's internal invariant.
    spec fn upd_inv(&self) -> bool;

    /// Reset every cell to off.
    fn clear(&mut self)
        requires
            old(self).upd_inv(),
        ensures
            final(self).upd_inv(),
            final(self).pixels() == blank_screen(),
    ;

    /// XOR a sprite onto the grid at (x, y) with toroidal wrap; report
    /// whether any set cell was turned off.
    fn draw(&mut self, x: u8, y: u8, sprite: &[u8]) -> (collision: bool)
        requires
            old(self).upd_inv(),
            sprite@.len() <= 15,
        ensures
            final(self).upd_inv(),
            final(self).pixels() == draw_pixels(old(self).pixels(), x, y, sprite@),
            collision == draw_collision(old(self).pixels(), x, y, sprite@),
    ;
}

/// What a rendering backend offers the driver loop. Rendering is pure
/// output and carries no contract.
pub trait Render {
    fn init(&self);

    fn uninit(&self);

    fn render(&self, screen: &ScreenRAM, beep: bool);
}

/// The 64x32 boolean pixel grid itself.
pub struct ScreenRAM {
    pixels: Vec<bool>,
}

impl View for ScreenRAM {
    type V = Seq<bool>;

    closed spec fn view(&self) -> Seq<bool> {
        self.pixels@
    }
}

/// Cell (row, col) already toggled if sprite rows before `rows` are
/// done, and in row `rows` the columns before `cols` are.
spec fn draw_bit_upto(
    x: u8,
    y: u8,
    s: Seq<u8>,
    rows: int,
    cols: int,
    row: int,
    col: int,
) -> bool {
    let r = src_row(y, row);
    let c = src_col(x, col);
    (r < rows || (r == rows && c < cols)) && r < s.len() && c < 8 && row_bit(s[r], c)
}

/// Collision seen so far, over the same prefix of sprite cells.
spec fn collide_upto(
    p: Seq<bool>,
    x: u8,
    y: u8,
    s: Seq<u8>,
    rows: int,
    cols: int,
) -> bool {
    exists|r: int, c: int|
        0 <= r < s.len() && 0 <= c < 8 && (r < rows || (r == rows && c < cols))
            && #[trigger] row_bit(s[r], c) && p[pix_idx(tgt_row(y, r), tgt_col(x, c))]
}

impl ScreenRAM {
    pub open spec fn wf(&self) -> bool {
        self@.len() == 2048
    }

    /// A screen with every cell off.
    pub fn new() -> (r: ScreenRAM)
        ensures
            r.wf(),
            r@ == blank_screen(),
    {
        let r = ScreenRAM { pixels: vec![false; 2048] };
        proof {
            assert(r@ =~= blank_screen());
        }
        r
    }

    /// Reset every cell to off.
    pub fn clear(&mut self)
        requires
            old(self).wf(),
        ensures
            final(self).wf(),
            final(self)@ == blank_screen(),
    {
        self.pixels = vec![false; 2048];
        proof {
            assert(self@ =~= blank_screen());
        }
    }

    /// Read cell (row, col) of the grid.
    pub fn cell(&self, row: u8, col: u8) -> (r: bool)
        requires
            self.wf(),
            row < 32,
            col < 64,
        ensures
            r == self@[pix_idx(row as int, col as int)],
    {
        self.pixels[row as usize * 64 + col as usize]
    }

    /// XOR sprite rows onto the grid at (x, y); both coordinates wrap
    /// toroidally. Returns whether any set cell became unset, which is
    /// exactly whether any set sprite bit landed on a set cell.
    pub fn draw(&mut self, x: u8, y: u8, sprite: &[u8]) -> (collision: bool)
        requires
            old(self).wf(),
            sprite@.len() <= 15,
        ensures
            final(self).wf(),
            final(self)@ == draw_pixels(old(self)@, x, y, sprite@),
            collision == draw_collision(old(self)@, x, y, sprite@),
    {
        let ghost p0 = self@;
        let ghost s = sprite@;
        let mut collision = false;
        let n = sprite.len();
        let mut r: usize = 0;
        while r < n
            invariant
                self@.len() == 2048,
                sprite@ == s,
                s.len() == n,
                n <= 15,
                r <= n,
                forall|row: int, col: int|
                    0 <= row < 32 && 0 <= col < 64 ==> self@[#[trigger] pix_idx(row, col)] == (
                    p0[pix_idx(row, col)] != draw_bit_upto(x, y, s, r as int, 0, row, col)),
                collision == collide_upto(p0, x, y, s, r as int, 0),
            decreases n - r,
        {
            let byte = sprite[r];
            let mut c: usize = 0;
            while c < 8
                invariant
                    self@.len() == 2048,
                    sprite@ == s,
                    s.len() == n,
                    n <= 15,
                    r < n,
                    c <= 8,
                    byte == s[r as int],
                    forall|row: int, col: int|
                        0 <= row < 32 && 0 <= col < 64 ==> self@[#[trigger] pix_idx(row, col)]
                            == (p0[pix_idx(row, col)] != draw_bit_upto(
                            x,
                            y,
                            s,
                            r as int,
                            c as int,
                            row,
                            col,
                        )),
                    collision == collide_upto(p0, x, y, s, r as int, c as int),
                decreases 8 - c,
            {
                let row = (y as usize + r) % 32;
                let col = (x as usize + c) % 64;
                let idx = row * 64 + col;
                let shift: u8 = (7 - c) as u8;
                let bit = (byte >> shift) & 1 == 1;
                proof {
                    lemma_row_inverse(y, r as int);
                    lemma_col_inverse(x, c as int);
                    assert(row as int == tgt_row(y, r as int));
                    assert(col as int == tgt_col(x, c as int));
                    assert(src_row(y, row as int) == r as int);
                    assert(src_col(x, col as int) == c as int);
                    assert(bit == row_bit(s[r as int], c as int));
                    // The cell this bit lands on has not been toggled yet.
                    assert(!draw_bit_upto(x, y, s, r as int, c as int, row as int, col as int));
                    assert(self@[pix_idx(row as int, col as int)] == p0[pix_idx(
                        row as int,
                        col as int,
                    )]);
                }
                let cur = self.pixels[idx];
                if cur && bit {
                    collision = true;
                }
                self.pixels[idx] = cur != bit;
                proof {
                    let ri = r as int;
                    let ci = c as int;
                    assert forall|row2: int, col2: int|
                        0 <= row2 < 32 && 0 <= col2 < 64 implies self@[#[trigger] pix_idx(
                        row2,
                        col2,
                    )] == (p0[pix_idx(row2, col2)] != draw_bit_upto(
                        x,
                        y,
                        s,
                        ri,
                        ci + 1,
                        row2,
                        col2,
                    )) by {
                        lemma_row_forward(y, row2);
                        lemma_col_forward(x, col2);
                        if row2 == row as int && col2 == col as int {
                        } else {
                            // A different cell maps to a different sprite
                            // coordinate, so its toggled-so-far status is
                            // the same as before this bit.
                            let rowi = row as int;
                            let coli = col as int;
                            assert(pix_idx(row2, col2) != pix_idx(rowi, coli)) by {
                                if row2 != rowi {
                                    assert(pix_idx(row2, col2) != pix_idx(rowi, coli))
                                        by (nonlinear_arith)
                                        requires
                                            0 <= row2 < 32,
                                            0 <= col2 < 64,
                                            0 <= rowi < 32,
                                            0 <= coli < 64,
                                            row2 != rowi,
                                    ;
                                }
                            }
                            assert(draw_bit_upto(x, y, s, ri, ci + 1, row2, col2) == draw_bit_upto(
                                x,
                                y,
                                s,
                                ri,
                                ci,
                                row2,
                                col2,
                            ));
                        }
                    }
                    // Collision over the extended prefix.
                    let had = collide_upto(p0, x, y, s, ri, ci);
                    let hits_now = row_bit(s[ri], ci) && p0[pix_idx(tgt_row(y, ri), tgt_col(x, ci))];
                    assert(collide_upto(p0, x, y, s, ri, ci + 1) == (had || hits_now)) by {
                        if had {
                            assert(collide_upto(p0, x, y, s, ri, ci + 1));
                        }
                        if hits_now {
                            assert(collide_upto(p0, x, y, s, ri, ci + 1));
                        }
                        if collide_upto(p0, x, y, s, ri, ci + 1) && !had {
                            let (rw, cw) = choose|rw: int, cw: int|
                                0 <= rw < s.len() && 0 <= cw < 8 && (rw < ri || (rw == ri && cw < ci
                                    + 1)) && #[trigger] row_bit(s[rw], cw) && p0[pix_idx(
                                    tgt_row(y, rw),
                                    tgt_col(x, cw),
                                )];
                            assert(rw == ri && cw == ci);
                        }
                    }
                }
                c = c + 1;
            }
            proof {
                // A full row done: the prefix (r, 8) is the prefix (r + 1, 0).
                assert forall|row2: int, col2: int| 0 <= row2 < 32 && 0 <= col2 < 64 implies (
                draw_bit_upto(x, y, s, r as int, 8, row2, col2) == draw_bit_upto(
                    x,
                    y,
                    s,
                    r as int + 1,
                    0,
                    row2,
                    col2,
                )) by {
                    lemma_row_forward(y, row2);
                    lemma_col_forward(x, col2);
                }
                assert(collide_upto(p0, x, y, s, r as int, 8) == collide_upto(
                    p0,
                    x,
                    y,
                    s,
                    r as int + 1,
                    0,
                ));
            }
            r = r + 1;
        }
        proof {
            assert(self@ =~= draw_pixels(p0, x, y, s)) by {
                assert forall|i: int| 0 <= i < 2048 implies self@[i] == (p0[i] != draw_bit(
                    x,
                    y,
                    s,
                    i / 64,
                    i % 64,
                )) by {
                    let row = i / 64;
                    let col = i % 64;
                    assert(0 <= row < 32 && 0 <= col < 64);
                    assert(pix_idx(row, col) == i);
                    assert(draw_bit_upto(x, y, s, n as int, 0, row, col) == draw_bit(
                        x,
                        y,
                        s,
                        row,
                        col,
                    ));
                }
            }
            assert(collide_upto(p0, x, y, s, n as int, 0) == draw_collision(p0, x, y, s));
        }
        collision
    }
}

impl Update for ScreenRAM {
    open spec fn pixels(&self) -> Seq<bool> {
        self@
    }

    open spec fn upd_inv(&self) -> bool {
        self.wf()
    }

    fn clear(&mut self) {
        ScreenRAM::clear(self)
    }

    fn draw(&mut self, x: u8, y: u8, sprite: &[u8]) -> (collision: bool) {
        ScreenRAM::draw(self, x, y, sprite)
    }
}

/// A headless display: the grid logic with no rendering at all.
pub struct NullDisplay {
    screen: ScreenRAM,
}

impl NullDisplay {
    pub fn new() -> (r: NullDisplay)
        ensures
            r.upd_inv(),
            r.pixels() == blank_screen(),
    {
        NullDisplay { screen: ScreenRAM::new() }
    }
}

impl Update for NullDisplay {
    closed spec fn pixels(&self) -> Seq<bool> {
        self.screen@
    }

    closed spec fn upd_inv(&self) -> bool {
        self.screen.wf()
    }

    fn clear(&mut self) {
        self.screen.clear()
    }

    fn draw(&mut self, x: u8, y: u8, sprite: &[u8]) -> (collision: bool) {
        self.screen.draw(x, y, sprite)
    }
}

impl Render for NullDisplay {
    fn init(&self) {
    }

    fn uninit(&self) {
    }

    fn render(&self, _screen: &ScreenRAM, _beep: bool) {
    }
}

} // verus!
