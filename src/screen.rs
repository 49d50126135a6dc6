use bit_set::BitSet;
use vstd::prelude::*;

verus! {

/// Width of the framebuffer in pixels.
pub const SCREEN_WIDTH: usize = 64;

/// Height of the framebuffer in pixels.
pub const SCREEN_HEIGHT: usize = 32;

/// Number of cells of the framebuffer, addressed `y * 64 + x`.
pub const SCREEN_CELLS: usize = 2048;

#[verifier::external_type_specification]
#[verifier::external_body]
#[verifier::reject_recursive_types(B)]
pub struct ExBitSet<B>(BitSet<B>);

/// The elements that a bit set holds.
pub uninterp spec fn bitset_elems(s: BitSet) -> Set<nat>;

/// Relies on `bit_set::BitSet::with_capacity`: the new set holds no element.
#[verifier::external_body]
fn bitset_with_capacity(nbits: usize) -> (r: BitSet)
    ensures
        bitset_elems(r) == Set::<nat>::empty(),
{
    BitSet::with_capacity(nbits)
}

/// Relies on `bit_set::BitSet::contains`: membership of `value`.
#[verifier::external_body]
fn bitset_contains(s: &BitSet, value: usize) -> (r: bool)
    ensures
        r == bitset_elems(*s).contains(value as nat),
{
    s.contains(value)
}

/// Relies on `bit_set::BitSet::insert`: `value` is added, nothing else
/// changes. The set grows to hold `value`, so `value` is kept to the
/// framebuffer's cells, which `with_capacity` already made room for.
#[verifier::external_body]
fn bitset_insert(s: &mut BitSet, value: usize)
    requires
        value < 2048,
    ensures
        bitset_elems(*final(s)) == bitset_elems(*old(s)).insert(value as nat),
{
    s.insert(value);
}

/// Relies on `bit_set::BitSet::remove`: `value` is taken out, nothing else changes.
#[verifier::external_body]
fn bitset_remove(s: &mut BitSet, value: usize)
    ensures
        bitset_elems(*final(s)) == bitset_elems(*old(s)).remove(value as nat),
{
    s.remove(value);
}

/// Relies on `bit_set::BitSet::clear`: afterwards the set holds no element.
#[verifier::external_body]
fn bitset_clear(s: &mut BitSet)
    ensures
        bitset_elems(*final(s)) == Set::<nat>::empty(),
{
    s.clear();
}

/// Flat index of the pixel at column `x`, row `y`.
pub open spec fn cell_of(x: int, y: int) -> int {
    y * 64 + x
}

/// Bit `col` of a sprite row, counting from the most significant bit.
pub open spec fn sprite_bit(row: u8, col: int) -> bool {
    ((row >> ((7 - col) as u8)) & 1u8) == 1u8
}

/// Whether drawing the sprite of `height` rows read from `mem` at `index`,
/// with its top-left corner at (`x0`, `y0`), toggles `cell`. Rows below the
/// bottom edge and columns past the right edge do not exist, so they clip.
pub open spec fn sprite_cell(mem: Seq<u8>, index: int, x0: int, y0: int, height: int, cell: int) -> bool {
    &&& 0 <= cell < 2048
    &&& y0 <= cell / 64 < y0 + height
    &&& x0 <= cell % 64 < x0 + 8
    &&& sprite_bit(mem[index + (cell / 64 - y0)], cell % 64 - x0)
}

/// The lit cells after the sprite is composited onto `lit` by XOR.
pub open spec fn drawn(lit: Set<nat>, mem: Seq<u8>, index: int, x0: int, y0: int, height: int) -> Set<nat> {
    Set::new(|c: nat| lit.contains(c) != sprite_cell(mem, index, x0, y0, height, c as int))
}

/// Whether the sprite turns off at least one lit cell.
pub open spec fn collides(lit: Set<nat>, mem: Seq<u8>, index: int, x0: int, y0: int, height: int) -> bool {
    exists|c: nat| #[trigger] lit.contains(c) && sprite_cell(mem, index, x0, y0, height, c as int)
}

/// Number of sprite rows that lie on the screen.
pub open spec fn visible_rows(y0: int, height: int) -> int {
    if y0 + height <= 32 { height } else { 32 - y0 }
}

/// Cells covered so far by a row-major walk over the sprite's box: all of
/// the first `rows` rows, then the first `cols` columns of the next row.
spec fn walked(x0: int, y0: int, rows: int, cols: int, cell: int) -> bool {
    &&& 0 <= cell < 2048
    &&& x0 <= cell % 64 < x0 + 8
    &&& y0 <= cell / 64
    &&& (cell / 64 < y0 + rows || (cell / 64 == y0 + rows && cell % 64 < x0 + cols))
}

spec fn walked_hit(mem: Seq<u8>, index: int, x0: int, y0: int, rows: int, cols: int, cell: int) -> bool {
    walked(x0, y0, rows, cols, cell) && sprite_bit(mem[index + (cell / 64 - y0)], cell % 64 - x0)
}

/// Drawing one sprite twice at one origin, with nothing in between, gives
/// back the framebuffer as it was; the second drawing reports a collision
/// exactly when the first one lit some pixel, since it turns that pixel off.
pub proof fn lemma_draw_twice(lit: Set<nat>, mem: Seq<u8>, index: int, x0: int, y0: int, height: int)
    ensures
        drawn(drawn(lit, mem, index, x0, y0, height), mem, index, x0, y0, height) == lit,
        collides(drawn(lit, mem, index, x0, y0, height), mem, index, x0, y0, height) <==> exists|c: nat|
            sprite_cell(mem, index, x0, y0, height, c as int) && !#[trigger] lit.contains(c),
{
    let once = drawn(lit, mem, index, x0, y0, height);
    assert(drawn(once, mem, index, x0, y0, height) =~= lit);
    if collides(once, mem, index, x0, y0, height) {
        let c = choose|c: nat| #[trigger] once.contains(c) && sprite_cell(mem, index, x0, y0, height, c as int);
        assert(sprite_cell(mem, index, x0, y0, height, c as int) && !lit.contains(c));
    }
    if exists|c: nat| sprite_cell(mem, index, x0, y0, height, c as int) && !#[trigger] lit.contains(c) {
        let c = choose|c: nat| sprite_cell(mem, index, x0, y0, height, c as int) && !#[trigger] lit.contains(c);
        assert(once.contains(c));
    }
}

/// Clipping: drawing changes the pixel at column `x`, row `y` exactly when it
/// lies inside the sprite's box and its sprite bit is set. Rows past the
/// bottom edge do not exist, and in a row that runs past the right edge the
/// pixels on the screen are still drawn. Nothing off the grid changes.
pub proof fn lemma_draw_clips(lit: Set<nat>, mem: Seq<u8>, index: int, x0: int, y0: int, height: int, x: int, y: int)
    requires
        0 <= x0 < 64,
        0 <= y0 < 32,
        0 <= x < 64,
        0 <= y < 32,
    ensures
        (drawn(lit, mem, index, x0, y0, height).contains(cell_of(x, y) as nat) != lit.contains(cell_of(x, y) as nat))
            <==> (y0 <= y < y0 + height && x0 <= x < x0 + 8 && sprite_bit(mem[index + (y - y0)], x - x0)),
        forall|c: nat| c >= 2048 ==> (#[trigger] drawn(lit, mem, index, x0, y0, height).contains(c) == lit.contains(c)),
{
    assert(0 <= y * 64 + x < 2048) by (nonlinear_arith)
        requires
            0 <= x < 64,
            0 <= y < 32,
    ;
    vstd::arithmetic::div_mod::lemma_fundamental_div_mod_converse(cell_of(x, y), 64, y, x);
}

/// A 64 x 32 monochrome framebuffer.
pub struct Screen {
    bits: BitSet,
}

impl Screen {
    /// The lit cells, by flat index.
    pub closed spec fn view(&self) -> Set<nat> {
        bitset_elems(self.bits)
    }

    /// Every lit cell lies on the grid.
    pub open spec fn wf(&self) -> bool {
        forall|c: nat| #[trigger] self.view().contains(c) ==> c < 2048
    }

    /// An all-off framebuffer.
    pub fn new() -> (r: Screen)
        ensures
            r.view() == Set::<nat>::empty(),
            r.wf(),
    {
        Screen { bits: bitset_with_capacity(SCREEN_CELLS) }
    }

    /// Turns every pixel off.
    pub fn clear(&mut self)
        ensures
            final(self).view() == Set::<nat>::empty(),
            final(self).wf(),
    {
        bitset_clear(&mut self.bits);
    }

    /// Whether the pixel at column `x`, row `y` is on.
    pub fn pixel(&self, x: usize, y: usize) -> (r: bool)
        requires
            x < 64,
            y < 32,
        ensures
            r == self.view().contains(cell_of(x as int, y as int) as nat),
    {
        bitset_contains(&self.bits, y * SCREEN_WIDTH + x)
    }

    /// Lights pixel (`x`, `y`), as a host or a test may do to set up a picture.
    pub fn set_pixel(&mut self, x: usize, y: usize, on: bool)
        requires
            old(self).wf(),
            x < 64,
            y < 32,
        ensures
            final(self).wf(),
            on ==> final(self).view() == old(self).view().insert(cell_of(x as int, y as int) as nat),
            !on ==> final(self).view() == old(self).view().remove(cell_of(x as int, y as int) as nat),
    {
        assert(y * 64 + x < 2048) by (nonlinear_arith)
            requires
                x < 64,
                y < 32,
        ;
        let cell = y * SCREEN_WIDTH + x;
        let ghost lit0 = self.view();
        if on {
            bitset_insert(&mut self.bits, cell);
        } else {
            bitset_remove(&mut self.bits, cell);
        }
        assert forall|c: nat| #[trigger] self.view().contains(c) implies c < 2048 by {
            if c != cell as nat {
                assert(lit0.contains(c));
            }
        }
    }

    /// XOR-composites a sprite of `height` rows, read from `mem` at `index`,
    /// with its top-left corner at (`x0`, `y0`). Rows past the bottom edge
    /// and pixels past the right edge are skipped. Returns whether some lit
    /// pixel was turned off.
    pub fn draw(&mut self, mem: &Vec<u8>, index: usize, x0: u8, y0: u8, height: u8) -> (collided: bool)
        requires
            old(self).wf(),
            x0 < 64,
            y0 < 32,
            index + visible_rows(y0 as int, height as int) <= mem@.len(),
        ensures
            final(self).wf(),
            final(self).view() == drawn(old(self).view(), mem@, index as int, x0 as int, y0 as int, height as int),
            collided == collides(old(self).view(), mem@, index as int, x0 as int, y0 as int, height as int),
    {
        let ghost lit0 = self.view();
        let ghost m = mem@;
        let ghost ix = index as int;
        let ghost gx = x0 as int;
        let ghost gy = y0 as int;
        let len = mem.len();
        let rows: u8 = if y0 as usize + height as usize <= SCREEN_HEIGHT { height } else { 32 - y0 };
        let mut collided = false;
        let mut r: u8 = 0;
        while r < rows
            invariant
                self.wf(),
                0 <= r <= rows,
                rows == visible_rows(gy, height as int),
                x0 < 64,
                y0 < 32,
                index + rows <= len,
                len == m.len(),
                m == mem@,
                ix == index,
                gx == x0,
                gy == y0,
                self.view() == Set::new(|c: nat| lit0.contains(c) != walked_hit(m, ix, gx, gy, r as int, 0, c as int)),
                collided == exists|c: nat| #[trigger] lit0.contains(c) && walked_hit(m, ix, gx, gy, r as int, 0, c as int),
            decreases rows - r,
        {
            let row = mem[index + r as usize];
            let mut col: u8 = 0;
            while col < 8
                invariant
                    self.wf(),
                    0 <= r < rows,
                    0 <= col <= 8,
                    rows == visible_rows(gy, height as int),
                    x0 < 64,
                    y0 < 32,
                    index + rows <= len,
                    len == m.len(),
                    m == mem@,
                    ix == index,
                    gx == x0,
                    gy == y0,
                    row == m[ix + r as int],
                    self.view() == Set::new(|c: nat| lit0.contains(c) != walked_hit(m, ix, gx, gy, r as int, col as int, c as int)),
                    collided == exists|c: nat| #[trigger] lit0.contains(c) && walked_hit(m, ix, gx, gy, r as int, col as int, c as int),
                decreases 8 - col,
            {
                let ghost before = self.view();
                let ghost was = collided;
                if (x0 as usize) + (col as usize) < SCREEN_WIDTH {
                    let px = x0 as usize + col as usize;
                    let py = y0 as usize + r as usize;
                    assert(py * 64 + px < 2048) by (nonlinear_arith)
                        requires
                            px < 64,
                            py < 32,
                    ;
                    let cell = py * SCREEN_WIDTH + px;
                    proof {
                        vstd::arithmetic::div_mod::lemma_fundamental_div_mod_converse(
                            cell as int, 64, py as int, px as int);
                    }
                    let ghost gc = cell as int;
                    if (row >> (7 - col)) & 1 == 1 {
                        let on = bitset_contains(&self.bits, cell);
                        assert(!walked_hit(m, ix, gx, gy, r as int, col as int, gc));
                        assert(on == lit0.contains(gc as nat));
                        if on {
                            bitset_remove(&mut self.bits, cell);
                            collided = true;
                            assert(walked_hit(m, ix, gx, gy, r as int, col + 1, gc));
                            assert(lit0.contains(gc as nat));
                        } else {
                            bitset_insert(&mut self.bits, cell);
                        }
                        assert(walked_hit(m, ix, gx, gy, r as int, col + 1, gc));
                    } else {
                        assert(!walked_hit(m, ix, gx, gy, r as int, col + 1, gc));
                    }
                    assert forall|c: nat| walked_hit(m, ix, gx, gy, r as int, col + 1, c as int) != walked_hit(
                        m, ix, gx, gy, r as int, col as int, c as int) implies c as int == gc by {
                        assert(c as int % 64 == px as int);
                        assert(c as int / 64 == py as int);
                        vstd::arithmetic::div_mod::lemma_fundamental_div_mod(c as int, 64);
                    }
                } else {
                    assert forall|c: nat| walked_hit(m, ix, gx, gy, r as int, col + 1, c as int) == walked_hit(
                        m, ix, gx, gy, r as int, col as int, c as int) by {}
                }
                proof {
                    let nc = col + 1;
                    if collided && !was {
                    } else if collided {
                        let w = choose|c: nat| #[trigger] lit0.contains(c) && walked_hit(m, ix, gx, gy, r as int, col as int, c as int);
                        assert(lit0.contains(w) && walked_hit(m, ix, gx, gy, r as int, nc as int, w as int));
                    } else {
                        assert forall|c: nat| #[trigger] lit0.contains(c) implies !walked_hit(m, ix, gx, gy, r as int, nc as int, c as int) by {
                            if walked_hit(m, ix, gx, gy, r as int, nc as int, c as int) && !walked_hit(m, ix, gx, gy, r as int, col as int, c as int) {
                                assert(c as int == (y0 as int + r as int) * 64 + x0 as int + col as int);
                            }
                        }
                    }
                }
                col += 1;
                assert(self.view() =~= Set::new(|c: nat| lit0.contains(c) != walked_hit(m, ix, gx, gy, r as int, col as int, c as int)));
            }
            assert forall|c: int| walked_hit(m, ix, gx, gy, r as int, 8, c) == walked_hit(m, ix, gx, gy, r + 1, 0, c) by {}
            r += 1;
            assert(self.view() =~= Set::new(|c: nat| lit0.contains(c) != walked_hit(m, ix, gx, gy, r as int, 0, c as int)));
        }
        assert forall|c: int| walked_hit(m, ix, gx, gy, rows as int, 0, c) == sprite_cell(m, ix, gx, gy, height as int, c) by {}
        assert(self.view() =~= drawn(lit0, m, ix, gx, gy, height as int));
        collided
    }

    /// A snapshot of the grid, one entry per cell in flat order.
    pub fn cells(&self) -> (r: Vec<bool>)
        ensures
            r@.len() == 2048,
            forall|i: int| 0 <= i < 2048 ==> r@[i] == self.view().contains(i as nat),
    {
        let mut r: Vec<bool> = Vec::new();
        let mut i: usize = 0;
        while i < SCREEN_CELLS
            invariant
                i <= 2048,
                r@.len() == i,
                forall|j: int| 0 <= j < i ==> r@[j] == self.view().contains(j as nat),
            decreases 2048 - i,
        {
            r.push(bitset_contains(&self.bits, i));
            i += 1;
        }
        r
    }
}

} // verus!
