//! The framebuffer: a fixed 64x32 grid of binary pixels with XOR sprite
//! compositing, collision detection and clipping at the edges.

use vstd::prelude::*;

verus! {

/// The raw pixel grid: one byte per pixel, row-major, value 0 or 1.
pub type VramType = [[u8; VRAM_WIDTH]; VRAM_HEIGHT];

/// Largest number of rows a sprite may have.
pub const SPRITE_MAX_SIZE: usize = 15;

/// Width of the pixel grid.
pub const VRAM_WIDTH: usize = 64;

/// Height of the pixel grid.
pub const VRAM_HEIGHT: usize = 32;

/// Width of the scaled screen buffer (ten screen columns per pixel column).
pub const SCREEN_WIDTH: usize = 640;

/// Height of the scaled screen buffer (ten screen rows per pixel row).
pub const SCREEN_HEIGHT: usize = 320;

/// An all-off pixel grid.
pub fn vram_default() -> (r: VramType)
    ensures
        forall|rr: int, cc: int|
            0 <= rr < VRAM_HEIGHT && 0 <= cc < VRAM_WIDTH ==> r@[rr]@[cc] == 0,
{
    [[0; VRAM_WIDTH]; VRAM_HEIGHT]
}

/// Powers of two, for reading single bits of a sprite row byte.
pub open spec fn pow2_int(e: int) -> int
    decreases e,
{
    if e <= 0 {
        1
    } else {
        2 * pow2_int(e - 1)
    }
}

/// Bit `j` of a sprite row byte, most significant bit first: bit 0 is the
/// leftmost pixel of the row.
pub open spec fn bit_at(byte: u8, j: int) -> bool
    recommends
        0 <= j < 8,
{
    (byte as int / pow2_int(7 - j)) % 2 == 1
}

/// A pixel toggled by an XOR with 1 (any value other than 1 counts as off).
pub open spec fn flip(p: u8) -> u8 {
    if p == 1 {
        0u8
    } else {
        1u8
    }
}

/// Whether the sprite with the given rows, drawn at `(x, y)`, has a set bit
/// aimed at grid cell `(r, c)`.
pub open spec fn sprite_covers(rows: Seq<u8>, x: int, y: int, r: int, c: int) -> bool {
    &&& y <= r < y + rows.len()
    &&& x <= c < x + 8
    &&& bit_at(rows[r - y], c - x)
}

/// The grid after the sprite with the given rows is drawn at `(x, y)`: every
/// covered cell is toggled, every other cell is unchanged, and cells outside
/// the grid are skipped.
pub open spec fn blit_grid(g: Seq<Seq<u8>>, rows: Seq<u8>, x: int, y: int) -> Seq<Seq<u8>> {
    Seq::new(g.len(), |r: int|
        Seq::new(g[r].len(), |c: int|
            if sprite_covers(rows, x, y, r, c) {
                flip(g[r][c])
            } else {
                g[r][c]
            }))
}

/// Whether drawing the sprite at `(x, y)` toggles some pixel of the grid
/// that was already on.
pub open spec fn blit_collision(g: Seq<Seq<u8>>, rows: Seq<u8>, x: int, y: int) -> bool {
    exists|r: int, c: int|
        0 <= r < g.len() && 0 <= c < g[r].len() && sprite_covers(rows, x, y, r, c) && g[r][c] == 1
}

/// An all-off grid.
pub open spec fn blank_grid() -> Seq<Seq<u8>> {
    Seq::new(VRAM_HEIGHT as nat, |r: int| Seq::new(VRAM_WIDTH as nat, |c: int| 0u8))
}

/// Sprite data: between 1 and [`SPRITE_MAX_SIZE`] row bytes.
pub struct Sprite {
    pub data: Vec<u8>,
    pub len: usize,
}

impl Sprite {
    /// A well-formed sprite records its own length, which is between 1 and
    /// [`SPRITE_MAX_SIZE`].
    pub open spec fn wf(&self) -> bool {
        self.len == self.data@.len() && 1 <= self.len <= SPRITE_MAX_SIZE
    }

    /// Accepts the bytes as sprite data iff their number is between 1 and
    /// [`SPRITE_MAX_SIZE`].
    pub fn try_from(value: Vec<u8>) -> (r: Result<Self, ()>)
        ensures
            1 <= value@.len() <= SPRITE_MAX_SIZE
                ==> (r matches Ok(s) && s.data@ == value@ && s.wf()),
            !(1 <= value@.len() <= SPRITE_MAX_SIZE) ==> r is Err,
    {
        let len = value.len();
        if len < 1 || len > SPRITE_MAX_SIZE {
            return Err(());
        }
        Ok(Sprite { data: value, len })
    }

    /// The sprite's row bytes.
    pub fn to_bytes(&self) -> (r: &Vec<u8>)
        ensures
            r@ == self.data@,
    {
        &self.data
    }

    /// An iterator over the sprite's row bytes, top row first.
    pub fn to_bytes_iter(&self) -> (r: std::slice::Iter<'_, u8>)
        ensures
            vstd::std_specs::iter::IteratorSpec::remaining(&r) == self.data@.as_ref(),
    {
        let s = self.data.as_slice();
        proof {
            vstd::std_specs::slice::axiom_spec_slice_iter(s);
        }
        s.iter()
    }
}

/// The framebuffer, holding the pixel grid.
#[derive(Debug)]
pub struct Vram {
    pub arr: VramType,
}

impl View for Vram {
    type V = Seq<Seq<u8>>;

    /// The grid as a sequence of rows, each a sequence of pixel bytes.
    open spec fn view(&self) -> Seq<Seq<u8>> {
        Seq::new(VRAM_HEIGHT as nat, |r: int| self.arr@[r]@)
    }
}

impl Vram {
    /// Every pixel is either off (0) or on (1).
    pub open spec fn wf(&self) -> bool {
        forall|r: int, c: int|
            0 <= r < VRAM_HEIGHT && 0 <= c < VRAM_WIDTH
                ==> self@[r][c] == 0 || self@[r][c] == 1
    }

    /// Turns every pixel off.
    pub fn clear(&mut self)
        ensures
            final(self)@ == blank_grid(),
            final(self).wf(),
    {
        self.arr = [[0; VRAM_WIDTH]; VRAM_HEIGHT];
        proof {
            assert(self@ =~~= blank_grid());
        }
    }

    /// The raw pixel grid, by value.
    pub fn inner(&self) -> (r: VramType)
        ensures
            r == self.arr,
    {
        self.arr
    }

    /// A read-only view of row `idx` of the grid; fails when `idx` is not a
    /// valid row index.
    pub fn get_line_mut(&mut self, idx: usize) -> (r: Option<&[u8]>)
        ensures
            *final(self) == *old(self),
            idx < VRAM_HEIGHT ==> (r matches Some(s) && s@ == old(self)@[idx as int]),
            idx >= VRAM_HEIGHT ==> r is None,
    {
        if idx >= VRAM_HEIGHT {
            return None;
        }
        Some(vstd::array::array_index_get(&self.arr, idx).as_slice())
    }

    /// The pixel at `(x, y)`; fails, rather than wrapping around, when the
    /// coordinate is outside the grid.
    pub fn get_pixel(&self, x: usize, y: usize) -> (r: Option<&u8>)
        ensures
            x < VRAM_WIDTH && y < VRAM_HEIGHT ==> (r matches Some(p) && *p == self@[y as int][x as int]),
            !(x < VRAM_WIDTH && y < VRAM_HEIGHT) ==> r is None,
    {
        if x < VRAM_WIDTH && y < VRAM_HEIGHT {
            return Some(vstd::array::array_index_get(
                vstd::array::array_index_get(&self.arr, y),
                x,
            ));
        }
        None
    }

    /// A mutable borrow of the pixel at `(x, y)`; fails, rather than
    /// wrapping around, when the coordinate is outside the grid. The grid
    /// afterwards holds whatever the caller wrote through the borrow.
    pub fn get_pixel_mut(&mut self, x: usize, y: usize) -> (r: Option<&mut u8>)
        ensures
            x < VRAM_WIDTH && y < VRAM_HEIGHT ==> (r matches Some(p) && *p == old(
                self,
            )@[y as int][x as int] && final(self)@ == old(self)@.update(y as int,
                old(self)@[y as int].update(x as int, *final(p)))),
            !(x < VRAM_WIDTH && y < VRAM_HEIGHT) ==> r is None && final(self)@ == old(self)@,
    {
        if x < VRAM_WIDTH && y < VRAM_HEIGHT {
            Some(&mut self.arr[y][x])
        } else {
            None
        }
    }

    /// Toggles the pixel at `(x, y)` by an XOR with 1 and reports whether an
    /// already-on pixel was turned off; a coordinate outside the grid is
    /// skipped, leaving the grid unchanged.
    pub fn set_pixel(&mut self, x: usize, y: usize) -> (r: bool)
        ensures
            x < VRAM_WIDTH && y < VRAM_HEIGHT ==> ({
                &&& r == (old(self)@[y as int][x as int] == 1)
                &&& final(self)@ == old(self)@.update(y as int,
                    old(self)@[y as int].update(x as int, flip(old(self)@[y as int][x as int])))
            }),
            !(x < VRAM_WIDTH && y < VRAM_HEIGHT) ==> r == false && final(self)@ == old(self)@,
    {
        if x < VRAM_WIDTH && y < VRAM_HEIGHT {
            let mut row = self.arr[y];
            let collision = row[x] == 1;
            row[x] = if collision {
                0
            } else {
                1
            };
            self.arr[y] = row;
            proof {
                assert(self@ =~~= old(self)@.update(y as int,
                    old(self)@[y as int].update(x as int, flip(old(self)@[y as int][x as int]))));
            }
            collision
        } else {
            false
        }
    }

    /// Draws a sprite at `(x, y)`: each set bit of each row byte toggles the
    /// corresponding pixel by an XOR with 1, pixels outside the grid are
    /// clipped, and the result is 1 iff some already-on pixel was turned off.
    /// The result goes straight to the flag register of the caller.
    #[verifier::loop_isolation(false)]
    pub fn put_sprite(&mut self, sprite: Sprite, x: usize, y: usize) -> (r: u8)
        ensures
            final(self)@ == blit_grid(old(self)@, sprite.data@, x as int, y as int),
            r == (if blit_collision(old(self)@, sprite.data@, x as int, y as int) {
                1u8
            } else {
                0u8
            }),
    {
        let ghost g = self@;
        let ghost rows = sprite.data@;
        let mut hit = false;
        let mut i: usize = 0;
        proof {
            assert(self@ =~~= blit_grid_partial(g, rows, x as int, y as int, 0, 0));
        }
        while i < sprite.data.len()
            invariant
                i <= sprite.data@.len(),
                self@ == blit_grid_partial(g, rows, x as int, y as int, i as int, 0),
                hit == blit_collision_partial(g, rows, x as int, y as int, i as int, 0),
            decreases sprite.data@.len() - i,
        {
            let line = sprite.data[i];
            let mut j: usize = 0;
            while j < 8
                invariant
                    j <= 8,
                    self@ == blit_grid_partial(g, rows, x as int, y as int, i as int, j as int),
                    hit == blit_collision_partial(g, rows, x as int, y as int, i as int, j as int),
                decreases 8 - j,
            {
                let ghost r0 = y + i as int;
                let ghost c0 = x + j as int;
                if bit_of_byte(line, j) {
                    if x < VRAM_WIDTH && j < VRAM_WIDTH - x && y < VRAM_HEIGHT
                        && i < VRAM_HEIGHT - y {
                        let col = self.set_pixel(x + j, y + i);
                        if col {
                            hit = true;
                        }
                        proof {
                            assert(self@ =~~= blit_grid_partial(g, rows, x as int, y as int,
                                i as int, j + 1));
                            if col {
                                assert(blit_collision_partial(g, rows, x as int, y as int,
                                    i as int, j + 1)) by {
                                    assert(sprite_covers(rows, x as int, y as int, r0, c0)
                                        && blit_done(x as int, y as int, r0, c0, i as int, j + 1)
                                        && g[r0][c0] == 1);
                                }
                            }
                        }
                    } else {
                        proof {
                            assert(self@ =~~= blit_grid_partial(g, rows, x as int, y as int,
                                i as int, j + 1));
                        }
                    }
                } else {
                    proof {
                        assert(self@ =~~= blit_grid_partial(g, rows, x as int, y as int,
                            i as int, j + 1));
                    }
                }
                j = j + 1;
            }
            proof {
                assert(self@ =~~= blit_grid_partial(g, rows, x as int, y as int, i + 1, 0));
                assert(blit_collision_partial(g, rows, x as int, y as int, i + 1, 0)
                    == blit_collision_partial(g, rows, x as int, y as int, i as int, 8)) by {
                    if blit_collision_partial(g, rows, x as int, y as int, i as int, 8) {
                        let (r, c) = choose|r: int, c: int|
                            0 <= r < g.len() && 0 <= c < g[r].len()
                                && sprite_covers(rows, x as int, y as int, r, c)
                                && blit_done(x as int, y as int, r, c, i as int, 8)
                                && g[r][c] == 1;
                        assert(blit_done(x as int, y as int, r, c, i + 1, 0));
                    }
                    if blit_collision_partial(g, rows, x as int, y as int, i + 1, 0) {
                        let (r, c) = choose|r: int, c: int|
                            0 <= r < g.len() && 0 <= c < g[r].len()
                                && sprite_covers(rows, x as int, y as int, r, c)
                                && blit_done(x as int, y as int, r, c, i + 1, 0)
                                && g[r][c] == 1;
                        assert(blit_done(x as int, y as int, r, c, i as int, 8));
                    }
                }
            }
            i = i + 1;
        }
        proof {
            assert(self@ =~~= blit_grid(g, rows, x as int, y as int));
            assert(blit_collision(g, rows, x as int, y as int) == blit_collision_partial(g, rows,
                x as int, y as int, rows.len() as int, 0)) by {
                if blit_collision_partial(g, rows, x as int, y as int, rows.len() as int, 0) {
                    let (r, c) = choose|r: int, c: int|
                        0 <= r < g.len() && 0 <= c < g[r].len()
                            && sprite_covers(rows, x as int, y as int, r, c)
                            && blit_done(x as int, y as int, r, c, rows.len() as int, 0)
                            && g[r][c] == 1;
                    assert(sprite_covers(rows, x as int, y as int, r, c) && g[r][c] == 1);
                }
                if blit_collision(g, rows, x as int, y as int) {
                    let (r, c) = choose|r: int, c: int|
                        0 <= r < g.len() && 0 <= c < g[r].len()
                            && sprite_covers(rows, x as int, y as int, r, c) && g[r][c] == 1;
                    assert(blit_done(x as int, y as int, r, c, rows.len() as int, 0));
                }
            }
        }
        if hit {
            1
        } else {
            0
        }
    }

    /// Scales the grid up by ten in each direction into a flat row-major
    /// buffer of screen words: an on pixel becomes 0xFFFF, an off pixel 0.
    #[verifier::loop_isolation(false)]
    pub fn to_screen_buffer(&self) -> (r: Vec<u32>)
        ensures
            r@.len() == SCREEN_WIDTH * SCREEN_HEIGHT,
            forall|k: int|
                0 <= k < SCREEN_WIDTH * SCREEN_HEIGHT
                    ==> r@[k] == (if self@[(k / SCREEN_WIDTH as int) / 10][(k % SCREEN_WIDTH as int)
                        / 10] == 1 {
                        0xFFFFu32
                    } else {
                        0u32
                    }),
    {
        let mut buffer: Vec<u32> = vec![0u32; SCREEN_HEIGHT * SCREEN_WIDTH];
        let mut y: usize = 0;
        while y < SCREEN_HEIGHT
            invariant
                y <= SCREEN_HEIGHT,
                buffer@.len() == SCREEN_WIDTH * SCREEN_HEIGHT,
                forall|k: int|
                    0 <= k < y * SCREEN_WIDTH
                        ==> buffer@[k] == (if self@[(k / SCREEN_WIDTH as int) / 10][(k
                            % SCREEN_WIDTH as int) / 10] == 1 {
                            0xFFFFu32
                        } else {
                            0u32
                        }),
            decreases SCREEN_HEIGHT - y,
        {
            let y_vram_coord = y / 10;
            let mut x: usize = 0;
            while x < SCREEN_WIDTH
                invariant
                    x <= SCREEN_WIDTH,
                    buffer@.len() == SCREEN_WIDTH * SCREEN_HEIGHT,
                    forall|k: int|
                        0 <= k < y * SCREEN_WIDTH + x
                            ==> buffer@[k] == (if self@[(k / SCREEN_WIDTH as int) / 10][(k
                                % SCREEN_WIDTH as int) / 10] == 1 {
                                0xFFFFu32
                            } else {
                                0u32
                            }),
                decreases SCREEN_WIDTH - x,
            {
                let x_vram_coord = x / 10;
                let pixel = self.get_pixel(x_vram_coord, y_vram_coord);
                let color: u32 = match pixel {
                    Some(p) => if *p == 1 {
                        0xFFFF
                    } else {
                        0
                    },
                    None => 0,
                };
                buffer[y * SCREEN_WIDTH + x] = color;
                x = x + 1;
            }
            y = y + 1;
        }
        buffer
    }
}

/// Whether the sprite cell aimed at grid cell `(r, c)` has been processed
/// once the rows before `i` are done and, within row `i`, the bits before
/// `j` are done.
spec fn blit_done(x: int, y: int, r: int, c: int, i: int, j: int) -> bool {
    r - y < i || (r - y == i && c - x < j)
}

/// The grid in the middle of a blit: covered cells already processed are
/// toggled, all other cells still hold their original value.
spec fn blit_grid_partial(
    g: Seq<Seq<u8>>,
    rows: Seq<u8>,
    x: int,
    y: int,
    i: int,
    j: int,
) -> Seq<Seq<u8>> {
    Seq::new(g.len(), |r: int|
        Seq::new(g[r].len(), |c: int|
            if sprite_covers(rows, x, y, r, c) && blit_done(x, y, r, c, i, j) {
                flip(g[r][c])
            } else {
                g[r][c]
            }))
}

/// Whether a collision has been seen among the cells already processed.
spec fn blit_collision_partial(
    g: Seq<Seq<u8>>,
    rows: Seq<u8>,
    x: int,
    y: int,
    i: int,
    j: int,
) -> bool {
    exists|r: int, c: int|
        0 <= r < g.len() && 0 <= c < g[r].len() && sprite_covers(rows, x, y, r, c)
            && blit_done(x, y, r, c, i, j) && g[r][c] == 1
}

/// Reads bit `j` (most significant first) of a sprite row byte.
fn bit_of_byte(byte: u8, j: usize) -> (r: bool)
    requires
        j < 8,
    ensures
        r == bit_at(byte, j as int),
{
    let p: u8 = match j {
        0 => 128,
        1 => 64,
        2 => 32,
        3 => 16,
        4 => 8,
        5 => 4,
        6 => 2,
        _ => 1,
    };
    proof {
        reveal_with_fuel(pow2_int, 9);
    }
    (byte / p) % 2 == 1
}

/// The bits of a byte, most significant first.
pub fn bits_from_u8(byte: u8) -> (r: Vec<bool>)
    ensures
        r@.len() == 8,
        forall|j: int| 0 <= j < 8 ==> r@[j] == bit_at(byte, j),
{
    let mut bits: Vec<bool> = Vec::new();
    let mut j: usize = 0;
    while j < 8
        invariant
            j <= 8,
            bits@.len() == j,
            forall|k: int| 0 <= k < j ==> bits@[k] == bit_at(byte, k),
        decreases 8 - j,
    {
        bits.push(bit_of_byte(byte, j));
        j = j + 1;
    }
    bits
}

/// Drawing the same sprite twice at the same coordinates restores every
/// pixel to its original value, and the second draw reports a collision
/// exactly when the first draw turned some pixel on.
pub proof fn lemma_blit_twice(g: Seq<Seq<u8>>, rows: Seq<u8>, x: int, y: int)
    requires
        forall|r: int, c: int|
            0 <= r < g.len() && 0 <= c < g[r].len() ==> g[r][c] == 0 || g[r][c] == 1,
    ensures
        blit_grid(blit_grid(g, rows, x, y), rows, x, y) == g,
        blit_collision(blit_grid(g, rows, x, y), rows, x, y) == (exists|r: int, c: int|
            0 <= r < g.len() && 0 <= c < g[r].len() && sprite_covers(rows, x, y, r, c)
                && g[r][c] == 0),
{
    let g1 = blit_grid(g, rows, x, y);
    assert(blit_grid(g1, rows, x, y) =~~= g);
    if blit_collision(g1, rows, x, y) {
        let (r, c) = choose|r: int, c: int|
            0 <= r < g1.len() && 0 <= c < g1[r].len() && sprite_covers(rows, x, y, r, c)
                && g1[r][c] == 1;
        assert(0 <= r < g.len() && 0 <= c < g[r].len() && sprite_covers(rows, x, y, r, c)
            && g[r][c] == 0);
    }
    if exists|r: int, c: int|
        0 <= r < g.len() && 0 <= c < g[r].len() && sprite_covers(rows, x, y, r, c)
            && g[r][c] == 0 {
        let (r, c) = choose|r: int, c: int|
            0 <= r < g.len() && 0 <= c < g[r].len() && sprite_covers(rows, x, y, r, c)
                && g[r][c] == 0;
        assert(0 <= r < g1.len() && 0 <= c < g1[r].len() && sprite_covers(rows, x, y, r, c)
            && g1[r][c] == 1);
    }
}

/// Sprites are clipped at the edges of the grid, never wrapped: a pixel
/// whose cell lies outside the sprite's row span `y..y+rows.len()` or column
/// span `x..x+8` is unchanged by the draw.
pub proof fn lemma_blit_clips(g: Seq<Seq<u8>>, rows: Seq<u8>, x: int, y: int, r: int, c: int)
    requires
        0 <= r < g.len(),
        0 <= c < g[r].len(),
        !(x <= c < x + 8) || !(y <= r < y + rows.len()),
    ensures
        blit_grid(g, rows, x, y)[r][c] == g[r][c],
{
}

impl Default for Vram {
    /// A new framebuffer has every pixel off.
    fn default() -> (r: Self)
        ensures
            r@ == blank_grid(),
            r.wf(),
    {
        let r = Vram { arr: vram_default() };
        proof {
            assert(r@ =~~= blank_grid());
        }
        r
    }
}

} // verus!
