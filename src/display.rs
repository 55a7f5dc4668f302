use vstd::prelude::*;

verus! {

/// Width of the display in pixels.
pub const WIDTH: u8 = 64;

/// Height of the display in pixels.
pub const HEIGHT: u8 = 32;

/// Number of pixels on the display.
pub const SIZE: usize = 2048;

/// Position of pixel `(x, y)` in the row-major frame buffer.
pub open spec fn pixel_index(x: int, y: int) -> int {
    x + 64 * y
}

/// Whether column `col` (0 = leftmost) of an 8-pixel sprite row is set.
pub open spec fn sprite_bit(byte: u8, col: int) -> bool {
    byte & (0x80u8 >> (col as u8)) != 0
}

/// Whether sprite row `row`, column `col` exists and is set.
pub open spec fn covers(sprite: Seq<u8>, row: int, col: int) -> bool {
    0 <= row < sprite.len() && 0 <= col < 8 && sprite_bit(sprite[row], col)
}

/// The pixel on which sprite cell `(row, col)` lands when the sprite is
/// placed at `(vx, vy)`; coordinates wrap around the display edges.
pub open spec fn target(vx: u8, vy: u8, row: int, col: int) -> int {
    pixel_index((vx + col) % 64, (vy + row) % 32)
}

/// Cell `(row, col)` comes before cell `(r, c)` in row-major order.
pub open spec fn before(row: int, col: int, r: int, c: int) -> bool {
    row < r || (row == r && col < c)
}

/// Some set sprite cell before `(r, c)` lands on pixel `p`.
pub open spec fn hit_upto(sprite: Seq<u8>, vx: u8, vy: u8, p: int, r: int, c: int) -> bool {
    exists|row: int, col: int|
        #![trigger covers(sprite, row, col), target(vx, vy, row, col)]
        before(row, col, r, c) && covers(sprite, row, col) && target(vx, vy, row, col) == p
}

/// Some set sprite cell before `(r, c)` lands on a pixel that is on in `d`.
pub open spec fn collides_upto(d: Seq<bool>, sprite: Seq<u8>, vx: u8, vy: u8, r: int, c: int) -> bool {
    exists|row: int, col: int|
        #![trigger covers(sprite, row, col), target(vx, vy, row, col)]
        before(row, col, r, c) && covers(sprite, row, col) && d[target(vx, vy, row, col)]
}

/// Some set cell of the sprite placed at `(vx, vy)` lands on pixel `p`.
pub open spec fn hit(sprite: Seq<u8>, vx: u8, vy: u8, p: int) -> bool {
    hit_upto(sprite, vx, vy, p, sprite.len() as int, 0)
}

/// Some set cell of the sprite placed at `(vx, vy)` lands on a pixel that is on in `d`.
pub open spec fn collides(d: Seq<bool>, sprite: Seq<u8>, vx: u8, vy: u8) -> bool {
    collides_upto(d, sprite, vx, vy, sprite.len() as int, 0)
}

/// The frame `d` with every pixel that the sprite hits toggled.
pub open spec fn drawn(d: Seq<bool>, sprite: Seq<u8>, vx: u8, vy: u8) -> Seq<bool> {
    Seq::new(d.len(), |p: int| d[p] != hit(sprite, vx, vy, p))
}

/// A frame with every pixel off.
pub open spec fn blank() -> Seq<bool> {
    Seq::new(SIZE as nat, |p: int| false)
}

#[verifier::nonlinear]
proof fn lemma_pixel_index_injective(x1: int, y1: int, x2: int, y2: int)
    requires
        0 <= x1 < 64,
        0 <= x2 < 64,
        pixel_index(x1, y1) == pixel_index(x2, y2),
    ensures
        x1 == x2,
        y1 == y2,
{
}

#[verifier::nonlinear]
proof fn lemma_wrap_injective(base: int, a: int, b: int, m: int)
    requires
        0 <= base,
        0 <= a < m,
        0 <= b < m,
        (base + a) % m == (base + b) % m,
    ensures
        a == b,
{
}

/// Distinct cells of a sprite at most 32 rows tall land on distinct pixels.
proof fn lemma_target_injective(vx: u8, vy: u8, r1: int, c1: int, r2: int, c2: int)
    requires
        0 <= r1 < 32,
        0 <= r2 < 32,
        0 <= c1 < 8,
        0 <= c2 < 8,
        target(vx, vy, r1, c1) == target(vx, vy, r2, c2),
    ensures
        r1 == r2,
        c1 == c2,
{
    lemma_pixel_index_injective((vx + c1) % 64, (vy + r1) % 32, (vx + c2) % 64, (vy + r2) % 32);
    lemma_wrap_injective(vx as int, c1, c2, 64);
    lemma_wrap_injective(vy as int, r1, r2, 32);
}

proof fn lemma_target_in_range(vx: u8, vy: u8, row: int, col: int)
    requires
        0 <= row,
        0 <= col,
    ensures
        0 <= target(vx, vy, row, col) < SIZE,
{
    assert(0 <= (vx + col) % 64 < 64);
    assert(0 <= (vy + row) % 32 < 32);
    assert(0 <= pixel_index((vx + col) % 64, (vy + row) % 32) < SIZE) by (nonlinear_arith)
        requires
            0 <= (vx + col) % 64 < 64,
            0 <= (vy + row) % 32 < 32,
    ;
}

/// Drawing the same sprite twice at the same place gives back the frame
/// drawn on; the second draw reports a collision exactly when some set
/// sprite cell landed on a pixel that was off before the first draw.
pub proof fn lemma_draw_twice(d: Seq<bool>, sprite: Seq<u8>, vx: u8, vy: u8)
    requires
        d.len() == SIZE,
    ensures
        drawn(drawn(d, sprite, vx, vy), sprite, vx, vy) == d,
        collides(drawn(d, sprite, vx, vy), sprite, vx, vy) <==> exists|row: int, col: int|
            #![trigger covers(sprite, row, col), target(vx, vy, row, col)]
            covers(sprite, row, col) && !d[target(vx, vy, row, col)],
{
    let d1 = drawn(d, sprite, vx, vy);
    assert(drawn(d1, sprite, vx, vy) =~= d);
    let n = sprite.len() as int;
    if collides(d1, sprite, vx, vy) {
        let (row, col) = choose|row: int, col: int|
            before(row, col, n, 0) && covers(sprite, row, col) && d1[target(vx, vy, row, col)];
        lemma_target_in_range(vx, vy, row, col);
        assert(hit(sprite, vx, vy, target(vx, vy, row, col)));
        assert(!d[target(vx, vy, row, col)]);
    }
    if exists|row: int, col: int|
        #![trigger covers(sprite, row, col), target(vx, vy, row, col)]
        covers(sprite, row, col) && !d[target(vx, vy, row, col)] {
        let (row, col) = choose|row: int, col: int|
            covers(sprite, row, col) && !d[target(vx, vy, row, col)];
        lemma_target_in_range(vx, vy, row, col);
        assert(hit(sprite, vx, vy, target(vx, vy, row, col)));
        assert(d1[target(vx, vy, row, col)]);
        assert(before(row, col, n, 0));
    }
}

/// A 64x32 monochrome frame buffer, row-major.
pub struct Display {
    frame_buffer: [bool; 2048],
}

impl View for Display {
    type V = Seq<bool>;

    closed spec fn view(&self) -> Seq<bool> {
        self.frame_buffer@
    }
}

impl Display {
    /// The view always holds every pixel.
    pub proof fn lemma_view_len(&self)
        ensures
            self@.len() == SIZE,
    {
    }

    /// A display with every pixel off.
    pub fn new() -> (r: Self)
        ensures
            r@ == blank(),
    {
        let r = Self { frame_buffer: [false; 2048] };
        assert(r@ =~= blank());
        r
    }

    /// Turns every pixel off.
    pub fn clear(&mut self)
        ensures
            final(self)@ == blank(),
    {
        self.frame_buffer = [false; 2048];
        assert(self@ =~= blank());
    }

    fn index(x: u8, y: u8) -> (r: usize)
        requires
            x < WIDTH,
            y < HEIGHT,
        ensures
            r == pixel_index(x as int, y as int),
            r < SIZE,
    {
        (x as usize) + (WIDTH as usize) * (y as usize)
    }

    /// Whether pixel `(x, y)` is on.
    pub fn get(&self, x: u8, y: u8) -> (r: bool)
        requires
            x < WIDTH,
            y < HEIGHT,
        ensures
            r == self@[pixel_index(x as int, y as int)],
    {
        self.frame_buffer[Self::index(x, y)]
    }

    /// Sets pixel `(x, y)` to `value`.
    pub fn set(&mut self, x: u8, y: u8, value: bool)
        requires
            x < WIDTH,
            y < HEIGHT,
        ensures
            final(self)@ == old(self)@.update(pixel_index(x as int, y as int), value),
    {
        let k = Self::index(x, y);
        self.frame_buffer[k] = value;
    }

    /// XORs an 8-pixel-wide sprite, one byte per row, onto the display with
    /// its top-left corner at `(vx, vy)`, wrapping each pixel around the
    /// edges; returns whether any pixel went from on to off.
    pub fn draw_sprite(&mut self, sprite: &[u8], vx: u8, vy: u8) -> (collision: bool)
        requires
            sprite@.len() <= HEIGHT,
        ensures
            final(self)@ == drawn(old(self)@, sprite@, vx, vy),
            collision == collides(old(self)@, sprite@, vx, vy),
    {
        let ghost d0 = self@;
        let ghost s = sprite@;
        let mut collision = false;
        let mut row: usize = 0;
        while row < sprite.len()
            invariant
                row <= s.len() <= 32,
                s == sprite@,
                self@.len() == SIZE,
                d0.len() == SIZE,
                forall|p: int| 0 <= p < SIZE ==> self@[p] == (d0[p] != hit_upto(s, vx, vy, p, row as int, 0)),
                collision == collides_upto(d0, s, vx, vy, row as int, 0),
            decreases s.len() - row,
        {
            let byte = sprite[row];
            let y: usize = (vy as usize + row) % 32;
            let mut col: usize = 0;
            while col < 8
                invariant
                    row < s.len() <= 32,
                    col <= 8,
                    s == sprite@,
                    byte == s[row as int],
                    y == (vy + row) % 32,
                    self@.len() == SIZE,
                    d0.len() == SIZE,
                    forall|p: int| 0 <= p < SIZE ==> self@[p] == (d0[p] != hit_upto(s, vx, vy, p, row as int, col as int)),
                    collision == collides_upto(d0, s, vx, vy, row as int, col as int),
                decreases 8 - col,
            {
                let ghost r = row as int;
                let ghost c = col as int;
                if byte & (0x80u8 >> (col as u8)) != 0 {
                    let x: usize = (vx as usize + col) % 64;
                    let idx: usize = x + 64 * y;
                    let ghost q = target(vx, vy, r, c);
                    assert(idx == q);
                    proof {
                        lemma_target_in_range(vx, vy, r, c);
                        if hit_upto(s, vx, vy, q, r, c) {
                            let (r2, c2) = choose|r2: int, c2: int|
                                before(r2, c2, r, c) && covers(s, r2, c2) && target(vx, vy, r2, c2) == q;
                            lemma_target_injective(vx, vy, r, c, r2, c2);
                        }
                    }
                    let was = self.frame_buffer[idx];
                    self.frame_buffer[idx] = !was;
                    if was {
                        collision = true;
                    }
                    assert(covers(s, r, c));
                    assert forall|p: int| 0 <= p < SIZE implies self@[p] == (d0[p] != hit_upto(s, vx, vy, p, r, c + 1)) by {
                        if p != q {
                            assert(hit_upto(s, vx, vy, p, r, c + 1) == hit_upto(s, vx, vy, p, r, c));
                        } else {
                            assert(hit_upto(s, vx, vy, p, r, c + 1));
                        }
                    }
                    assert(collides_upto(d0, s, vx, vy, r, c + 1) == (collision)) by {
                        if was {
                            assert(d0[q]);
                        }
                    }
                } else {
                    assert(!covers(s, r, c));
                    assert forall|p: int| 0 <= p < SIZE implies hit_upto(s, vx, vy, p, r, c + 1) == hit_upto(s, vx, vy, p, r, c) by {}
                    assert(collides_upto(d0, s, vx, vy, r, c + 1) == collides_upto(d0, s, vx, vy, r, c));
                }
                col = col + 1;
            }
            proof {
                let r = row as int;
                assert forall|p: int| 0 <= p < SIZE implies hit_upto(s, vx, vy, p, r, 8) == hit_upto(s, vx, vy, p, r + 1, 0) by {}
                assert(collides_upto(d0, s, vx, vy, r, 8) == collides_upto(d0, s, vx, vy, r + 1, 0));
            }
            row = row + 1;
        }
        assert(self@ =~= drawn(d0, s, vx, vy));
        collision
    }
}

} // verus!
