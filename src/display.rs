use vstd::prelude::*;

verus! {

/// Width of the screen in pixels.
pub const WIDTH: usize = 64;

/// Height of the screen in pixels.
pub const HEIGHT: usize = 32;

/// Number of pixels on the screen.
pub const PIXELS: usize = 2048;

/// Most rows a sprite can have.
pub const MAX_SPRITE_ROWS: usize = 15;

/// A monochrome screen of `WIDTH` x `HEIGHT` pixels, stored row by row.
pub struct Display {
    pixels: [bool; 2048],
}

impl View for Display {
    type V = Seq<bool>;

    closed spec fn view(&self) -> Seq<bool> {
        self.pixels@
    }
}

/// Whether column `col` (0 is the leftmost) of the sprite row `row` is set.
pub open spec fn row_bit(row: u8, col: int) -> bool {
    row & (0x80u8 >> (col as u8)) != 0
}

/// Whether the sprite `sprite`, drawn with its top-left corner at
/// (`x`, `y`) and wrapping round both edges, sets pixel number `i`.
pub open spec fn covers(x: int, y: int, sprite: Seq<u8>, i: int) -> bool {
    let dx = (i % (WIDTH as int) - x) % (WIDTH as int);
    let dy = (i / (WIDTH as int) - y) % (HEIGHT as int);
    dy < sprite.len() && dx < 8 && row_bit(sprite[dy], dx)
}

/// The screen after XOR-drawing `sprite` at (`x`, `y`).
pub open spec fn drawn(screen: Seq<bool>, x: int, y: int, sprite: Seq<u8>) -> Seq<bool> {
    Seq::new(screen.len(), |i: int| screen[i] != covers(x, y, sprite, i))
}

/// Whether drawing `sprite` at (`x`, `y`) turns off a pixel that was on.
pub open spec fn collides(screen: Seq<bool>, x: int, y: int, sprite: Seq<u8>) -> bool {
    exists|i: int| 0 <= i < screen.len() && screen[i] && #[trigger] covers(x, y, sprite, i)
}

/// A screen with every pixel off.
pub open spec fn blank() -> Seq<bool> {
    Seq::new(PIXELS as nat, |i: int| false)
}

/// The distance from `b` forward to `a` round a circle of `m` positions.
proof fn lemma_wrapped_offset(a: int, b: int, m: int)
    requires
        0 <= a < m,
        0 <= b,
        0 < m,
    ensures
        (a + m - b % m) % m == (a - b) % m,
{
    let q = b / m;
    vstd::arithmetic::div_mod::lemma_fundamental_div_mod(b, m);
    vstd::arithmetic::div_mod::lemma_mod_multiples_vanish(q + 1, a - b, m);
    assert(a + m - b % m == (q + 1) * m + (a - b)) by (nonlinear_arith)
        requires
            b == m * q + b % m,
    ;
}

impl Display {
    /// The screen always has `PIXELS` pixels.
    pub proof fn lemma_size(&self)
        ensures
            self@.len() == PIXELS,
    {
    }

    /// A screen with every pixel off.
    pub fn new() -> (r: Display)
        ensures
            r@ == blank(),
    {
        let r = Display { pixels: [false; 2048] };
        assert(r@ =~= blank());
        r
    }

    /// Turns every pixel off.
    pub fn clear(&mut self)
        ensures
            final(self)@ == blank(),
    {
        self.pixels = [false; 2048];
        assert(self@ =~= blank());
    }

    /// Whether the pixel at column `x`, row `y` is on.
    pub fn pixel(&self, x: usize, y: usize) -> (r: bool)
        requires
            x < WIDTH,
            y < HEIGHT,
        ensures
            r == self@[y * WIDTH + x],
    {
        self.pixels[y * WIDTH + x]
    }

    /// XOR-draws `sprite`, one byte per row and most significant bit
    /// leftmost, with its top-left corner at (`x`, `y`), wrapping round the
    /// edges. Returns whether some pixel that was on went off.
    pub fn draw(&mut self, x: u8, y: u8, sprite: &[u8]) -> (collision: bool)
        requires
            sprite@.len() <= MAX_SPRITE_ROWS,
        ensures
            final(self)@ == drawn(old(self)@, x as int, y as int, sprite@),
            collision == collides(old(self)@, x as int, y as int, sprite@),
    {
        let ghost before = self@;
        let ox: usize = (x as usize) % WIDTH;
        let oy: usize = (y as usize) % HEIGHT;
        let mut collision = false;
        let mut i: usize = 0;
        while i < PIXELS
            invariant
                i <= PIXELS,
                before.len() == PIXELS,
                ox == x as int % WIDTH as int,
                oy == y as int % HEIGHT as int,
                sprite@.len() <= MAX_SPRITE_ROWS,
                self@.len() == PIXELS,
                forall|j: int| 0 <= j < i ==> self@[j] == (before[j] != covers(x as int, y as int, sprite@, j)),
                forall|j: int| i <= j < PIXELS ==> self@[j] == before[j],
                collision == exists|j: int| 0 <= j < i && before[j] && #[trigger] covers(x as int, y as int, sprite@, j),
            decreases PIXELS - i,
        {
            let dx: usize = (i % WIDTH + WIDTH - ox) % WIDTH;
            let dy: usize = (i / WIDTH + HEIGHT - oy) % HEIGHT;
            proof {
                lemma_wrapped_offset(i as int % WIDTH as int, x as int, WIDTH as int);
                lemma_wrapped_offset(i as int / WIDTH as int, y as int, HEIGHT as int);
            }
            if dy < sprite.len() && dx < 8 && sprite[dy] & (0x80u8 >> (dx as u8)) != 0 {
                assert(covers(x as int, y as int, sprite@, i as int));
                if self.pixels[i] {
                    collision = true;
                }
                let p = !self.pixels[i];
                self.pixels[i] = p;
            } else {
                assert(!covers(x as int, y as int, sprite@, i as int));
            }
            i = i + 1;
        }
        assert(self@ =~= drawn(before, x as int, y as int, sprite@));
        collision
    }
}

} // verus!
