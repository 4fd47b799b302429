use vstd::prelude::*;

verus! {

/// One pixel of the off-screen buffer: an opaque 8-bit RGB colour.
/// Models the blit pixel format of the display hardware, which carries
/// the same three channels.
#[derive(Clone, Copy, PartialEq, Eq, Structural, Debug)]
pub struct Rgb {
    pub red: u8,
    pub green: u8,
    pub blue: u8,
}

/// The colour every pixel holds after a clear.
pub open spec fn black() -> Rgb {
    Rgb { red: 0, green: 0, blue: 0 }
}

impl Rgb {
    pub fn new(red: u8, green: u8, blue: u8) -> (r: Rgb)
        ensures
            r == (Rgb { red, green, blue }),
    {
        Rgb { red, green, blue }
    }

    pub fn black() -> (r: Rgb)
        ensures
            r == black(),
    {
        Rgb { red: 0, green: 0, blue: 0 }
    }
}

/// Registration marker for the display subsystem. The wiring that opens the
/// hardware display and schedules the commit step lives outside the verified
/// core; it owns one `Buffer` sized to the hardware mode's resolution.
pub struct GraphicsPlugin;

/// The off-screen pixel buffer: `width * height` pixels in row-major order,
/// index `y * width + x` for the pixel at `(x, y)`.
pub struct Buffer {
    pub width: usize,
    pub height: usize,
    pub pixels: Vec<Rgb>,
}

/// Index arithmetic stays inside the buffer for any in-bounds coordinate.
pub proof fn lemma_index_bound(x: int, y: int, w: int, h: int) by (nonlinear_arith)
    requires
        0 <= x < w,
        0 <= y < h,
    ensures
        0 <= y * w + x < w * h,
{
}

impl Buffer {
    /// The structural invariant: the pixel store exactly covers the
    /// `width * height` grid.
    pub open spec fn wf(&self) -> bool {
        self.pixels@.len() == self.width * self.height
    }

    /// Allocate a buffer of `width * height` pixels, all black.
    pub fn new(width: usize, height: usize) -> (b: Buffer)
        requires
            width * height <= usize::MAX,
        ensures
            b.wf(),
            b.width == width,
            b.height == height,
            forall|i: int| 0 <= i < b.pixels@.len() ==> b.pixels@[i] == black(),
    {
        let n: usize = width * height;
        let mut pixels: Vec<Rgb> = Vec::new();
        let mut i: usize = 0;
        while i < n
            invariant
                i <= n,
                pixels@.len() == i,
                forall|j: int| 0 <= j < i ==> pixels@[j] == black(),
            decreases n - i,
        {
            pixels.push(Rgb::black());
            i = i + 1;
        }
        Buffer { width, height, pixels }
    }

    /// The `width` and `height` of this buffer.
    pub fn size(&self) -> (r: (usize, usize))
        ensures
            r == (self.width, self.height),
    {
        (self.width, self.height)
    }

    /// Read a single pixel; out-of-bounds coordinates address no pixel.
    pub fn pixel(&self, x: usize, y: usize) -> (r: Option<Rgb>)
        requires
            self.wf(),
        ensures
            x < self.width && y < self.height ==> r == Some(self.pixels@[y * self.width + x]),
            !(x < self.width && y < self.height) ==> r is None,
    {
        if x < self.width && y < self.height {
            // Binding the length brings its usize bound into scope for the
            // index arithmetic below.
            let _n: usize = self.pixels.len();
            proof {
                lemma_index_bound(x as int, y as int, self.width as int, self.height as int);
            }
            Some(self.pixels[y * self.width + x])
        } else {
            None
        }
    }

    /// Write a single pixel; an out-of-bounds write changes nothing and
    /// reports a miss. A write lands exactly when both coordinates are
    /// inside the grid.
    pub fn set_pixel(&mut self, x: usize, y: usize, p: Rgb) -> (hit: bool)
        requires
            old(self).wf(),
        ensures
            final(self).wf(),
            final(self).width == old(self).width,
            final(self).height == old(self).height,
            hit == (x < old(self).width && y < old(self).height),
            hit ==> final(self).pixels@ == old(self).pixels@.update(
                y * old(self).width + x,
                p,
            ),
            !hit ==> final(self).pixels@ == old(self).pixels@,
    {
        if x < self.width && y < self.height {
            // Binding the length brings its usize bound into scope for the
            // index arithmetic below.
            let _n: usize = self.pixels.len();
            proof {
                lemma_index_bound(x as int, y as int, self.width as int, self.height as int);
            }
            let idx: usize = y * self.width + x;
            self.pixels.set(idx, p);
            true
        } else {
            false
        }
    }

    /// Reset every pixel to black, whatever the buffer held before.
    pub fn clear(&mut self)
        requires
            old(self).wf(),
        ensures
            final(self).wf(),
            final(self).width == old(self).width,
            final(self).height == old(self).height,
            forall|i: int|
                0 <= i < final(self).pixels@.len() ==> final(self).pixels@[i] == black(),
    {
        let n: usize = self.pixels.len();
        let mut i: usize = 0;
        while i < n
            invariant
                i <= n,
                self.wf(),
                self.width == old(self).width,
                self.height == old(self).height,
                self.pixels@.len() == n,
                forall|j: int| 0 <= j < i ==> self.pixels@[j] == black(),
            decreases n - i,
        {
            self.pixels.set(i, Rgb::black());
            i = i + 1;
        }
    }
}

/// A decoded raster asset: `width * height` texels in row-major order.
/// `None` marks a fully transparent texel; there is no partial alpha.
pub struct Sprite {
    pub width: usize,
    pub height: usize,
    pub pixels: Vec<Option<Rgb>>,
}

impl Sprite {
    /// The structural invariant: the texel store exactly covers the
    /// `width * height` grid.
    pub open spec fn wf(&self) -> bool {
        self.pixels@.len() == self.width * self.height
    }

    pub fn width(&self) -> (r: usize)
        ensures
            r == self.width,
    {
        self.width
    }

    pub fn height(&self) -> (r: usize)
        ensures
            r == self.height,
    {
        self.height
    }
}

/// The texel that byte-position `i` of an 8-bit RGBA stream decodes to:
/// the transparent marker where the alpha byte is zero, the opaque colour
/// otherwise. There is no partial alpha — a binary cutout only.
pub open spec fn cutout_texel(data: Seq<u8>, i: int) -> Option<Rgb> {
    if data[4 * i + 3] == 0 {
        None
    } else {
        Some(Rgb { red: data[4 * i], green: data[4 * i + 1], blue: data[4 * i + 2] })
    }
}

impl Sprite {
    /// Build a sprite from a flat 8-bit RGBA byte stream, four bytes per
    /// texel in row-major order, cutting out every texel whose alpha is 0.
    ///
    /// This is the asset's way into the core. Unpacking the encoded image
    /// container into this stream happens at the process edge, where a
    /// stream the decoder rejects — malformed, or not the fixed 8-bit RGBA
    /// layout — is a fatal configuration fault, never a runtime condition:
    /// no partially decoded asset reaches this function.
    pub fn from_rgba(width: usize, height: usize, data: &Vec<u8>) -> (s: Sprite)
        requires
            data@.len() == 4 * width * height,
        ensures
            s.wf(),
            s.width == width,
            s.height == height,
            forall|i: int| 0 <= i < width * height ==> s.pixels@[i] == cutout_texel(data@, i),
    {
        let len: usize = data.len();
        proof {
            assert(4 * (width * height) == 4 * width * height) by (nonlinear_arith);
        }
        let n: usize = width * height;
        let mut pixels: Vec<Option<Rgb>> = Vec::new();
        let mut i: usize = 0;
        while i < n
            invariant
                i <= n,
                n == width * height,
                data@.len() == 4 * n,
                data@.len() <= usize::MAX,
                pixels@.len() == i,
                forall|j: int| 0 <= j < i ==> pixels@[j] == cutout_texel(data@, j),
            decreases n - i,
        {
            let alpha: u8 = data[4 * i + 3];
            if alpha == 0 {
                pixels.push(None);
            } else {
                pixels.push(Some(Rgb::new(data[4 * i], data[4 * i + 1], data[4 * i + 2])));
            }
            i = i + 1;
        }
        Sprite { width, height, pixels }
    }
}

/// The texel of `sprite` at sprite-local coordinates `(tx, ty)`.
pub open spec fn sprite_texel(sprite: Sprite, tx: int, ty: int) -> Option<Rgb> {
    sprite.pixels@[ty * sprite.width + tx]
}

/// Whether surface pixel `(x, y)` lies under an opaque texel of `sprite`
/// placed at offset `pos`.
pub open spec fn covers(sprite: Sprite, pos: (usize, usize), x: int, y: int) -> bool {
    &&& pos.0 <= x < pos.0 + sprite.width
    &&& pos.1 <= y < pos.1 + sprite.height
    &&& sprite_texel(sprite, x - pos.0, y - pos.1) is Some
}

/// The value surface pixel `(x, y)` holds after `sprite` is composited at
/// offset `pos` over a pixel that held `orig`: the texel where an opaque
/// texel covers it, the old value everywhere else.
pub open spec fn composited_pixel(
    orig: Rgb,
    sprite: Sprite,
    pos: (usize, usize),
    x: int,
    y: int,
) -> Rgb {
    if covers(sprite, pos, x, y) {
        sprite_texel(sprite, x - pos.0, y - pos.1)->Some_0
    } else {
        orig
    }
}

/// As `covers`, but counting only the first `k` texels in row-major order:
/// the prefix a partially finished composite pass has already written.
pub open spec fn covers_before(
    sprite: Sprite,
    pos: (usize, usize),
    x: int,
    y: int,
    k: int,
) -> bool {
    covers(sprite, pos, x, y) && (y - pos.1) * sprite.width + (x - pos.0) < k
}

/// The pixel value after only the first `k` texels were composited.
pub open spec fn composited_prefix_pixel(
    orig: Rgb,
    sprite: Sprite,
    pos: (usize, usize),
    x: int,
    y: int,
    k: int,
) -> Rgb {
    if covers_before(sprite, pos, x, y, k) {
        sprite_texel(sprite, x - pos.0, y - pos.1)->Some_0
    } else {
        orig
    }
}

/// Two in-row coordinates with the same row-major index are the same cell.
pub proof fn lemma_rowmajor_unique(a: int, b: int, c: int, d: int, w: int) by (nonlinear_arith)
    requires
        0 <= a < w,
        0 <= c < w,
        b * w + a == d * w + c,
    ensures
        a == c,
        b == d,
{
}

/// The pixel of a row-major `width`-wide grid at `(x, y)`.
pub open spec fn pixel_at(pixels: Seq<Rgb>, width: int, x: int, y: int) -> Rgb {
    pixels[y * width + x]
}

/// A texel that is transparent, or that maps outside the surface, writes
/// nothing: taking it into the finished prefix changes no pixel.
proof fn lemma_prefix_skip(
    orig: Seq<Rgb>,
    cur: Seq<Rgb>,
    sprite: Sprite,
    pos: (usize, usize),
    bw: int,
    bh: int,
    tx: int,
    ty: int,
)
    requires
        sprite.wf(),
        0 <= tx < sprite.width,
        0 <= ty < sprite.height,
        sprite_texel(sprite, tx, ty) is None || pos.0 + tx >= bw || pos.1 + ty >= bh,
        forall|x: int, y: int|
            0 <= x < bw && 0 <= y < bh ==> pixel_at(cur, bw, x, y) == composited_prefix_pixel(
                pixel_at(orig, bw, x, y),
                sprite,
                pos,
                x,
                y,
                ty * sprite.width + tx,
            ),
    ensures
        forall|x: int, y: int|
            0 <= x < bw && 0 <= y < bh ==> pixel_at(cur, bw, x, y) == composited_prefix_pixel(
                pixel_at(orig, bw, x, y),
                sprite,
                pos,
                x,
                y,
                ty * sprite.width + tx + 1,
            ),
{
    let w = sprite.width as int;
    let k = ty * w + tx;
    assert forall|x: int, y: int| 0 <= x < bw && 0 <= y < bh implies pixel_at(cur, bw, x, y)
        == composited_prefix_pixel(pixel_at(orig, bw, x, y), sprite, pos, x, y, k + 1) by {
        if covers_before(sprite, pos, x, y, k + 1) && !covers_before(sprite, pos, x, y, k) {
            lemma_rowmajor_unique(x - pos.0, y - pos.1, tx, ty, w);
            assert(false);
        }
    }
}

/// An opaque texel that maps inside the surface writes exactly its own
/// pixel: updating that pixel extends the finished prefix by one texel.
proof fn lemma_prefix_write(
    orig: Seq<Rgb>,
    prev: Seq<Rgb>,
    sprite: Sprite,
    pos: (usize, usize),
    bw: int,
    bh: int,
    tx: int,
    ty: int,
    color: Rgb,
)
    requires
        sprite.wf(),
        0 <= tx < sprite.width,
        0 <= ty < sprite.height,
        sprite_texel(sprite, tx, ty) == Some(color),
        0 <= pos.0 + tx < bw,
        0 <= pos.1 + ty < bh,
        prev.len() == bw * bh,
        forall|x: int, y: int|
            0 <= x < bw && 0 <= y < bh ==> pixel_at(prev, bw, x, y) == composited_prefix_pixel(
                pixel_at(orig, bw, x, y),
                sprite,
                pos,
                x,
                y,
                ty * sprite.width + tx,
            ),
    ensures
        forall|x: int, y: int|
            0 <= x < bw && 0 <= y < bh ==> pixel_at(
                prev.update((pos.1 + ty) * bw + (pos.0 + tx), color),
                bw,
                x,
                y,
            ) == composited_prefix_pixel(
                pixel_at(orig, bw, x, y),
                sprite,
                pos,
                x,
                y,
                ty * sprite.width + tx + 1,
            ),
{
    let w = sprite.width as int;
    let k = ty * w + tx;
    let sx = pos.0 + tx;
    let sy = pos.1 + ty;
    let idx = sy * bw + sx;
    lemma_index_bound(sx, sy, bw, bh);
    let updated = prev.update(idx, color);
    assert forall|x: int, y: int| 0 <= x < bw && 0 <= y < bh implies pixel_at(updated, bw, x, y)
        == composited_prefix_pixel(pixel_at(orig, bw, x, y), sprite, pos, x, y, k + 1) by {
        lemma_index_bound(x, y, bw, bh);
        if y * bw + x == idx {
            lemma_rowmajor_unique(x, y, sx, sy, bw);
            assert(covers(sprite, pos, x, y));
            assert(pixel_at(updated, bw, x, y) == color);
        } else {
            if covers_before(sprite, pos, x, y, k + 1) && !covers_before(sprite, pos, x, y, k) {
                lemma_rowmajor_unique(x - pos.0, y - pos.1, tx, ty, w);
                assert(false);
            }
            assert(pixel_at(updated, bw, x, y) == pixel_at(prev, bw, x, y));
        }
    }
}

/// Law: after a clear, any in-bounds read returns black, whatever the
/// buffer held before.
pub proof fn lemma_cleared_read_is_black(b: Buffer, x: int, y: int)
    requires
        b.wf(),
        forall|i: int| 0 <= i < b.pixels@.len() ==> b.pixels@[i] == black(),
        0 <= x < b.width,
        0 <= y < b.height,
    ensures
        pixel_at(b.pixels@, b.width as int, x, y) == black(),
{
    lemma_index_bound(x, y, b.width as int, b.height as int);
}

/// Law: a transparent texel never changes the pixel under it. At any
/// surface position that lies in a sprite's footprint but under a
/// transparent texel, compositing leaves the original pixel value.
pub proof fn lemma_transparent_texel_preserves(
    orig: Rgb,
    sprite: Sprite,
    pos: (usize, usize),
    x: int,
    y: int,
)
    requires
        pos.0 <= x < pos.0 + sprite.width,
        pos.1 <= y < pos.1 + sprite.height,
        sprite_texel(sprite, x - pos.0, y - pos.1) is None,
    ensures
        composited_pixel(orig, sprite, pos, x, y) == orig,
{
}

/// Law: compositing a fully opaque sprite at the origin onto an all-black
/// surface copies the sprite texel-for-texel over the overlap, and every
/// pixel outside the overlap stays black.
pub proof fn lemma_opaque_sprite_on_cleared(sprite: Sprite, x: int, y: int)
    requires
        sprite.wf(),
        forall|i: int| 0 <= i < sprite.pixels@.len() ==> sprite.pixels@[i] is Some,
        0 <= x,
        0 <= y,
    ensures
        x < sprite.width && y < sprite.height ==> Some(
            composited_pixel(black(), sprite, (0usize, 0usize), x, y),
        ) == sprite_texel(sprite, x, y),
        !(x < sprite.width && y < sprite.height) ==> composited_pixel(
            black(),
            sprite,
            (0usize, 0usize),
            x,
            y,
        ) == black(),
{
    if x < sprite.width && y < sprite.height {
        lemma_index_bound(x, y, sprite.width as int, sprite.height as int);
    }
}

impl Buffer {
    /// Composite `sprite` at offset `pos`: every opaque texel is written to
    /// the pixel it covers, transparent texels and texels that map outside
    /// the surface are dropped silently.
    pub fn draw_sprite(&mut self, sprite: &Sprite, pos: (usize, usize))
        requires
            old(self).wf(),
            sprite.wf(),
        ensures
            final(self).wf(),
            final(self).width == old(self).width,
            final(self).height == old(self).height,
            forall|x: int, y: int|
                0 <= x < old(self).width && 0 <= y < old(self).height ==> pixel_at(
                    final(self).pixels@,
                    old(self).width as int,
                    x,
                    y,
                ) == composited_pixel(
                    pixel_at(old(self).pixels@, old(self).width as int, x, y),
                    *sprite,
                    pos,
                    x,
                    y,
                ),
    {
        let ghost orig: Buffer = *self;
        let ghost bw: int = orig.width as int;
        let ghost bh: int = orig.height as int;
        let sw: usize = sprite.width;
        let sh: usize = sprite.height;
        let spix: usize = sprite.pixels.len();
        let mut ty: usize = 0;
        while ty < sh
            invariant
                ty <= sh,
                sw == sprite.width,
                sh == sprite.height,
                spix == sprite.pixels@.len(),
                sprite.wf(),
                self.wf(),
                bw == orig.width as int,
                bh == orig.height as int,
                self.width == orig.width,
                self.height == orig.height,
                orig.wf(),
                forall|x: int, y: int|
                    0 <= x < bw && 0 <= y < bh ==> pixel_at(self.pixels@, bw, x, y)
                        == composited_prefix_pixel(
                        pixel_at(orig.pixels@, bw, x, y),
                        *sprite,
                        pos,
                        x,
                        y,
                        ty * sw,
                    ),
            decreases sh - ty,
        {
            let mut tx: usize = 0;
            while tx < sw
                invariant
                    tx <= sw,
                    ty < sh,
                    sw == sprite.width,
                    sh == sprite.height,
                    spix == sprite.pixels@.len(),
                    sprite.wf(),
                    self.wf(),
                    bw == orig.width as int,
                    bh == orig.height as int,
                    self.width == orig.width,
                    self.height == orig.height,
                    orig.wf(),
                    forall|x: int, y: int|
                        0 <= x < bw && 0 <= y < bh ==> pixel_at(self.pixels@, bw, x, y)
                            == composited_prefix_pixel(
                            pixel_at(orig.pixels@, bw, x, y),
                            *sprite,
                            pos,
                            x,
                            y,
                            ty * sw + tx,
                        ),
                decreases sw - tx,
            {
                proof {
                    lemma_index_bound(tx as int, ty as int, sw as int, sh as int);
                }
                let k: usize = ty * sw + tx;
                let texel: Option<Rgb> = sprite.pixels[k];
                match texel {
                    Some(color) => {
                        if pos.0 <= usize::MAX - tx && pos.1 <= usize::MAX - ty {
                            let sx: usize = pos.0 + tx;
                            let sy: usize = pos.1 + ty;
                            let ghost prev: Seq<Rgb> = self.pixels@;
                            let hit = self.set_pixel(sx, sy, color);
                            proof {
                                if hit {
                                    lemma_prefix_write(
                                        orig.pixels@,
                                        prev,
                                        *sprite,
                                        pos,
                                        bw,
                                        bh,
                                        tx as int,
                                        ty as int,
                                        color,
                                    );
                                } else {
                                    lemma_prefix_skip(
                                        orig.pixels@,
                                        self.pixels@,
                                        *sprite,
                                        pos,
                                        bw,
                                        bh,
                                        tx as int,
                                        ty as int,
                                    );
                                }
                            }
                        } else {
                            proof {
                                lemma_prefix_skip(
                                    orig.pixels@,
                                    self.pixels@,
                                    *sprite,
                                    pos,
                                    bw,
                                    bh,
                                    tx as int,
                                    ty as int,
                                );
                            }
                        }
                    },
                    None => {
                        proof {
                            lemma_prefix_skip(
                                orig.pixels@,
                                self.pixels@,
                                *sprite,
                                pos,
                                bw,
                                bh,
                                tx as int,
                                ty as int,
                            );
                        }
                    },
                }
                tx = tx + 1;
            }
            proof {
                assert((ty + 1) * (sw as int) == ty * (sw as int) + sw) by (nonlinear_arith);
            }
            ty = ty + 1;
        }
        proof {
            assert forall|x: int, y: int| 0 <= x < bw && 0 <= y < bh implies pixel_at(
                self.pixels@,
                bw,
                x,
                y,
            ) == composited_pixel(pixel_at(orig.pixels@, bw, x, y), *sprite, pos, x, y) by {
                if covers(*sprite, pos, x, y) {
                    lemma_index_bound(x - pos.0, y - pos.1, sw as int, sh as int);
                    assert((sw as int) * (sh as int) == (sh as int) * (sw as int))
                        by (nonlinear_arith);
                }
            }
        }
    }
}

} // verus!
