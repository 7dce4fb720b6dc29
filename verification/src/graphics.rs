use vstd::prelude::*;

verus! {

/// Width and height of a tile, in pixels.
pub const TILE_SIDE: u32 = 8;

/// Bytes of one tile at four bits per pixel.
pub const TILE_BYTES: usize = 32;

/// Colours in one palette.
pub const PALETTE_COLORS: usize = 16;

/// An eight-bit channel made from a five-bit one: `c * 255 / 31`, rounded
/// down.
pub open spec fn expand_channel(c: int) -> int {
    c * 255 / 31
}

/// The four samples (red, green, blue, alpha) of a 15-bit colour laid out as
/// `xBBBBBGGGGGRRRRR`. The top bit is ignored and alpha is always 255.
pub open spec fn rgba_of(color: u16) -> Seq<u8> {
    seq![
        expand_channel(color as int % 32) as u8,
        expand_channel(color as int / 32 % 32) as u8,
        expand_channel(color as int / 1024 % 32) as u8,
        255u8,
    ]
}

/// Converts a 15-bit colour to RGBA.
pub fn bgr555_to_rgba(color: u16) -> (rgba: [u8; 4])
    ensures
        rgba@ == rgba_of(color),
{
    let r: u32 = (color % 32) as u32;
    let g: u32 = ((color / 32) % 32) as u32;
    let b: u32 = ((color / 1024) % 32) as u32;
    let r8: u8 = ((r * 255) / 31) as u8;
    let g8: u8 = ((g * 255) / 31) as u8;
    let b8: u8 = ((b * 255) / 31) as u8;
    let rgba: [u8; 4] = [r8, g8, b8, 255];
    assert(rgba@ =~= rgba_of(color));
    rgba
}

/// An RGBA picture, kept in an `image::RgbaImage`.
///
/// Verus does not look inside the buffer. What it holds is spoken of
/// through [`canvas_samples`] and [`canvas_size`], and what the functions
/// below say of the `image` crate's methods is taken on trust.
#[verifier::external_body]
pub struct Canvas {
    buffer: image::RgbaImage,
}

/// The samples of a picture, row by row from the top, four to a pixel in the
/// order red, green, blue, alpha.
pub uninterp spec fn canvas_samples(canvas: Canvas) -> Seq<u8>;

/// The width and the height of a picture, in pixels.
pub uninterp spec fn canvas_size(canvas: Canvas) -> (nat, nat);

/// Where the four samples of the pixel in column `x` and row `y` start.
pub open spec fn sample_index(width: nat, x: int, y: int) -> int {
    4 * (y * width + x)
}

/// `samples` with the pixel that starts at `at` replaced by `rgba`.
pub open spec fn with_pixel(samples: Seq<u8>, at: int, rgba: Seq<u8>) -> Seq<u8> {
    samples.update(at, rgba[0]).update(at + 1, rgba[1]).update(at + 2, rgba[2]).update(
        at + 3,
        rgba[3],
    )
}

/// `image::ImageBuffer::new` for RGBA with eight-bit channels: a picture of
/// the given size in which every sample is zero. The crate multiplies 4 by
/// the width and then by the height and panics where either product does not
/// fit in `usize`; a buffer holds no more than `isize::MAX` samples. Sizes
/// beyond that are left out.
#[verifier::external_body]
fn blank_canvas(width: u32, height: u32) -> (canvas: Canvas)
    requires
        4 * width <= usize::MAX,
        4 * width * height <= isize::MAX,
    ensures
        canvas_size(canvas) == (width as nat, height as nat),
        canvas_samples(canvas) == Seq::new((4 * width * height) as nat, |i: int| 0u8),
{
    Canvas { buffer: image::RgbaImage::new(width, height) }
}

/// `image::ImageBuffer::put_pixel`: overwrites the four samples of one pixel
/// and nothing else. The crate panics on a position outside the picture.
#[verifier::external_body]
fn put_pixel(canvas: &mut Canvas, x: u32, y: u32, rgba: [u8; 4])
    requires
        x < canvas_size(*old(canvas)).0,
        y < canvas_size(*old(canvas)).1,
    ensures
        canvas_size(*final(canvas)) == canvas_size(*old(canvas)),
        canvas_samples(*final(canvas)) == with_pixel(
            canvas_samples(*old(canvas)),
            sample_index(canvas_size(*old(canvas)).0, x as int, y as int),
            rgba@,
        ),
{
    canvas.buffer.put_pixel(x, y, image::Rgba(rgba));
}

/// `image::ImageBuffer::get_pixel`: the four samples of one pixel. The crate
/// panics on a position outside the picture.
#[verifier::external_body]
fn get_pixel(canvas: &Canvas, x: u32, y: u32) -> (rgba: [u8; 4])
    requires
        x < canvas_size(*canvas).0,
        y < canvas_size(*canvas).1,
    ensures
        rgba@ == canvas_samples(*canvas).subrange(
            sample_index(canvas_size(*canvas).0, x as int, y as int),
            sample_index(canvas_size(*canvas).0, x as int, y as int) + 4,
        ),
{
    canvas.buffer.get_pixel(x, y).0
}

/// `image::ImageBuffer::into_raw`: hands out the sample buffer.
#[verifier::external_body]
fn into_raw(canvas: Canvas) -> (raw: Vec<u8>)
    ensures
        raw@ == canvas_samples(canvas),
{
    canvas.buffer.into_raw()
}

/// `image::ImageBuffer::dimensions`.
#[verifier::external_body]
fn dimensions(canvas: &Canvas) -> (size: (u32, u32))
    ensures
        canvas_size(*canvas) == (size.0 as nat, size.1 as nat),
{
    canvas.buffer.dimensions()
}

impl Canvas {
    /// Width and height in pixels.
    pub fn size(&self) -> (size: (u32, u32))
        ensures
            canvas_size(*self) == (size.0 as nat, size.1 as nat),
    {
        dimensions(self)
    }

    /// The samples of the pixel in column `x` and row `y`, or `None` where
    /// the picture has no such pixel.
    pub fn pixel(&self, x: u32, y: u32) -> (rgba: Option<[u8; 4]>)
        ensures
            match rgba {
                Some(p) => x < canvas_size(*self).0 && y < canvas_size(*self).1 && p@
                    == canvas_samples(*self).subrange(
                    sample_index(canvas_size(*self).0, x as int, y as int),
                    sample_index(canvas_size(*self).0, x as int, y as int) + 4,
                ),
                None => x >= canvas_size(*self).0 || y >= canvas_size(*self).1,
            },
    {
        let (width, height) = dimensions(self);
        if x < width && y < height {
            Some(get_pixel(self, x, y))
        } else {
            None
        }
    }

    /// Gives up the picture for its samples.
    pub fn into_samples(self) -> (raw: Vec<u8>)
        ensures
            raw@ == canvas_samples(self),
    {
        into_raw(self)
    }
}

/// The palette index of pixel `p` of a tile, pixels counted row by row. A
/// byte holds two neighbours: the left one in its low four bits.
pub open spec fn palette_index(tile: Seq<u8>, p: int) -> int {
    if p % 2 == 0 {
        tile[p / 2] as int % 16
    } else {
        tile[p / 2] as int / 16
    }
}

/// The samples of pixel `p` of a tile. Index 0 is transparent whatever the
/// palette holds there.
pub open spec fn tile_pixel(tile: Seq<u8>, palette: Seq<u16>, p: int) -> Seq<u8> {
    if palette_index(tile, p) == 0 {
        seq![0u8, 0u8, 0u8, 0u8]
    } else {
        rgba_of(palette[palette_index(tile, p)])
    }
}

/// The 256 samples of a decoded tile. A tile of fewer than 32 bytes or a
/// palette of fewer than 16 colours gives a fully transparent tile.
pub open spec fn tile_samples(tile: Seq<u8>, palette: Seq<u16>) -> Seq<u8> {
    if tile.len() < TILE_BYTES || palette.len() < PALETTE_COLORS {
        Seq::new(256, |i: int| 0u8)
    } else {
        Seq::new(256, |i: int| tile_pixel(tile, palette, i / 4)[i % 4])
    }
}

/// A pixel whose palette index is 0 is transparent, whatever the tile and
/// the palette hold: its four samples are zero.
pub proof fn lemma_index_zero_is_transparent(tile: Seq<u8>, palette: Seq<u16>, p: int)
    requires
        0 <= p < 64,
        palette_index(tile, p) == 0,
    ensures
        tile_samples(tile, palette).subrange(4 * p, 4 * p + 4) == seq![0u8, 0u8, 0u8, 0u8],
{
    let pixel = tile_samples(tile, palette).subrange(4 * p, 4 * p + 4);
    assert forall|c: int| 0 <= c < 4 implies pixel[c] == 0 by {
        assert((4 * p + c) / 4 == p);
        assert((4 * p + c) % 4 == c);
    }
    assert(pixel =~= seq![0u8, 0u8, 0u8, 0u8]);
}

/// Every pixel of a decoded tile is opaque or fully transparent, and it is
/// transparent exactly where its palette index is 0.
pub proof fn lemma_alpha_tells_index_zero(tile: Seq<u8>, palette: Seq<u16>, p: int)
    requires
        0 <= p < 64,
        tile.len() >= TILE_BYTES,
        palette.len() >= PALETTE_COLORS,
    ensures
        tile_samples(tile, palette)[4 * p + 3] == (if palette_index(tile, p) == 0 {
            0u8
        } else {
            255u8
        }),
{
    assert((4 * p + 3) / 4 == p);
    assert((4 * p + 3) % 4 == 3);
}

/// Decodes one tile of four bits per pixel into an 8 by 8 picture.
pub fn decode_4bpp_tile(input: &[u8], palette: &[u16]) -> (tile: Canvas)
    ensures
        canvas_size(tile) == (8nat, 8nat),
        canvas_samples(tile) == tile_samples(input@, palette@),
{
    let mut canvas = blank_canvas(TILE_SIDE, TILE_SIDE);
    if input.len() < TILE_BYTES || palette.len() < PALETTE_COLORS {
        assert(canvas_samples(canvas) =~= tile_samples(input@, palette@));
        return canvas;
    }
    let mut y: u32 = 0;
    while y < 8
        invariant
            y <= 8,
            input@.len() >= 32,
            palette@.len() >= 16,
            canvas_size(canvas) == (8nat, 8nat),
            canvas_samples(canvas).len() == 256,
            forall|i: int|
                0 <= i < 32 * y ==> canvas_samples(canvas)[i] == tile_samples(input@, palette@)[i],
        decreases 8 - y,
    {
        let mut x: u32 = 0;
        while x < 8
            invariant
                x <= 8,
                y < 8,
                input@.len() >= 32,
                palette@.len() >= 16,
                canvas_size(canvas) == (8nat, 8nat),
                canvas_samples(canvas).len() == 256,
                forall|i: int|
                    0 <= i < 32 * y + 4 * x ==> canvas_samples(canvas)[i] == tile_samples(
                        input@,
                        palette@,
                    )[i],
            decreases 8 - x,
        {
            let pixel_idx: usize = (y * 8 + x) as usize;
            let byte = input[pixel_idx / 2];
            let index: usize = if x % 2 == 0 {
                (byte % 16) as usize
            } else {
                (byte / 16) as usize
            };
            assert(index as int == palette_index(input@, pixel_idx as int));
            let rgba: [u8; 4] = if index == 0 {
                [0, 0, 0, 0]
            } else {
                bgr555_to_rgba(palette[index])
            };
            assert(rgba@ =~= tile_pixel(input@, palette@, pixel_idx as int));
            let ghost before = canvas_samples(canvas);
            put_pixel(&mut canvas, x, y, rgba);
            proof {
                let at = 4 * pixel_idx as int;
                assert(sample_index(8, x as int, y as int) == at);
                assert forall|i: int| 0 <= i < at + 4 implies canvas_samples(canvas)[i]
                    == tile_samples(input@, palette@)[i] by {
                    if i >= at {
                        assert(i / 4 == pixel_idx as int);
                        assert(canvas_samples(canvas)[i] == rgba@[i - at]);
                    } else {
                        assert(canvas_samples(canvas)[i] == before[i]);
                    }
                }
            }
            x += 1;
        }
        y += 1;
    }
    assert(canvas_samples(canvas) =~= tile_samples(input@, palette@));
    canvas
}

/// Tiles in one row of a preview.
pub const PREVIEW_TILES_WIDE: u32 = 16;

/// Tiles in a preview: eight rows of sixteen.
pub const PREVIEW_TILES: u32 = 128;

/// Width of a preview in pixels.
pub const PREVIEW_WIDTH: u32 = 128;

/// Height of a preview in pixels.
pub const PREVIEW_HEIGHT: u32 = 64;

/// Samples of a preview: four for each of its pixels.
pub const PREVIEW_SAMPLES: usize = 32768;

/// The tile that holds sample `i` of a preview. Tiles are laid out row by
/// row, sixteen to a row.
pub open spec fn preview_tile(i: int) -> int {
    (i / 4 / 128 / 8) * 16 + (i / 4 % 128) / 8
}

/// The place of sample `i` of a preview among the samples of its tile.
pub open spec fn sample_in_tile(i: int) -> int {
    4 * ((i / 4 / 128 % 8) * 8 + (i / 4 % 128) % 8) + i % 4
}

/// Sample `i` of the preview of the tiles in `gfx`: taken from the decoded
/// tile where `gfx` holds all 32 bytes of it, and zero where it does not.
pub open spec fn preview_sample(gfx: Seq<u8>, palette: Seq<u16>, i: int) -> u8 {
    let tile = preview_tile(i);
    if (tile + 1) * 32 <= gfx.len() {
        tile_samples(gfx.subrange(tile * 32, tile * 32 + 32), palette)[sample_in_tile(i)]
    } else {
        0
    }
}

/// The samples of the preview of the tiles in `gfx`, 128 by 64 pixels.
pub open spec fn preview_samples(gfx: Seq<u8>, palette: Seq<u16>) -> Seq<u8> {
    Seq::new(PREVIEW_SAMPLES as nat, |i: int| preview_sample(gfx, palette, i))
}

/// Whether sample `k` has been drawn once the tiles before `tile` are done
/// and, of `tile` itself, the rows before `row` and the first `col` pixels
/// of `row`.
#[verifier::opaque]
spec fn is_drawn(k: int, tile: int, row: int, col: int) -> bool {
    let r = k / 4 / 128 % 8;
    let c = (k / 4 % 128) % 8;
    preview_tile(k) < tile || (preview_tile(k) == tile && (r < row || (r == row && c < col)))
}

/// Where the samples of pixel (`col`, `row`) of tile `tile` start in a
/// preview.
spec fn pixel_start(tile: int, row: int, col: int) -> int {
    sample_index(128, tile % 16 * 8 + col, tile / 16 * 8 + row)
}

proof fn lemma_drawing_a_pixel(k: int, tile: int, row: int, col: int)
    requires
        0 <= k < 32768,
        0 <= tile < 128,
        0 <= row < 8,
        0 <= col < 8,
    ensures
        0 <= pixel_start(tile, row, col) <= 32764,
        pixel_start(tile, row, col) <= k < pixel_start(tile, row, col) + 4 ==> is_drawn(
            k,
            tile,
            row,
            col + 1,
        ) && preview_tile(k) == tile && sample_in_tile(k) == sample_index(8, col, row) + (k
            - pixel_start(tile, row, col)),
        !(pixel_start(tile, row, col) <= k < pixel_start(tile, row, col) + 4) ==> is_drawn(
            k,
            tile,
            row,
            col + 1,
        ) == is_drawn(k, tile, row, col),
{
    reveal(is_drawn);
}

proof fn lemma_drawing_moves_on(k: int, tile: int, row: int)
    requires
        0 <= k < 32768,
        0 <= tile < 128,
        0 <= row < 8,
    ensures
        is_drawn(k, tile, row, 8) == is_drawn(k, tile, row + 1, 0),
        is_drawn(k, tile, 8, 0) == is_drawn(k, tile + 1, 0, 0),
{
    reveal(is_drawn);
}

proof fn lemma_drawn_before(k: int, tile: int)
    requires
        0 <= k < 32768,
    ensures
        is_drawn(k, tile, 0, 0) == (preview_tile(k) < tile),
        0 <= preview_tile(k) < 128,
{
    reveal(is_drawn);
}

/// Draws the first 128 tiles of `gfx` into a grid of 16 by 8 tiles and
/// returns its samples. Drawing ends with the last tile that `gfx` holds
/// whole; the rest of the grid stays transparent.
pub fn render_tile_grid(gfx: &[u8], palette: &[u16]) -> (raw: Vec<u8>)
    ensures
        raw@ == preview_samples(gfx@, palette@),
{
    let mut out = blank_canvas(PREVIEW_WIDTH, PREVIEW_HEIGHT);
    let mut i: u32 = 0;
    let mut exhausted = false;
    assert forall|k: int| 0 <= k < 32768 implies !is_drawn(k, 0, 0, 0) by {
        lemma_drawn_before(k, 0);
    }
    while i < PREVIEW_TILES && !exhausted
        invariant
            i <= 128,
            canvas_size(out) == (128nat, 64nat),
            canvas_samples(out).len() == 32768,
            exhausted ==> forall|k: int|
                0 <= k < 32768 ==> canvas_samples(out)[k] == preview_sample(gfx@, palette@, k),
            !exhausted ==> forall|k: int|
                0 <= k < 32768 ==> canvas_samples(out)[k] == (if is_drawn(k, i as int, 0, 0) {
                    preview_sample(gfx@, palette@, k)
                } else {
                    0
                }),
        decreases 128 - i + (if exhausted { 0int } else { 1int }),
    {
        let first: usize = i as usize * TILE_BYTES;
        if gfx.len() < TILE_BYTES || first > gfx.len() - TILE_BYTES {
            assert forall|k: int| 0 <= k < 32768 implies canvas_samples(out)[k] == preview_sample(
                gfx@,
                palette@,
                k,
            ) by {
                lemma_drawn_before(k, i as int);
            }
            exhausted = true;
            continue ;
        }
        let tile_data = vstd::slice::slice_subrange(gfx, first, first + TILE_BYTES);
        let tile_img = decode_4bpp_tile(tile_data, palette);
        let x_pos: u32 = (i % PREVIEW_TILES_WIDE) * TILE_SIDE;
        let y_pos: u32 = (i / PREVIEW_TILES_WIDE) * TILE_SIDE;
        let mut ty: u32 = 0;
        while ty < 8
            invariant
                ty <= 8,
                i < 128,
                first == i * 32,
                first + 32 <= gfx@.len(),
                x_pos == (i % 16) * 8,
                y_pos == (i / 16) * 8,
                canvas_size(tile_img) == (8nat, 8nat),
                canvas_samples(tile_img) == tile_samples(
                    gfx@.subrange(first as int, first + 32),
                    palette@,
                ),
                canvas_size(out) == (128nat, 64nat),
                canvas_samples(out).len() == 32768,
                forall|k: int|
                    0 <= k < 32768 ==> canvas_samples(out)[k] == (if is_drawn(
                        k,
                        i as int,
                        ty as int,
                        0,
                    ) {
                        preview_sample(gfx@, palette@, k)
                    } else {
                        0
                    }),
            decreases 8 - ty,
        {
            let mut tx: u32 = 0;
            while tx < 8
                invariant
                    tx <= 8,
                    ty < 8,
                    i < 128,
                    first == i * 32,
                    first + 32 <= gfx@.len(),
                    x_pos == (i % 16) * 8,
                    y_pos == (i / 16) * 8,
                    canvas_size(tile_img) == (8nat, 8nat),
                    canvas_samples(tile_img) == tile_samples(
                        gfx@.subrange(first as int, first + 32),
                        palette@,
                    ),
                    canvas_size(out) == (128nat, 64nat),
                    canvas_samples(out).len() == 32768,
                    forall|k: int|
                        0 <= k < 32768 ==> canvas_samples(out)[k] == (if is_drawn(
                            k,
                            i as int,
                            ty as int,
                            tx as int,
                        ) {
                            preview_sample(gfx@, palette@, k)
                        } else {
                            0
                        }),
                decreases 8 - tx,
            {
                let p = get_pixel(&tile_img, tx, ty);
                let ghost before = canvas_samples(out);
                put_pixel(&mut out, x_pos + tx, y_pos + ty, p);
                proof {
                    let at = pixel_start(i as int, ty as int, tx as int);
                    let from = sample_index(8, tx as int, ty as int);
                    assert forall|k: int| 0 <= k < 32768 implies canvas_samples(out)[k] == (
                    if is_drawn(k, i as int, ty as int, tx + 1) {
                        preview_sample(gfx@, palette@, k)
                    } else {
                        0
                    }) by {
                        lemma_drawing_a_pixel(k, i as int, ty as int, tx as int);
                        if at <= k < at + 4 {
                            assert(canvas_samples(out)[k] == p@[k - at]);
                            assert(p@[k - at] == canvas_samples(tile_img)[from + (k - at)]);
                        } else {
                            assert(canvas_samples(out)[k] == before[k]);
                        }
                    }
                }
                tx += 1;
            }
            assert forall|k: int| 0 <= k < 32768 implies is_drawn(k, i as int, ty as int, 8)
                == is_drawn(k, i as int, ty + 1, 0) by {
                lemma_drawing_moves_on(k, i as int, ty as int);
            }
            ty += 1;
        }
        assert forall|k: int| 0 <= k < 32768 implies is_drawn(k, i as int, 8, 0) == is_drawn(
            k,
            i + 1,
            0,
            0,
        ) by {
            lemma_drawing_moves_on(k, i as int, 0);
        }
        i += 1;
    }
    assert forall|k: int| 0 <= k < 32768 implies canvas_samples(out)[k] == preview_sample(
        gfx@,
        palette@,
        k,
    ) by {
        lemma_drawn_before(k, 128);
    }
    let raw = into_raw(out);
    assert(raw@ =~= preview_samples(gfx@, palette@));
    raw
}

} // verus!
