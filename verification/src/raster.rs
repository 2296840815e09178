use vstd::prelude::*;
use vstd::arithmetic::div_mod::{
    lemma_fundamental_div_mod_converse_div, lemma_fundamental_div_mod_converse_mod,
    lemma_multiply_divide_lt,
};
use crate::cell::Cell;

verus! {

/// The rendered pixel raster. It wraps the `image` crate's RGBA buffer,
/// which is opaque here: the buffer is reached only through the trusted
/// wrappers below, and everything known of it is said over `raster_bytes`
/// and `raster_dims`.
#[verifier::external_body]
pub struct Raster {
    buf: image::ImageBuffer<image::Rgba<u8>, Vec<u8>>,
}

/// The bytes the raster holds: its pixels, row-major, four bytes per pixel,
/// in channel order R, G, B, A.
pub uninterp spec fn raster_bytes(b: Raster) -> Seq<u8>;

/// The pixel dimensions (width, height) the raster was made with.
pub uninterp spec fn raster_dims(b: Raster) -> (u32, u32);

/// Relies on image::ImageBuffer::from_raw: a byte container of exactly
/// 4 * width * height bytes becomes Some raster of those dimensions whose
/// underlying bytes are that container, unchanged.
#[verifier::external_body]
pub(crate) fn raster_from_bytes(width: u32, height: u32, bytes: Vec<u8>) -> (b: Raster)
    requires
        bytes@.len() == 4 * width * height,
    ensures
        raster_dims(b) == (width, height),
        raster_bytes(b) == bytes@,
{
    Raster { buf: image::ImageBuffer::from_raw(width, height, bytes).unwrap() }
}

/// Relies on image::ImageBuffer::as_raw: returns a reference to the
/// underlying byte container, unchanged.
#[verifier::external_body]
pub(crate) fn raster_as_bytes(b: &Raster) -> (r: &Vec<u8>)
    ensures
        r@ == raster_bytes(*b),
{
    b.buf.as_raw()
}

/// Fixed color of a dead cell.
pub open spec fn dead_color() -> Seq<u8> {
    seq![40u8, 40u8, 40u8, 255u8]
}

/// The palette of a live cell: one of three fixed colors, selected by a
/// pick in 0..3.
pub open spec fn palette_color(pick: u8) -> Seq<u8> {
    if pick == 0 {
        seq![141u8, 173u8, 130u8, 255u8]
    } else if pick == 1 {
        seq![181u8, 110u8, 48u8, 255u8]
    } else {
        seq![135u8, 173u8, 163u8, 255u8]
    }
}

/// RGBA color of a cell: a dead cell gets the fixed dead color, a live one
/// the palette color selected by `pick`.
pub open spec fn cell_color(c: Cell, pick: u8) -> Seq<u8> {
    match c {
        Cell::Alive => palette_color(pick),
        Cell::Dead => dead_color(),
    }
}

/// One full rendered frame: a raster of `4 * width` by `4 * height` pixels,
/// row-major, four bytes per pixel, where each logical cell is a solid 4x4
/// block in the color chosen by its state and its pick.
pub open spec fn rendered(cells: Seq<Cell>, picks: Seq<u8>, width: int, height: int) -> Seq<u8> {
    Seq::new(
        (64 * width * height) as nat,
        |p: int|
            {
                let k = p % 4;
                let q = p / 4;
                let x = q % (4 * width);
                let y = q / (4 * width);
                let ci = (y / 4) * width + x / 4;
                cell_color(cells[ci], picks[ci])[k]
            },
    )
}

/// The byte at channel `k` of pixel `(x, y)` of a rendered frame is channel
/// `k` of the color of the cell whose block the pixel lies in.
pub proof fn lemma_rendered_byte(
    cells: Seq<Cell>,
    picks: Seq<u8>,
    width: int,
    height: int,
    x: int,
    y: int,
    k: int,
)
    requires
        width > 0,
        height > 0,
        0 <= x < 4 * width,
        0 <= y < 4 * height,
        0 <= k < 4,
    ensures
        0 <= (y * (4 * width) + x) * 4 + k < 64 * width * height,
        0 <= (y / 4) * width + x / 4 < width * height,
        y / 4 < height,
        x / 4 < width,
        rendered(cells, picks, width, height)[(y * (4 * width) + x) * 4 + k] == cell_color(
            cells[(y / 4) * width + x / 4],
            picks[(y / 4) * width + x / 4],
        )[k],
{
    let q = y * (4 * width) + x;
    let p = q * 4 + k;
    assert(0 <= q && q < (4 * width) * (4 * height)) by (nonlinear_arith)
        requires
            width > 0,
            height > 0,
            0 <= x < 4 * width,
            0 <= y < 4 * height,
            q == y * (4 * width) + x,
    ;
    assert(0 <= p && p < 64 * width * height) by (nonlinear_arith)
        requires
            0 <= q,
            q < (4 * width) * (4 * height),
            p == q * 4 + k,
            0 <= k < 4,
    ;
    lemma_fundamental_div_mod_converse_div(p, 4, q, k);
    lemma_fundamental_div_mod_converse_mod(p, 4, q, k);
    lemma_fundamental_div_mod_converse_div(q, 4 * width, y, x);
    lemma_fundamental_div_mod_converse_mod(q, 4 * width, y, x);
    lemma_multiply_divide_lt(y, 4, height);
    lemma_multiply_divide_lt(x, 4, width);
    assert(0 <= (y / 4) * width + x / 4 < width * height) by (nonlinear_arith)
        requires
            width > 0,
            height > 0,
            0 <= y / 4 < height,
            0 <= x / 4 < width,
    ;
}

/// Within one rendered frame, every pixel of a cell's 4x4 block carries the
/// same RGBA value: bytes at equal channels of two pixels of one block are
/// equal.
pub proof fn lemma_block_uniform(
    cells: Seq<Cell>,
    picks: Seq<u8>,
    width: int,
    height: int,
    x1: int,
    y1: int,
    x2: int,
    y2: int,
    k: int,
)
    requires
        width > 0,
        height > 0,
        0 <= x1 < 4 * width,
        0 <= y1 < 4 * height,
        0 <= x2 < 4 * width,
        0 <= y2 < 4 * height,
        x1 / 4 == x2 / 4,
        y1 / 4 == y2 / 4,
        0 <= k < 4,
    ensures
        rendered(cells, picks, width, height)[(y1 * (4 * width) + x1) * 4 + k] == rendered(
            cells,
            picks,
            width,
            height,
        )[(y2 * (4 * width) + x2) * 4 + k],
{
    lemma_rendered_byte(cells, picks, width, height, x1, y1, k);
    lemma_rendered_byte(cells, picks, width, height, x2, y2, k);
}

} // verus!
