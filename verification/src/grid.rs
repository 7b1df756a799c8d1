//! Composite grid images: several video frames laid out row by row in one
//! picture, encoded as PNG or JPEG for the model.

use vstd::prelude::*;
use vstd::arithmetic::div_mod::lemma_fundamental_div_mod_converse;
use vstd::string::StringExecFns;
use crate::error::ScannerError;

verus! {

/// An RGB picture: `width * height` pixels, row by row, three bytes each.
#[derive(Debug, Clone)]
pub struct RgbFrame {
    pub width: u32,
    pub height: u32,
    pub pixels: Vec<u8>,
}

/// The frame's buffer holds all its pixels.
pub open spec fn frame_ok(f: RgbFrame) -> bool {
    f.pixels@.len() >= f.width * f.height * 3
}

/// Output image format.
#[derive(Debug, Clone, Copy, PartialEq, Eq, Structural)]
pub enum ImageFormat {
    Png,
    Jpeg,
}

/// Configuration for grid processing.
#[derive(Debug, Clone, Copy)]
pub struct GridConfig {
    /// Rows, columns (e.g. 2x2).
    pub grid_size: (u32, u32),
    /// Width and height of one frame's cell.
    pub frame_resolution: (u32, u32),
    pub output_format: ImageFormat,
    /// JPEG quality.
    pub quality: u8,
}

impl Default for GridConfig {
    fn default() -> (r: Self)
        ensures
            r.grid_size == (2u32, 2u32),
            r.frame_resolution == (320u32, 240u32),
            r.output_format == ImageFormat::Png,
            r.quality == 85,
    {
        GridConfig {
            grid_size: (2, 2),
            frame_resolution: (320, 240),
            output_format: ImageFormat::Png,
            quality: 85,
        }
    }
}

/// A frame as plain values: width, height and pixel bytes.
pub open spec fn view_of(f: RgbFrame) -> (u32, u32, Seq<u8>) {
    (f.width, f.height, f.pixels@)
}

/// The frames as plain values.
pub open spec fn views(frames: Seq<RgbFrame>) -> Seq<(u32, u32, Seq<u8>)> {
    frames.map_values(|f: RgbFrame| view_of(f))
}

/// Byte `c` of pixel `(x, y)` of a frame; black outside the frame.
pub open spec fn frame_byte(f: (u32, u32, Seq<u8>), x: int, y: int, c: int) -> u8 {
    if x < f.0 && y < f.1 {
        f.2[(y * f.0 + x) * 3 + c]
    } else {
        0
    }
}

/// Byte `k` of a grid with `cols` columns of `fw` by `fh` cells filled row
/// by row with `frames`: the matching byte of the frame in that cell, cut
/// to the cell; black where there is no frame.
pub open spec fn grid_byte(frames: Seq<(u32, u32, Seq<u8>)>, cols: int, fw: int, fh: int, k: int) -> u8 {
    let p = k / 3;
    let c = k % 3;
    let gw = cols * fw;
    let px = p % gw;
    let py = p / gw;
    let idx = (py / fh) * cols + px / fw;
    if idx < frames.len() {
        frame_byte(frames[idx], px % fw, py % fh, c)
    } else {
        0
    }
}

/// The three bytes of pixel `(x, y)` of a frame (black outside it).
fn pixel_of(f: &RgbFrame, x: u32, y: u32) -> (r: (u8, u8, u8))
    requires
        frame_ok(*f),
    ensures
        r.0 == frame_byte(view_of(*f), x as int, y as int, 0),
        r.1 == frame_byte(view_of(*f), x as int, y as int, 1),
        r.2 == frame_byte(view_of(*f), x as int, y as int, 2),
{
    if x < f.width && y < f.height {
        let w = f.width as u64;
        let h = f.height as u64;
        assert(y * w + x < w * h) by (nonlinear_arith)
            requires
                x < w,
                y < h,
        ;
        assert(y * w <= y * w + x);
        assert(w * h * 3 <= f.pixels@.len());
        let len = f.pixels.len();
        let base = ((y as u64 * w + x as u64) * 3) as usize;
        (f.pixels[base], f.pixels[base + 1], f.pixels[base + 2])
    } else {
        (0, 0, 0)
    }
}

/// Lay `frames` out on a grid of `rows` by `cols` cells of `fw` by `fh`
/// pixels, row by row; returns the grid's RGB bytes.
pub fn composite(rows: u32, cols: u32, fw: u32, fh: u32, frames: &Vec<RgbFrame>) -> (out: Vec<u8>)
    requires
        forall|i: int| 0 <= i < frames@.len() ==> frame_ok(#[trigger] frames@[i]),
        cols * fw <= u32::MAX,
        rows * fh <= u32::MAX,
        (cols * fw) * (rows * fh) * 3 <= usize::MAX,
    ensures
        out@.len() == (cols * fw) * (rows * fh) * 3,
        forall|k: int|
            0 <= k < out@.len() ==> #[trigger] out@[k] == grid_byte(
                views(frames@),
                cols as int,
                fw as int,
                fh as int,
                k,
            ),
{
    let gw = cols * fw;
    let gh = rows * fh;
    let mut out: Vec<u8> = Vec::new();
    let mut py: u32 = 0;
    while py < gh
        invariant
            forall|i: int| 0 <= i < frames@.len() ==> frame_ok(#[trigger] frames@[i]),
            gw == cols * fw,
            gh == rows * fh,
            0 <= py <= gh,
            out@.len() == py * gw * 3,
            forall|k: int|
                0 <= k < out@.len() ==> #[trigger] out@[k] == grid_byte(
                    views(frames@),
                    cols as int,
                    fw as int,
                    fh as int,
                    k,
                ),
        decreases gh - py,
    {
        let mut px: u32 = 0;
        while px < gw
            invariant
                forall|i: int| 0 <= i < frames@.len() ==> frame_ok(#[trigger] frames@[i]),
                gw == cols * fw,
                gh == rows * fh,
                0 <= py < gh,
                0 <= px <= gw,
                out@.len() == (py * gw + px) * 3,
                forall|k: int|
                    0 <= k < out@.len() ==> #[trigger] out@[k] == grid_byte(
                        views(frames@),
                        cols as int,
                        fw as int,
                        fh as int,
                        k,
                    ),
            decreases gw - px,
        {
            let col = px / fw;
            let fx = px % fw;
            let row = py / fh;
            let fy = py % fh;
            assert(row * cols + col <= u64::MAX) by (nonlinear_arith)
                requires
                    row <= u32::MAX,
                    cols <= u32::MAX,
                    col <= u32::MAX,
            ;
            let idx: u64 = row as u64 * cols as u64 + col as u64;
            let (r, g, b) = if idx < frames.len() as u64 {
                pixel_of(&frames[idx as usize], fx, fy)
            } else {
                (0, 0, 0)
            };
            let ghost p = py * gw + px;
            let ghost n: int = out@.len() as int;
            out.push(r);
            out.push(g);
            out.push(b);
            proof {
                lemma_fundamental_div_mod_converse(p, gw as int, py as int, px as int);
                lemma_fundamental_div_mod_converse(3 * p, 3, p, 0);
                lemma_fundamental_div_mod_converse(3 * p + 1, 3, p, 1);
                lemma_fundamental_div_mod_converse(3 * p + 2, 3, p, 2);
                assert(n == 3 * p);
                assert(out@[n] == grid_byte(views(frames@), cols as int, fw as int, fh as int, n));
                assert(out@[n + 1] == grid_byte(views(frames@), cols as int, fw as int, fh as int, n + 1));
                assert(out@[n + 2] == grid_byte(views(frames@), cols as int, fw as int, fh as int, n + 2));
            }
            px = px + 1;
        }
        assert((py * gw + gw) * 3 == (py + 1) * gw * 3) by (nonlinear_arith);
        py = py + 1;
    }
    assert(gh * gw * 3 == (cols * fw) * (rows * fh) * 3) by (nonlinear_arith)
        requires
            gw == cols * fw,
            gh == rows * fh,
    ;
    out
}

/// What PNG encoding of an RGB picture of the given size gives (`None` when
/// the encoder refuses it).
pub uninterp spec fn png_bytes(width: u32, height: u32, pixels: Seq<u8>) -> Option<Seq<u8>>;

/// What JPEG encoding at the given quality gives (`None` when the encoder
/// refuses it).
pub uninterp spec fn jpeg_bytes(width: u32, height: u32, pixels: Seq<u8>, quality: u8) -> Option<
    Seq<u8>,
>;

/// What `DynamicImage::thumbnail` then `resize_exact` (triangle filter)
/// then `to_rgb8` make of a picture, as RGB bytes.
pub uninterp spec fn fitted_pixels(
    width: u32,
    height: u32,
    pixels: Seq<u8>,
    cell_w: u32,
    cell_h: u32,
) -> Seq<u8>;

/// Encodes the pixels with `ImageBuffer::write_to` as PNG. Claimed: `Ok`
/// exactly when `png_bytes` is `Some`, with those bytes; the error text of
/// `image` is not described.
#[verifier::external_body]
fn encode_png(width: u32, height: u32, pixels: Vec<u8>) -> (r: Result<Vec<u8>, String>)
    requires
        pixels@.len() == width * height * 3,
    ensures
        r is Ok <==> png_bytes(width, height, pixels@) is Some,
        r matches Ok(b) ==> png_bytes(width, height, pixels@) == Some(b@),
{
    let img = image::RgbImage::from_raw(width, height, pixels).ok_or_else(|| String::new())?;
    let mut bytes: Vec<u8> = Vec::new();
    img.write_to(&mut std::io::Cursor::new(&mut bytes), image::ImageFormat::Png).map_err(
        |e| e.to_string(),
    )?;
    Ok(bytes)
}

/// Encodes the pixels with `JpegEncoder::new_with_quality(..).encode_image`.
/// Claimed: `Ok` exactly when `jpeg_bytes` is `Some`, with those bytes; the
/// error text of `image` is not described.
#[verifier::external_body]
fn encode_jpeg(width: u32, height: u32, pixels: Vec<u8>, quality: u8) -> (r: Result<Vec<u8>, String>)
    requires
        pixels@.len() == width * height * 3,
    ensures
        r is Ok <==> jpeg_bytes(width, height, pixels@, quality) is Some,
        r matches Ok(b) ==> jpeg_bytes(width, height, pixels@, quality) == Some(b@),
{
    let img = image::RgbImage::from_raw(width, height, pixels).ok_or_else(|| String::new())?;
    let mut bytes: Vec<u8> = Vec::new();
    image::codecs::jpeg::JpegEncoder::new_with_quality(&mut bytes, quality).encode_image(
        &img,
    ).map_err(|e| e.to_string())?;
    Ok(bytes)
}

/// Scales a frame into a `cell_w` by `cell_h` cell with `image`'s
/// `thumbnail` and `resize_exact` (triangle filter). Claimed: the result
/// has exactly the cell's size and the pixels `fitted_pixels` names.
#[verifier::external_body]
pub(crate) fn fit_frame(frame: &RgbFrame, cell_w: u32, cell_h: u32) -> (r: RgbFrame)
    requires
        frame_ok(*frame),
        frame.pixels@.len() == frame.width * frame.height * 3,
    ensures
        r.width == cell_w,
        r.height == cell_h,
        r.pixels@.len() == cell_w * cell_h * 3,
        r.pixels@ == fitted_pixels(frame.width, frame.height, frame.pixels@, cell_w, cell_h),
{
    let img = image::RgbImage::from_raw(frame.width, frame.height, frame.pixels.clone()).unwrap();
    let fitted = image::DynamicImage::ImageRgb8(img).thumbnail(cell_w, cell_h).resize_exact(
        cell_w,
        cell_h,
        image::imageops::FilterType::Triangle,
    ).to_rgb8();
    RgbFrame { width: cell_w, height: cell_h, pixels: fitted.into_raw() }
}

/// The encoded grid of the given size in the given format.
pub open spec fn encoded(width: u32, height: u32, pixels: Seq<u8>, format: ImageFormat, quality: u8) -> Option<
    Seq<u8>,
> {
    match format {
        ImageFormat::Png => png_bytes(width, height, pixels),
        ImageFormat::Jpeg => jpeg_bytes(width, height, pixels, quality),
    }
}

/// Encode grid pixels; an encoder failure is a grid creation error.
pub fn encode_grid(width: u32, height: u32, pixels: Vec<u8>, format: ImageFormat, quality: u8) -> (r:
    Result<Vec<u8>, ScannerError>)
    requires
        pixels@.len() == width * height * 3,
    ensures
        r is Ok <==> encoded(width, height, pixels@, format, quality) is Some,
        r matches Ok(b) ==> encoded(width, height, pixels@, format, quality) == Some(b@),
        r is Err ==> r matches Err(ScannerError::GridCreationFailed(_)),
{
    let res = match format {
        ImageFormat::Png => encode_png(width, height, pixels),
        ImageFormat::Jpeg => encode_jpeg(width, height, pixels, quality),
    };
    match res {
        Ok(b) => Ok(b),
        Err(e) => Err(ScannerError::GridCreationFailed(e)),
    }
}

/// Grid dimensions fit the machine.
pub open spec fn config_fits(c: GridConfig) -> bool {
    &&& c.grid_size.0 * c.grid_size.1 <= u32::MAX
    &&& c.grid_size.1 * c.frame_resolution.0 <= u32::MAX
    &&& c.grid_size.0 * c.frame_resolution.1 <= u32::MAX
    &&& (c.grid_size.1 * c.frame_resolution.0) * (c.grid_size.0 * c.frame_resolution.1) * 3
        <= usize::MAX
}

/// Grid processor for creating composite images.
pub struct GridProcessor {
    config: GridConfig,
}

impl GridProcessor {
    /// The processor's configuration.
    pub closed spec fn config_of(&self) -> GridConfig {
        self.config
    }

    pub fn new(config: GridConfig) -> (r: Self)
        ensures
            r.config_of() == config,
    {
        GridProcessor { config }
    }

    /// Width and height of a whole grid.
    pub fn grid_dimensions(&self) -> (r: (u32, u32))
        requires
            self.config_of().grid_size.1 * self.config_of().frame_resolution.0 <= u32::MAX,
            self.config_of().grid_size.0 * self.config_of().frame_resolution.1 <= u32::MAX,
        ensures
            r.0 == self.config_of().grid_size.1 * self.config_of().frame_resolution.0,
            r.1 == self.config_of().grid_size.0 * self.config_of().frame_resolution.1,
    {
        let (rows, cols) = self.config.grid_size;
        let (fw, fh) = self.config.frame_resolution;
        (cols * fw, rows * fh)
    }

    /// Frames per grid.
    pub fn frames_per_grid(&self) -> (r: usize)
        requires
            self.config_of().grid_size.0 * self.config_of().grid_size.1 <= u32::MAX,
        ensures
            r == self.config_of().grid_size.0 * self.config_of().grid_size.1,
    {
        (self.config.grid_size.0 * self.config.grid_size.1) as usize
    }

    /// Replace the configuration.
    pub fn set_config(&mut self, config: GridConfig)
        ensures
            final(self).config_of() == config,
    {
        self.config = config;
    }

    /// Compose the frames (the first `rows * cols`, row by row) into one
    /// grid image, each cut to its cell, and encode it.
    pub fn create_grid(&self, frames: &Vec<RgbFrame>) -> (r: Result<Vec<u8>, ScannerError>)
        requires
            config_fits(self.config_of()),
            forall|i: int| 0 <= i < frames@.len() ==> frame_ok(#[trigger] frames@[i]),
        ensures
            ({
                let c = self.config_of();
                let (rows, cols) = c.grid_size;
                let (fw, fh) = c.frame_resolution;
                let gw = (cols * fw) as u32;
                let gh = (rows * fh) as u32;
                let pixels = Seq::new(
                    (gw * gh * 3) as nat,
                    |k: int| grid_byte(views(frames@), cols as int, fw as int, fh as int, k),
                );
                &&& r is Ok <==> encoded(gw, gh, pixels, c.output_format, c.quality) is Some
                &&& r matches Ok(b) ==> encoded(gw, gh, pixels, c.output_format, c.quality) == Some(
                    b@,
                )
                &&& r is Err ==> r matches Err(ScannerError::GridCreationFailed(_))
            }),
    {
        let (rows, cols) = self.config.grid_size;
        let (fw, fh) = self.config.frame_resolution;
        let pixels = composite(rows, cols, fw, fh, frames);
        let ghost c = self.config;
        proof {
            assert(pixels@ =~= Seq::new(
                ((cols * fw) * (rows * fh) * 3) as nat,
                |k: int| grid_byte(views(frames@), cols as int, fw as int, fh as int, k),
            ));
        }
        encode_grid(cols * fw, rows * fh, pixels, self.config.output_format, self.config.quality)
    }

    /// Compose raw RGB buffers of exactly one cell's size into a grid; a
    /// buffer shorter than a cell leaves its cell black.
    pub fn create_grid_from_buffers(&self, frames: &Vec<Vec<u8>>) -> (r: Result<
        Vec<u8>,
        ScannerError,
    >)
        requires
            config_fits(self.config_of()),
            self.config_of().frame_resolution.0 * self.config_of().frame_resolution.1 * 3
                <= u32::MAX,
        ensures
            ({
                let c = self.config_of();
                let (rows, cols) = c.grid_size;
                let (fw, fh) = c.frame_resolution;
                let gw = (cols * fw) as u32;
                let gh = (rows * fh) as u32;
                let cells = buffer_cells(frames@, fw, fh);
                let pixels = Seq::new(
                    (gw * gh * 3) as nat,
                    |k: int| grid_byte(cells, cols as int, fw as int, fh as int, k),
                );
                &&& r is Ok <==> encoded(gw, gh, pixels, c.output_format, c.quality) is Some
                &&& r matches Ok(b) ==> encoded(gw, gh, pixels, c.output_format, c.quality) == Some(
                    b@,
                )
                &&& r is Err ==> r matches Err(ScannerError::GridCreationFailed(_))
            }),
    {
        let (rows, cols) = self.config.grid_size;
        let (fw, fh) = self.config.frame_resolution;
        let frame_size = (fw * fh * 3) as usize;
        let mut cells: Vec<RgbFrame> = Vec::new();
        let mut i: usize = 0;
        while i < frames.len()
            invariant
                0 <= i <= frames.len(),
                frame_size == fw * fh * 3,
                cells@.len() == i,
                forall|j: int| 0 <= j < i ==> view_of(#[trigger] cells@[j]) == buffer_cell(frames@[j]@, fw, fh),
                forall|j: int| 0 <= j < i ==> frame_ok(#[trigger] cells@[j]),
            decreases frames.len() - i,
        {
            let buf = &frames[i];
            let cell = if buf.len() >= frame_size {
                let mut px: Vec<u8> = Vec::new();
                let mut k: usize = 0;
                while k < buf.len()
                    invariant
                        0 <= k <= buf.len(),
                        px@ == buf@.take(k as int),
                        frame_size == fw * fh * 3,
                        buf@.len() >= frame_size,
                    decreases buf.len() - k,
                {
                    px.push(buf[k]);
                    assert(px@ =~= buf@.take(k + 1));
                    k = k + 1;
                }
                assert(buf@.take(buf.len() as int) =~= buf@);
                let f = RgbFrame { width: fw, height: fh, pixels: px };
                assert(frame_ok(f));
                f
            } else {
                let e: Vec<u8> = Vec::new();
                assert(e@ =~= Seq::<u8>::empty());
                let f = RgbFrame { width: 0, height: 0, pixels: e };
                assert(f.width * f.height * 3 == 0) by (nonlinear_arith)
                    requires
                        f.width == 0,
                ;
                assert(frame_ok(f));
                f
            };
            cells.push(cell);
            i = i + 1;
        }
        proof {
            assert(views(cells@) =~= buffer_cells(frames@, fw, fh));
        }
        let pixels = composite(rows, cols, fw, fh, &cells);
        proof {
            assert(pixels@ =~= Seq::new(
                ((cols * fw) * (rows * fh) * 3) as nat,
                |k: int| grid_byte(views(cells@), cols as int, fw as int, fh as int, k),
            ));
        }
        encode_grid(cols * fw, rows * fh, pixels, self.config.output_format, self.config.quality)
    }
}

/// A raw buffer as a cell's frame: the whole cell when it is long enough,
/// else nothing.
pub open spec fn buffer_cell(buf: Seq<u8>, fw: u32, fh: u32) -> (u32, u32, Seq<u8>) {
    if buf.len() >= fw * fh * 3 {
        (fw, fh, buf)
    } else {
        (0, 0, Seq::empty())
    }
}

pub open spec fn buffer_cells(bufs: Seq<Vec<u8>>, fw: u32, fh: u32) -> Seq<(u32, u32, Seq<u8>)> {
    bufs.map_values(|b: Vec<u8>| buffer_cell(b@, fw, fh))
}

} // verus!
