use vstd::prelude::*;

verus! {

/// A rectangle in screen coordinates: origin and size.
#[derive(Clone, Copy, Debug, PartialEq, Eq, Structural)]
pub struct Rect {
    pub x: i32,
    pub y: i32,
    pub width: u32,
    pub height: u32,
}

/// Extra pixels trimmed from each edge of the client area.
#[derive(Clone, Copy, Debug, PartialEq, Eq, Structural)]
pub struct Border {
    pub left: u32,
    pub top: u32,
    pub right: u32,
    pub bottom: u32,
}

/// The part of a frame to keep, in pixels relative to the frame's origin.
#[derive(Clone, Copy, Debug, PartialEq, Eq, Structural)]
pub struct CropRegion {
    pub x: u32,
    pub y: u32,
    pub width: u32,
    pub height: u32,
}

/// Why a frame could not be turned into a client-area image.
#[derive(Clone, Copy, Debug, PartialEq, Eq, Structural)]
pub enum CropError {
    FrameSizeMismatch,
    ZeroClientArea,
    ClientOutsideWindow,
    BorderExceedsClient,
    BufferConstructionFailed,
}

/// One captured frame: tightly packed RGBA8 pixels, row after row.
#[derive(Clone, Debug)]
pub struct RawFrame {
    pub width: u32,
    pub height: u32,
    pub data: Vec<u8>,
}

/// A client-area image: tightly packed RGBA8 pixels of `width` by `height`.
#[derive(Clone, Debug)]
pub struct CroppedImage {
    pub width: u32,
    pub height: u32,
    pub data: Vec<u8>,
}

impl Rect {
    pub fn new(x: i32, y: i32, width: u32, height: u32) -> (r: Rect)
        ensures
            r == (Rect { x, y, width, height }),
    {
        Rect { x, y, width, height }
    }
}

impl Border {
    pub fn new(left: u32, top: u32, right: u32, bottom: u32) -> (r: Border)
        ensures
            r == (Border { left, top, right, bottom }),
    {
        Border { left, top, right, bottom }
    }
}

impl RawFrame {
    /// The buffer holds exactly four bytes for each pixel.
    pub open spec fn wf(&self) -> bool {
        self.data@.len() == 4 * (self.width as int) * (self.height as int)
    }
}

impl CroppedImage {
    /// The buffer holds exactly four bytes for each pixel.
    pub open spec fn wf(&self) -> bool {
        self.data@.len() == 4 * (self.width as int) * (self.height as int)
    }
}

/// Whether `client` lies fully inside `window`.
pub open spec fn contains(window: Rect, client: Rect) -> bool {
    &&& client.x >= window.x
    &&& client.y >= window.y
    &&& client.x + client.width <= window.x + window.width
    &&& client.y + client.height <= window.y + window.height
}

/// The region of a frame of `frame_w` by `frame_h` that shows the client
/// area of `client` inside `window`, less `border`; or why there is none.
pub open spec fn crop_region_of(
    frame_w: u32,
    frame_h: u32,
    window: Rect,
    client: Rect,
    border: Border,
) -> Result<CropRegion, CropError> {
    if frame_w != window.width || frame_h != window.height {
        Err(CropError::FrameSizeMismatch)
    } else if client.width == 0 || client.height == 0 {
        Err(CropError::ZeroClientArea)
    } else if !contains(window, client) {
        Err(CropError::ClientOutsideWindow)
    } else if border.left + border.right >= client.width || border.top + border.bottom
        >= client.height {
        Err(CropError::BorderExceedsClient)
    } else {
        Ok(
            CropRegion {
                x: (client.x - window.x + border.left) as u32,
                y: (client.y - window.y + border.top) as u32,
                width: (client.width - border.left - border.right) as u32,
                height: (client.height - border.top - border.bottom) as u32,
            },
        )
    }
}

/// The region lies inside a frame of `w` by `h` and is not empty.
pub open spec fn region_within(region: CropRegion, w: u32, h: u32) -> bool {
    &&& region.width > 0
    &&& region.height > 0
    &&& region.x + region.width <= w
    &&& region.y + region.height <= h
}

/// Where byte `c` of row `r` of the cropped image sits in the frame's buffer.
pub open spec fn source_index(frame_w: u32, region: CropRegion, r: int, c: int) -> int {
    (region.y + r) * (4 * frame_w) + 4 * region.x + c
}

/// `out` is `region` of `frame`, row after row, with no padding.
pub open spec fn is_crop_of(out: Seq<u8>, frame: RawFrame, region: CropRegion) -> bool {
    &&& out.len() == 4 * (region.width as int) * (region.height as int)
    &&& forall|r: int, c: int|
        0 <= r < region.height && 0 <= c < 4 * region.width ==> #[trigger] out[r * (4
            * region.width) + c] == frame.data@[source_index(frame.width, region, r, c)]
}

/// Computes the region of the frame to keep, checking the geometry in order:
/// frame size against the window, a non-empty client area, the client inside
/// the window, and a border smaller than the client area.
pub fn crop_region(frame_w: u32, frame_h: u32, window: Rect, client: Rect, border: Border) -> (r:
    Result<CropRegion, CropError>)
    ensures
        r == crop_region_of(frame_w, frame_h, window, client, border),
        r is Ok ==> region_within(r->Ok_0, frame_w, frame_h),
{
    if frame_w != window.width || frame_h != window.height {
        return Err(CropError::FrameSizeMismatch);
    }
    if client.width == 0 || client.height == 0 {
        return Err(CropError::ZeroClientArea);
    }
    let wx = window.x as i64;
    let wy = window.y as i64;
    let cx = client.x as i64;
    let cy = client.y as i64;
    if cx < wx || cy < wy || cx + client.width as i64 > wx + window.width as i64 || cy
        + client.height as i64 > wy + window.height as i64 {
        return Err(CropError::ClientOutsideWindow);
    }
    let bl = border.left as u64;
    let bt = border.top as u64;
    let br = border.right as u64;
    let bb = border.bottom as u64;
    if bl + br >= client.width as u64 || bt + bb >= client.height as u64 {
        return Err(CropError::BorderExceedsClient);
    }
    let x = ((cx - wx) as u64 + bl) as u32;
    let y = ((cy - wy) as u64 + bt) as u32;
    let width = (client.width as u64 - bl - br) as u32;
    let height = (client.height as u64 - bt - bb) as u32;
    Ok(CropRegion { x, y, width, height })
}

proof fn lemma_row_offsets(r: int, rows: int, rw: int, c: int)
    requires
        0 <= r < rows,
        0 <= c < rw,
    ensures
        0 <= r * rw + c < rows * rw,
        r * rw + c < (r + 1) * rw,
        r * rw <= r * rw + c,
{
    assert(0 <= r * rw + c < rows * rw) by (nonlinear_arith)
        requires
            0 <= r < rows,
            0 <= c < rw,
    ;
    assert(r * rw + c < (r + 1) * rw) by (nonlinear_arith)
        requires
            0 <= c < rw,
    ;
}

proof fn lemma_row_order(r1: int, c1: int, r2: int, c2: int, rw: int)
    requires
        0 <= c1 < rw,
        0 <= c2 < rw,
        0 <= r1 < r2,
    ensures
        r1 * rw + c1 < r2 * rw + c2,
{
    assert(r1 * rw + c1 < r2 * rw + c2) by (nonlinear_arith)
        requires
            0 <= c1 < rw,
            0 <= c2 < rw,
            0 <= r1 < r2,
    ;
}

proof fn lemma_frame_row_fits(fw: int, fh: int)
    requires
        0 <= fw,
        1 <= fh,
    ensures
        4 * fw <= 4 * fw * fh,
{
    assert(4 * fw <= 4 * fw * fh) by (nonlinear_arith)
        requires
            0 <= fw,
            1 <= fh,
    ;
}

proof fn lemma_source_in_frame(fw: int, fh: int, x: int, y: int, w: int, r: int, c: int)
    requires
        0 <= x,
        0 <= y,
        x + w <= fw,
        0 <= r,
        y + r < fh,
        0 <= c < 4 * w,
    ensures
        0 <= (y + r) * (4 * fw) + 4 * x + c < 4 * fw * fh,
{
    assert(0 <= (y + r) * (4 * fw) + 4 * x + c < 4 * fw * fh) by (nonlinear_arith)
        requires
            0 <= x,
            0 <= y,
            x + w <= fw,
            0 <= r,
            y + r < fh,
            0 <= c < 4 * w,
    ;
}

/// Copies `region` out of `frame` into a tightly packed buffer.
pub fn crop_pixels(frame: &RawFrame, region: CropRegion) -> (img: CroppedImage)
    requires
        frame.wf(),
        region_within(region, frame.width, frame.height),
    ensures
        img.width == region.width,
        img.height == region.height,
        img.wf(),
        is_crop_of(img.data@, *frame, region),
{
    let n: usize = frame.data.len();
    proof {
        lemma_frame_row_fits(frame.width as int, frame.height as int);
    }
    let rw: usize = 4 * region.width as usize;
    let stride: usize = 4 * frame.width as usize;
    let mut out: Vec<u8> = Vec::new();
    let mut r: u32 = 0;
    while r < region.height
        invariant
            frame.wf(),
            n == frame.data@.len(),
            region_within(region, frame.width, frame.height),
            rw == 4 * region.width,
            stride == 4 * frame.width,
            0 <= r <= region.height,
            out@.len() == r * rw,
            forall|rr: int, c: int|
                0 <= rr < r && 0 <= c < rw ==> #[trigger] out@[rr * rw + c]
                    == frame.data@[source_index(frame.width, region, rr, c)],
        decreases region.height - r,
    {
        proof {
            lemma_source_in_frame(
                frame.width as int,
                frame.height as int,
                region.x as int,
                region.y as int,
                region.width as int,
                r as int,
                0,
            );
            assert((region.y + r) * stride <= (region.y + r) * stride + 4 * region.x);
        }
        let row_start: usize = (region.y + r) as usize * stride + 4 * region.x as usize;
        let mut c: usize = 0;
        while c < rw
            invariant
                frame.wf(),
                n == frame.data@.len(),
                region_within(region, frame.width, frame.height),
                rw == 4 * region.width,
                stride == 4 * frame.width,
                0 <= r < region.height,
                row_start == source_index(frame.width, region, r as int, 0),
                0 <= c <= rw,
                out@.len() == r * rw + c,
                forall|rr: int, cc: int|
                    0 <= rr < r && 0 <= cc < rw ==> #[trigger] out@[rr * rw + cc]
                        == frame.data@[source_index(frame.width, region, rr, cc)],
                forall|cc: int|
                    0 <= cc < c ==> #[trigger] out@[r * rw + cc] == frame.data@[source_index(
                        frame.width,
                        region,
                        r as int,
                        cc,
                    )],
            decreases rw - c,
        {
            proof {
                lemma_source_in_frame(
                    frame.width as int,
                    frame.height as int,
                    region.x as int,
                    region.y as int,
                    region.width as int,
                    r as int,
                    c as int,
                );
            }
            let b = frame.data[row_start + c];
            let ghost prev = out@;
            out.push(b);
            proof {
                assert forall|rr: int, cc: int|
                    0 <= rr < r && 0 <= cc < rw implies #[trigger] out@[rr * rw + cc]
                    == frame.data@[source_index(frame.width, region, rr, cc)] by {
                    lemma_row_order(rr, cc, r as int, 0, rw as int);
                    lemma_row_offsets(rr, r as int, rw as int, cc);
                    assert(out@[rr * rw + cc] == prev[rr * rw + cc]);
                }
                assert forall|cc: int| 0 <= cc < c + 1 implies #[trigger] out@[r * rw + cc]
                    == frame.data@[source_index(frame.width, region, r as int, cc)] by {
                    if cc < c {
                        assert(out@[r * rw + cc] == prev[r * rw + cc]);
                    }
                }
            }
            c = c + 1;
        }
        proof {
            assert((r + 1) * rw == r * rw + rw) by (nonlinear_arith);
            assert forall|rr: int, cc: int|
                0 <= rr < r + 1 && 0 <= cc < rw implies #[trigger] out@[rr * rw + cc]
                == frame.data@[source_index(frame.width, region, rr, cc)] by {
                if rr == r {
                } else {
                }
            }
        }
        r = r + 1;
    }
    proof {
        assert(4 * (region.width as int) * (region.height as int) == region.height * rw)
            by (nonlinear_arith)
            requires
                rw == 4 * region.width,
        ;
    }
    CroppedImage { width: region.width, height: region.height, data: out }
}

/// Crops one frame to the client area less the border. Fails with the first
/// geometry check that does not hold; a buffer whose length does not match
/// the frame's size is a size mismatch.
pub fn crop_client(frame: &RawFrame, window: Rect, client: Rect, border: Border) -> (r: Result<
    CroppedImage,
    CropError,
>)
    ensures
        !frame.wf() ==> r == Err::<CroppedImage, CropError>(CropError::FrameSizeMismatch),
        frame.wf() ==> (match crop_region_of(frame.width, frame.height, window, client, border) {
            Ok(region) => r is Ok && r->Ok_0.width == region.width && r->Ok_0.height
                == region.height && r->Ok_0.wf() && is_crop_of(r->Ok_0.data@, *frame, region),
            Err(e) => r == Err::<CroppedImage, CropError>(e),
        }),
{
    let row_bytes: u128 = 4 * frame.width as u128;
    proof {
        assert(row_bytes * frame.height <= 0x4_0000_0000 * 0x1_0000_0000) by (nonlinear_arith)
            requires
                row_bytes <= 0x4_0000_0000,
                frame.height <= 0x1_0000_0000,
        ;
    }
    let expected: u128 = row_bytes * frame.height as u128;
    if frame.data.len() as u128 != expected {
        return Err(CropError::FrameSizeMismatch);
    }
    match crop_region(frame.width, frame.height, window, client, border) {
        Ok(region) => Ok(crop_pixels(frame, region)),
        Err(e) => Err(e),
    }
}

/// A frame whose size differs from the window's is always rejected as a
/// size mismatch, whatever the client rectangle and border.
pub proof fn lemma_size_mismatch_rejected(frame: RawFrame, window: Rect, client: Rect, border: Border)
    requires
        frame.width != window.width || frame.height != window.height,
    ensures
        crop_region_of(frame.width, frame.height, window, client, border) == Err::<
            CropRegion,
            CropError,
        >(CropError::FrameSizeMismatch),
{
}

/// A border as wide or as tall as the client area never yields a region:
/// the frame is rejected, by this check or an earlier one.
pub proof fn lemma_wide_border_rejected(
    frame_w: u32,
    frame_h: u32,
    window: Rect,
    client: Rect,
    border: Border,
)
    requires
        border.left + border.right >= client.width || border.top + border.bottom >= client.height,
    ensures
        crop_region_of(frame_w, frame_h, window, client, border) is Err,
        frame_w == window.width && frame_h == window.height && client.width > 0 && client.height
            > 0 && contains(window, client) ==> crop_region_of(
            frame_w,
            frame_h,
            window,
            client,
            border,
        ) == Err::<CropRegion, CropError>(CropError::BorderExceedsClient),
{
}

#[verifier::external_type_specification]
#[verifier::external_body]
pub struct ExDynamicImage(image::DynamicImage);

/// The image that image::RgbaImage::from_raw builds from these arguments.
pub uninterp spec fn rgba_image_of(width: u32, height: u32, buf: Vec<u8>) -> image::DynamicImage;

/// Relies on image::RgbaImage::from_raw: it returns an image exactly when the
/// buffer holds at least four bytes for each of `width` by `height` pixels,
/// and that image is made of the three arguments alone.
#[verifier::external_body]
fn rgba_from_raw(width: u32, height: u32, buf: Vec<u8>) -> (r: Option<image::DynamicImage>)
    ensures
        r is Some <==> 4 * (width as int) * (height as int) <= buf@.len(),
        r is Some ==> r == Some(rgba_image_of(width, height, buf)),
{
    image::RgbaImage::from_raw(width, height, buf).map(image::DynamicImage::ImageRgba8)
}

impl CroppedImage {
    /// Builds an RGBA image of `width` by `height` from the pixels; fails
    /// when the buffer does not hold exactly four bytes for each pixel.
    pub fn to_image(self) -> (r: Result<image::DynamicImage, CropError>)
        ensures
            r is Ok <==> self.wf(),
            r is Ok ==> r == Ok::<image::DynamicImage, CropError>(
                rgba_image_of(self.width, self.height, self.data),
            ),
            r is Err ==> r == Err::<image::DynamicImage, CropError>(
                CropError::BufferConstructionFailed,
            ),
    {
        let row_bytes: u128 = 4 * self.width as u128;
        proof {
            assert(row_bytes * self.height <= 0x4_0000_0000 * 0x1_0000_0000) by (nonlinear_arith)
                requires
                    row_bytes <= 0x4_0000_0000,
                    self.height <= 0x1_0000_0000,
            ;
        }
        if self.data.len() as u128 != row_bytes * self.height as u128 {
            return Err(CropError::BufferConstructionFailed);
        }
        match rgba_from_raw(self.width, self.height, self.data) {
            Some(img) => Ok(img),
            None => Err(CropError::BufferConstructionFailed),
        }
    }
}

} // verus!
