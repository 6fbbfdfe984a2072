//! Preview frames for the user interface: captured pixels as a JPEG image
//! in base64 text. The image and text codecs are outside crates; what is
//! proved here is what reaches them and what is made of their results.

use vstd::prelude::*;

verus! {

/// The JPEG encoding of the RGBA pixels `rgba` of an image of the given
/// size at the given quality, as the `image` crate writes it, or nothing
/// where it reports an error.
pub uninterp spec fn jpeg_bytes(rgba: Seq<u8>, width: u32, height: u32, quality: u8) -> Option<
    Seq<u8>,
>;

/// The RGBA pixels of an image of the given size after the `image` crate
/// has resized it to the new size with its nearest-neighbour filter.
pub uninterp spec fn nearest_resized(
    rgba: Seq<u8>,
    width: u32,
    height: u32,
    new_width: u32,
    new_height: u32,
) -> Seq<u8>;

/// The base64 text of `bytes` in the standard alphabet with padding, as
/// the `base64` crate writes it.
pub uninterp spec fn base64_text(bytes: Seq<u8>) -> Seq<char>;

/// Calls `image::ImageBuffer::from_raw` on the pixels and
/// `ImageBuffer::write_to` with `ImageOutputFormat::Jpeg(quality)` on an
/// in-memory writer. The contract names the bytes written, or says that
/// the encoder reported an error; it claims nothing else of them. The
/// pixel count must match the size, which is the case in which `from_raw`
/// succeeds and the encoder's length check passes.
#[verifier::external_body]
fn jpeg_encode(rgba: &[u8], width: u32, height: u32, quality: u8) -> (jpeg: Option<Vec<u8>>)
    requires
        rgba@.len() == width * height * 4,
    ensures
        match jpeg {
            Some(bytes) => jpeg_bytes(rgba@, width, height, quality) == Some(bytes@),
            None => jpeg_bytes(rgba@, width, height, quality).is_none(),
        },
{
    let image = image::ImageBuffer::<image::Rgba<u8>, &[u8]>::from_raw(width, height, rgba)?;
    let mut bytes: Vec<u8> = Vec::new();
    let mut writer = std::io::Cursor::new(&mut bytes);
    match image.write_to(&mut writer, image::ImageOutputFormat::Jpeg(quality)) {
        Ok(()) => Some(bytes),
        Err(_) => None,
    }
}

/// Calls `image::imageops::resize` with `FilterType::Nearest` on the
/// pixels. The contract names the resized pixels and states their number,
/// four bytes for each pixel of the new size. The source must not be
/// empty, since the sampler indexes its first row and column, and the
/// buffers that the call allocates must fit the machine.
#[verifier::external_body]
fn resize_nearest(rgba: &[u8], width: u32, height: u32, new_width: u32, new_height: u32) -> (out:
    Vec<u8>)
    requires
        rgba@.len() == width * height * 4,
        width > 0,
        height > 0,
        new_width * new_height * 4 <= usize::MAX,
        width * new_height * 4 <= usize::MAX,
    ensures
        out@ == nearest_resized(rgba@, width, height, new_width, new_height),
        out@.len() == new_width * new_height * 4,
{
    let image = image::ImageBuffer::<image::Rgba<u8>, &[u8]>::from_raw(width, height, rgba)
        .unwrap();
    let filter = image::imageops::FilterType::Nearest;
    image::imageops::resize(&image, new_width, new_height, filter).into_raw()
}

/// Calls `base64::encode`, which encodes with the standard alphabet and
/// padding. The contract names the text. The input must be short enough
/// for the encoded length, four characters for every three bytes begun,
/// to fit the machine: the call panics otherwise.
#[verifier::external_body]
fn base64_encode(bytes: &[u8]) -> (text: String)
    requires
        (bytes@.len() / 3) * 4 + 4 <= usize::MAX,
    ensures
        text@ == base64_text(bytes@),
{
    #[allow(deprecated)]
    base64::encode(bytes)
}

/// The source channel that an output channel takes: red and blue change
/// places.
pub open spec fn swapped_channel(c: int) -> int {
    if c == 0 {
        2
    } else if c == 2 {
        0
    } else {
        c
    }
}

/// Byte `i` of the RGBA image made from BGRA rows `pitch` bytes apart:
/// the source pixel's byte of the swapped channel, or zero where the
/// source ends before the pixel does.
pub open spec fn rgba_byte(src: Seq<u8>, pitch: int, width: int, i: int) -> u8 {
    let pixel = i / 4;
    let at = (pixel / width) * pitch + (pixel % width) * 4;
    if at + 3 < src.len() {
        src[at + swapped_channel(i % 4)]
    } else {
        0
    }
}

/// The RGBA image, without padding, made from BGRA rows.
pub open spec fn rgba_of(src: Seq<u8>, pitch: int, width: int, height: int) -> Seq<u8> {
    Seq::new((width * height * 4) as nat, |i: int| rgba_byte(src, pitch, width, i))
}

/// The RGBA image made from a captured BGRA frame whose rows start
/// `pitch` bytes apart, or nothing where its byte length does not fit the
/// machine.
pub fn rgba_from_bgra(src: &[u8], width: u32, height: u32, pitch: usize) -> (out: Option<Vec<u8>>)
    ensures
        out.is_some() == (width * height * 4 <= usize::MAX),
        match out {
            Some(pixels) => pixels@ == rgba_of(src@, pitch as int, width as int, height as int),
            None => true,
        },
{
    proof {
        assert(width * height <= 0xffff_ffff * 0xffff_ffff) by (nonlinear_arith)
            requires
                0 <= width <= 0xffff_ffff,
                0 <= height <= 0xffff_ffff,
        ;
    }
    let total: u128 = (width as u128) * (height as u128) * 4;
    if total > usize::MAX as u128 {
        return None;
    }
    let len: usize = src.len();
    let mut out: Vec<u8> = Vec::new();
    let mut y: u32 = 0;
    while y < height
        invariant
            y <= height,
            len == src@.len(),
            width * height * 4 <= usize::MAX,
            out@ == Seq::new(
                (y * width * 4) as nat,
                |i: int| rgba_byte(src@, pitch as int, width as int, i),
            ),
        decreases height - y,
    {
        let mut x: u32 = 0;
        proof {
            assert(y * width * 4 == (y * width + 0) * 4);
            assert(0 <= y * width) by (nonlinear_arith)
                requires
                    0 <= y,
                    0 <= width,
            ;
        }
        while x < width
            invariant
                x <= width,
                y < height,
                len == src@.len(),
                width * height * 4 <= usize::MAX,
                0 <= y * width,
                out@ == Seq::new(
                    ((y * width + x) * 4) as nat,
                    |i: int| rgba_byte(src@, pitch as int, width as int, i),
                ),
            decreases width - x,
        {
            proof {
                assert(y * pitch <= 0xffff_ffff * 0xffff_ffff_ffff_ffff) by (nonlinear_arith)
                    requires
                        0 <= y <= 0xffff_ffff,
                        0 <= pitch <= 0xffff_ffff_ffff_ffff,
                ;
            }
            let at: u128 = (y as u128) * (pitch as u128) + (x as u128) * 4;
            let pixel: [u8; 4] = if at + 3 < len as u128 {
                let base: usize = at as usize;
                [src[base + 2], src[base + 1], src[base], src[base + 3]]
            } else {
                [0, 0, 0, 0]
            };
            let ghost p = y * width + x;
            out.push(pixel[0]);
            out.push(pixel[1]);
            out.push(pixel[2]);
            out.push(pixel[3]);
            proof {
                crate::fixed::lemma_floor_quotient(p, width as int, y as int);
                vstd::arithmetic::div_mod::lemma_fundamental_div_mod(p, width as int);
                assert(width * (p / (width as int)) == y * width) by (nonlinear_arith)
                    requires
                        p / (width as int) == y,
                ;
                assert(p % (width as int) == x);
                assert((p / (width as int)) * pitch == y * pitch) by (nonlinear_arith)
                    requires
                        p / (width as int) == y,
                ;
                assert((y * width + (x + 1)) * 4 == p * 4 + 4);
                let after = Seq::new(
                    ((y * width + (x + 1)) * 4) as nat,
                    |i: int| rgba_byte(src@, pitch as int, width as int, i),
                );
                assert forall|i: int| 0 <= i < after.len() implies out@[i] == after[i] by {
                    if i >= p * 4 {
                        assert(i / 4 == p);
                    }
                }
                assert(out@ =~= after);
            }
            x += 1;
        }
        proof {
            assert((y + 1) * width * 4 == (y * width + width) * 4) by (nonlinear_arith);
        }
        y += 1;
    }
    proof {
        assert(height * width * 4 == width * height * 4) by (nonlinear_arith);
    }
    Some(out)
}

/// The longest run of bytes that is turned into base64 text.
pub open spec fn encodable(len: int) -> bool {
    (len / 3) * 4 + 4 <= usize::MAX
}

/// The base64 text of an encoded image: nothing where there is no image
/// or where its text would not fit the machine.
pub open spec fn payload_spec(jpeg: Option<Seq<u8>>) -> Option<Seq<char>> {
    match jpeg {
        Some(bytes) => if encodable(bytes.len() as int) {
            Some(base64_text(bytes))
        } else {
            None
        },
        None => None,
    }
}

/// The base64 text of an encoded image, if there is one.
pub fn payload(jpeg: Option<Vec<u8>>) -> (text: Option<String>)
    ensures
        match text {
            Some(t) => jpeg.is_some() && payload_spec(Some(jpeg.unwrap()@)) == Some(t@),
            None => jpeg.is_none() || payload_spec(Some(jpeg.unwrap()@)).is_none(),
        },
{
    match jpeg {
        Some(bytes) => {
            let len: usize = bytes.len();
            if len / 3 > (usize::MAX - 4) / 4 {
                None
            } else {
                Some(base64_encode(bytes.as_slice()))
            }
        },
        None => None,
    }
}

/// The quality of the JPEG images of the standalone preview.
pub const PREVIEW_QUALITY: u8 = 95;

/// The quality of the thumbnails shown while recording.
pub const THUMBNAIL_QUALITY: u8 = 50;

/// The width of the thumbnails shown while recording.
pub const THUMBNAIL_WIDTH: u32 = 480;

/// The preview of a captured BGRA frame: its RGBA pixels as a JPEG image
/// in base64 text.
pub open spec fn preview_spec(src: Seq<u8>, width: u32, height: u32, pitch: int) -> Option<
    Seq<char>,
> {
    if width * height * 4 <= usize::MAX {
        payload_spec(
            jpeg_bytes(
                rgba_of(src, pitch, width as int, height as int),
                width,
                height,
                PREVIEW_QUALITY,
            ),
        )
    } else {
        None
    }
}

/// The preview of a captured BGRA frame whose rows start `pitch` bytes
/// apart.
pub fn preview_frame(src: &[u8], width: u32, height: u32, pitch: usize) -> (text: Option<String>)
    ensures
        match text {
            Some(t) => preview_spec(src@, width, height, pitch as int) == Some(t@),
            None => preview_spec(src@, width, height, pitch as int).is_none(),
        },
{
    match rgba_from_bgra(src, width, height, pitch) {
        Some(pixels) => payload(jpeg_encode(pixels.as_slice(), width, height, PREVIEW_QUALITY)),
        None => None,
    }
}

/// Whether a thumbnail is shown for the capture event with this number,
/// counted from one: for every fifth.
pub fn thumbnail_due(count: u64) -> (due: bool)
    ensures
        due == (count % 5 == 0),
{
    count % 5 == 0
}

/// The height of a thumbnail of the standard width that keeps the shape
/// of a frame, or nothing for a frame without width or too high to
/// compute with.
pub open spec fn thumbnail_height(width: u32, height: u32) -> Option<u32> {
    if width == 0 || 480 * height > u32::MAX {
        None
    } else {
        Some(((480 * height) / (width as int)) as u32)
    }
}

/// The thumbnail of a tight frame: its pixels resized to the standard
/// width, as a JPEG image in base64 text. The frame's bytes are taken in
/// the order in which they were captured.
pub open spec fn thumbnail_spec(frame: Seq<u8>, width: u32, height: u32) -> Option<Seq<char>> {
    match thumbnail_height(width, height) {
        Some(h) => if height > 0 && frame.len() == width * height * 4 && width * h * 4
            <= usize::MAX && 480 * h * 4 <= usize::MAX {
            payload_spec(
                jpeg_bytes(
                    nearest_resized(frame, width, height, THUMBNAIL_WIDTH, h),
                    THUMBNAIL_WIDTH,
                    h,
                    THUMBNAIL_QUALITY,
                ),
            )
        } else {
            None
        },
        None => None,
    }
}

/// The thumbnail of a tight frame of the given size.
pub fn thumbnail(frame: &[u8], width: u32, height: u32) -> (text: Option<String>)
    ensures
        match text {
            Some(t) => thumbnail_spec(frame@, width, height) == Some(t@),
            None => thumbnail_spec(frame@, width, height).is_none(),
        },
{
    if width == 0 || height == 0 || height > u32::MAX / 480 {
        return None;
    }
    let new_height: u32 = (480 * height) / width;
    proof {
        assert(width * height <= 0xffff_ffff * 0xffff_ffff) by (nonlinear_arith)
            requires
                0 <= width <= 0xffff_ffff,
                0 <= height <= 0xffff_ffff,
        ;
        assert(width * new_height <= 0xffff_ffff * 0xffff_ffff) by (nonlinear_arith)
            requires
                0 <= width <= 0xffff_ffff,
                0 <= new_height <= 0xffff_ffff,
        ;
    }
    let needed: u128 = (width as u128) * (height as u128) * 4;
    let scratch: u128 = (width as u128) * (new_height as u128) * 4;
    let made: u128 = 480 * (new_height as u128) * 4;
    if frame.len() as u128 != needed || scratch > usize::MAX as u128 || made > usize::MAX as u128 {
        return None;
    }
    let resized: Vec<u8> = resize_nearest(frame, width, height, THUMBNAIL_WIDTH, new_height);
    payload(jpeg_encode(resized.as_slice(), THUMBNAIL_WIDTH, new_height, THUMBNAIL_QUALITY))
}

} // verus!
