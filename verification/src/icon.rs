//! The picture of the tray.

use vstd::prelude::*;

verus! {

/// The width and height of the picture in the tray.
pub const TRAY_ICON_SIZE: u32 = 64;

/// A picture of four bytes per pixel: red, green, blue and alpha.
#[derive(Debug)]
pub struct RgbaImage {
    pub width: u32,
    pub height: u32,
    pub data: Vec<u8>,
}

/// A picture of four bytes per pixel: alpha, red, green and blue.
#[derive(Debug)]
pub struct Icon {
    pub width: i32,
    pub height: i32,
    pub data: Vec<u8>,
}

impl RgbaImage {
    /// There are as many pixels as the sides say.
    pub open spec fn wf(self) -> bool {
        self.data.len() == 4 * (self.width * self.height)
    }
}

/// The pixels of a square of this size can be held in memory.
pub open spec fn square_fits(size: u32) -> bool {
    4 * (size * size) <= isize::MAX
}

/// Whether the pixels of a square of this size can be held in memory.
pub fn can_be_square(size: u32) -> (r: bool)
    ensures
        r == square_fits(size),
{
    proof {
        assert(0 <= size * size <= 0xffff_ffff * 0xffff_ffff) by (nonlinear_arith)
            requires
                0 <= size <= 0xffff_ffff,
        ;
    }
    4 * (size as u128 * size as u128) <= isize::MAX as u128
}

/// The bytes start with the signature of the PNG format.
pub open spec fn is_signed(png: Seq<u8>) -> bool {
    png.len() >= 8 && png.take(8) == seq![137u8, 80u8, 78u8, 71u8, 13u8, 10u8, 26u8, 10u8]
}

/// `image::load_from_memory_with_format` reads a picture in the PNG format, `resize_exact` scales
/// it to a square with the Lanczos filter, and `to_rgba8` gives its pixels, four bytes each. Where
/// the bytes are no such picture, there is none; without the signature of the format they never
/// are. Which signed bytes are accepted is not stated: the decoder counts the room that the
/// allocator gave it against a limit. Which colours come out is not stated either: the filter
/// computes with the sine of the machine. A picture for which the memory does not suffice is left
/// out of account here, as for every list.
#[verifier::external_body]
fn scaled_rgba(png: &Vec<u8>, size: u32) -> (r: Option<Vec<u8>>)
    requires
        square_fits(size),
    ensures
        r is Some ==> is_signed(png@),
        r matches Some(data) ==> data.len() == 4 * (size * size),
{
    image::load_from_memory_with_format(png, image::ImageFormat::Png).ok().map(
        |i|
            i.resize_exact(size, size, image::imageops::FilterType::Lanczos3).to_rgba8().into_raw(),
    )
}

/// `data` is what reading and scaling these bytes brought.
pub closed spec fn is_scaled(png: Vec<u8>, size: u32, data: Option<Vec<u8>>) -> bool {
    call_ensures(scaled_rgba, (&png, size), data)
}

/// The square picture that the pixels make, where there are any.
pub fn square_of(data: Option<Vec<u8>>, size: u32) -> (r: Option<RgbaImage>)
    requires
        square_fits(size),
        data matches Some(d) ==> d.len() == 4 * (size * size),
    ensures
        match data {
            Some(d) => r == Some(RgbaImage { width: size, height: size, data: d }) && r->0.wf(),
            None => r is None,
        },
{
    match data {
        Some(data) => Some(RgbaImage { width: size, height: size, data }),
        None => None,
    }
}

/// Decodes a picture in the PNG format and scales it to a square.
pub fn icon_rgba(png: &Vec<u8>, size: u32) -> (r: Option<RgbaImage>)
    requires
        square_fits(size),
    ensures
        !is_signed(png@) ==> r is None,
        r matches Some(i) ==> i.wf() && i.width == size && i.height == size,
        exists|data: Option<Vec<u8>>| #[trigger]
            is_scaled(*png, size, data) && match data {
                Some(d) => r matches Some(i) && i.data == d,
                None => r is None,
            },
{
    let data = scaled_rgba(png, size);
    assert(is_scaled(*png, size, data));
    square_of(data, size)
}

/// `argb` has the pixels of `rgba`, with the alpha of each in front of its colours.
pub open spec fn alpha_in_front(argb: Seq<u8>, rgba: Seq<u8>) -> bool {
    &&& argb.len() == rgba.len()
    &&& forall|i: int|
        0 <= i < rgba.len() ==> #[trigger] argb[i] == if i % 4 == 0 {
            rgba[i + 3]
        } else {
            rgba[i - 1]
        }
}

/// The picture with the alpha of each pixel in front of its colours.
pub fn argb_icon(image: &RgbaImage) -> (r: Icon)
    requires
        image.wf(),
        image.width <= i32::MAX,
        image.height <= i32::MAX,
    ensures
        r.width == image.width,
        r.height == image.height,
        alpha_in_front(r.data@, image.data@),
{
    let rgba = &image.data;
    let mut data: Vec<u8> = Vec::new();
    let mut i: usize = 0;
    while i < rgba.len()
        invariant
            i <= rgba.len(),
            i % 4 == 0,
            rgba.len() % 4 == 0,
            data.len() == i,
            forall|j: int|
                0 <= j < i ==> #[trigger] data[j] == if j % 4 == 0 {
                    rgba[j + 3]
                } else {
                    rgba[j - 1]
                },
        decreases rgba.len() - i,
    {
        data.push(rgba[i + 3]);
        data.push(rgba[i]);
        data.push(rgba[i + 1]);
        data.push(rgba[i + 2]);
        i = i + 4;
    }
    Icon { width: image.width as i32, height: image.height as i32, data }
}

/// The picture with the alpha of each pixel in front of its colours, where there is a picture.
pub fn argb_of(image: &Option<RgbaImage>) -> (r: Option<Icon>)
    requires
        image matches Some(i) ==> i.wf() && i.width <= i32::MAX && i.height <= i32::MAX,
    ensures
        match *image {
            Some(i) => r is Some && r->0.width == i.width && r->0.height == i.height
                && alpha_in_front(r->0.data@, i.data@),
            None => r is None,
        },
{
    match image {
        Some(image) => Some(argb_icon(image)),
        None => None,
    }
}

/// The picture of the tray, where the bytes are a picture in the PNG format.
pub fn tray_icon(png: &Vec<u8>) -> (r: Option<Icon>)
    ensures
        !is_signed(png@) ==> r is None,
        r matches Some(i) ==> i.width == TRAY_ICON_SIZE && i.height == TRAY_ICON_SIZE
            && i.data.len() == 4 * TRAY_ICON_SIZE * TRAY_ICON_SIZE,
        exists|data: Option<Vec<u8>>| #[trigger]
            is_scaled(*png, TRAY_ICON_SIZE, data) && match data {
                Some(d) => r matches Some(i) && alpha_in_front(i.data@, d@),
                None => r is None,
            },
{
    argb_of(&icon_rgba(png, TRAY_ICON_SIZE))
}

/// No pixel is lost or mixed with another: two pictures that look alike with the alpha in front are
/// the same picture.
pub proof fn alpha_in_front_tells_pictures(argb: Seq<u8>, a: Seq<u8>, b: Seq<u8>)
    requires
        a.len() % 4 == 0,
        alpha_in_front(argb, a),
        alpha_in_front(argb, b),
    ensures
        a == b,
{
    assert forall|i: int| 0 <= i < a.len() implies a[i] == b[i] by {
        let j = if i % 4 == 3 {
            i - 3
        } else {
            i + 1
        };
        assert(argb[j] == a[i]);
        assert(argb[j] == b[i]);
    }
    assert(a =~= b);
}

/// Each pixel keeps its place and its four bytes: the alpha, which was the last, is the first, and
/// red, green and blue follow in their order.
pub proof fn pixels_keep_their_bytes(argb: Seq<u8>, rgba: Seq<u8>, p: int)
    requires
        alpha_in_front(argb, rgba),
        0 <= p,
        4 * p + 3 < rgba.len(),
    ensures
        argb.len() == rgba.len(),
        argb[4 * p] == rgba[4 * p + 3],
        argb[4 * p + 1] == rgba[4 * p],
        argb[4 * p + 2] == rgba[4 * p + 1],
        argb[4 * p + 3] == rgba[4 * p + 2],
{
    assert((4 * p) % 4 == 0 && (4 * p + 1) % 4 == 1 && (4 * p + 2) % 4 == 2 && (4 * p + 3) % 4
        == 3);
}

/// What was scaled came from reading these very bytes and scaling them to this size.
proof fn scaled_by_reading(png: Vec<u8>, size: u32, data: Option<Vec<u8>>)
    requires
        is_scaled(png, size, data),
    ensures
        call_ensures(scaled_rgba, (&png, size), data),
        data matches Some(d) ==> d.len() == 4 * (size * size) && is_signed(png@),
{
}

/// A square fits where its four bytes per pixel can be counted.
pub proof fn squares_that_fit(size: u32)
    ensures
        square_fits(size) <==> 4 * size * size <= isize::MAX,
        size <= 10_000 ==> square_fits(size),
{
    assert(4 * (size * size) == 4 * size * size) by (nonlinear_arith);
    if size <= 10_000 {
        assert(size * size <= 100_000_000) by (nonlinear_arith)
            requires
                0 <= size <= 10_000,
        ;
    }
}

} // verus!
