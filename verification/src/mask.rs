//! Images held as raw bytes, and the pixel operations of the mask nodes:
//! picking a channel or the luminance as a grayscale mask, expanding a mask
//! to RGB, inverting, thresholding, solid masks, and compositing one mask
//! onto another at an offset.

use vstd::prelude::*;
use crate::text::{chars_of};

verus! {

/// An image: `width × height` pixels of `channel` bytes each, row by row.
#[derive(Clone, Debug)]
pub struct SdImage {
    pub width: u32,
    pub height: u32,
    pub channel: u32,
    pub data: Vec<u8>,
}

/// The mathematical content of an [`SdImage`].
pub struct ImageView {
    pub width: u32,
    pub height: u32,
    pub channel: u32,
    pub data: Seq<u8>,
}

impl View for SdImage {
    type V = ImageView;

    open spec fn view(&self) -> ImageView {
        ImageView { width: self.width, height: self.height, channel: self.channel, data: self.data@ }
    }
}

/// The image of `width × height` pixels of `channel` bytes, all zero.
pub open spec fn blank(width: u32, height: u32, channel: u32) -> ImageView {
    ImageView {
        width,
        height,
        channel,
        data: Seq::new((width * height * channel) as nat, |i: int| 0u8),
    }
}

/// A grayscale image of the given size from `data`, where `data` has one
/// byte per pixel; otherwise the blank grayscale image of that size.
pub open spec fn grayscale_or_blank(width: u32, height: u32, data: Seq<u8>) -> ImageView {
    if data.len() == width * height {
        ImageView { width, height, channel: 1, data }
    } else {
        blank(width, height, 1)
    }
}

/// An RGB image of the given size from `data`, where `data` has three
/// bytes per pixel; otherwise the blank RGB image of that size.
pub open spec fn rgb_or_blank(width: u32, height: u32, data: Seq<u8>) -> ImageView {
    if data.len() == width * height * 3 {
        ImageView { width, height, channel: 3, data }
    } else {
        blank(width, height, 3)
    }
}

/// The ITU-R BT.601 luminance of a pixel, in integer arithmetic.
pub open spec fn luma(r: u8, g: u8, b: u8) -> u8 {
    ((r * 299 + g * 587 + b * 114) / 1000) as u8
}

/// Number of chunks of `c` bytes (the last one possibly shorter) in `len` bytes.
pub open spec fn chunk_count(len: int, c: int) -> int {
    (len + c - 1) / c
}

/// The byte at offset `need` exists in chunk `k`, if chunk `k` exists.
pub open spec fn chunk_has(len: int, c: int, need: int, k: int) -> bool {
    k * c < len ==> k * c + need < len
}

/// Offset in a pixel of the byte a mask takes: the channel `pick`, or the
/// luminance (offsets 0..2) where `pick` is no channel of the image.
pub open spec fn needed_offset(c: int, pick: int) -> int {
    if 0 <= pick < c {
        pick
    } else {
        2
    }
}

/// Every pixel of `data`, read in chunks of `c` bytes, has the bytes that
/// the mask needs (a pixel is read without a bounds check of its own).
pub open spec fn readable(data: Seq<u8>, c: int, pick: int) -> bool {
    (c == 3 || c == 4) ==> forall|k: int| 0 <= k ==> #[trigger] chunk_has(data.len() as int, c, needed_offset(c, pick), k)
}

/// One byte per pixel: for 3 or 4 channels, channel `pick` of each pixel,
/// or its luminance where `pick` is no channel of the image; any other
/// channel count keeps the bytes as they are.
pub open spec fn gray_pixels(data: Seq<u8>, c: int, pick: int) -> Seq<u8> {
    if c == 3 || c == 4 {
        Seq::new(
            chunk_count(data.len() as int, c) as nat,
            |k: int|
                if 0 <= pick < c {
                    data[k * c + pick]
                } else {
                    luma(data[k * c], data[k * c + 1], data[k * c + 2])
                },
        )
    } else {
        data
    }
}

/// The channel that a channel name selects: `red` 0, `green` 1, `blue` 2,
/// `alpha` 3, anything else 0.
pub open spec fn channel_index_of(name: Seq<char>) -> int {
    if name == seq!['r', 'e', 'd'] {
        0
    } else if name == seq!['g', 'r', 'e', 'e', 'n'] {
        1
    } else if name == seq!['b', 'l', 'u', 'e'] {
        2
    } else if name == seq!['a', 'l', 'p', 'h', 'a'] {
        3
    } else {
        0
    }
}

/// Is the image small enough to address (its byte count fits in `usize`)?
pub open spec fn fits(width: u32, height: u32, channel: u32) -> bool {
    width * height * channel <= usize::MAX
}

fn same_chars(a: &Vec<char>, b: &Vec<char>) -> (r: bool)
    ensures
        r == (a@ == b@),
{
    if a.len() != b.len() {
        return false;
    }
    let mut i: usize = 0;
    while i < a.len()
        invariant
            a@.len() == b@.len(),
            i <= a@.len(),
            forall|j: int| 0 <= j < i ==> a@[j] == b@[j],
        decreases a@.len() - i,
    {
        if a[i] != b[i] {
            return false;
        }
        i = i + 1;
    }
    assert(a@ =~= b@);
    true
}

/// The channel that a channel name selects (see [`channel_index_of`]).
pub fn channel_index(name: &str) -> (r: usize)
    ensures
        r == channel_index_of(name@),
{
    let v = chars_of(name);
    if same_chars(&v, &vec!['r', 'e', 'd']) {
        0
    } else if same_chars(&v, &vec!['g', 'r', 'e', 'e', 'n']) {
        1
    } else if same_chars(&v, &vec!['b', 'l', 'u', 'e']) {
        2
    } else if same_chars(&v, &vec!['a', 'l', 'p', 'h', 'a']) {
        3
    } else {
        0
    }
}

/// A blank image (`SdImage::new`).
pub fn new_image(width: u32, height: u32, channel: u32) -> (r: SdImage)
    requires
        fits(width, height, channel),
    ensures
        r@ == blank(width, height, channel),
{
    assert((width as int) * (height as int) <= 0xffff_ffff_ffff_ffff) by (nonlinear_arith)
        requires
            width <= 0xffff_ffff,
            height <= 0xffff_ffff,
    ;
    let wh = width as u64 * height as u64;
    assert((wh as int) * (channel as int) <= 0xffff_ffff_ffff_ffff_ffff_ffff) by (nonlinear_arith)
        requires
            wh <= 0xffff_ffff_ffff_ffff,
            channel <= 0xffff_ffff,
    ;
    let n = (wh as u128 * channel as u128) as usize;
    let mut data: Vec<u8> = Vec::new();
    let mut i: usize = 0;
    while i < n
        invariant
            i <= n,
            data@ == Seq::new(i as nat, |j: int| 0u8),
        decreases n - i,
    {
        data.push(0);
        i = i + 1;
        assert(data@ =~= Seq::new(i as nat, |j: int| 0u8));
    }
    SdImage { width, height, channel, data }
}

/// A grayscale image from one byte per pixel, or the blank grayscale image
/// where the byte count does not match (`SdImage::grayscale(..).unwrap_or_else(..)`).
pub fn grayscale_image(width: u32, height: u32, data: Vec<u8>) -> (r: SdImage)
    requires
        fits(width, height, 1),
    ensures
        r@ == grayscale_or_blank(width, height, data@),
{
    if data.len() as u64 == width as u64 * height as u64 {
        SdImage { width, height, channel: 1, data }
    } else {
        new_image(width, height, 1)
    }
}

/// An RGB image from three bytes per pixel, or the blank RGB image where
/// the byte count does not match (`SdImage::rgb(..).unwrap_or_else(..)`).
pub fn rgb_image(width: u32, height: u32, data: Vec<u8>) -> (r: SdImage)
    requires
        fits(width, height, 3),
    ensures
        r@ == rgb_or_blank(width, height, data@),
{
    if data.len() as u128 == width as u128 * height as u128 * 3 {
        SdImage { width, height, channel: 3, data }
    } else {
        new_image(width, height, 3)
    }
}

proof fn lemma_chunk_step(k: int, c: int, base: int)
    requires
        base == k * c,
    ensures
        base + c == (k + 1) * c,
{
    assert(base + c == (k + 1) * c) by (nonlinear_arith)
        requires
            base == k * c,
    ;
}

proof fn lemma_chunk_count(k: int, c: int, len: int)
    requires
        1 <= c,
        0 <= len,
        0 <= k,
        len <= k * c,
        k == 0 || (k - 1) * c < len,
    ensures
        k == chunk_count(len, c),
{
    assert(k == (len + c - 1) / c) by (nonlinear_arith)
        requires
            1 <= c,
            0 <= len,
            0 <= k,
            len <= k * c,
            k == 0 || (k - 1) * c < len,
    ;
}

/// One byte per pixel of `data` (see [`gray_pixels`]).
fn gray_bytes(data: &Vec<u8>, c: u32, pick: i64) -> (r: Vec<u8>)
    requires
        readable(data@, c as int, pick as int),
    ensures
        r@ == gray_pixels(data@, c as int, pick as int),
{
    if c != 3 && c != 4 {
        return data.clone();
    }
    let cu = c as usize;
    let len = data.len();
    let mut out: Vec<u8> = Vec::new();
    let mut base: usize = 0;
    let ghost mut k: int = 0;
    while base < len
        invariant
            c == 3 || c == 4,
            cu == c,
            len == data@.len(),
            readable(data@, c as int, pick as int),
            0 <= k,
            base == (if k * c < len {
                k * c
            } else {
                len as int
            }),
            k == 0 || (k - 1) * c < len,
            out@.len() == k,
            forall|j: int|
                0 <= j < k ==> #[trigger] out@[j] == (if 0 <= pick < c {
                    data@[j * c + pick]
                } else {
                    luma(data@[j * c], data@[j * c + 1], data@[j * c + 2])
                }),
        decreases len - base,
    {
        assert(chunk_has(len as int, c as int, needed_offset(c as int, pick as int), k));
        let v: u8 = if 0 <= pick && pick < c as i64 {
            data[base + pick as usize]
        } else {
            let r = data[base] as u32;
            let g = data[base + 1] as u32;
            let b = data[base + 2] as u32;
            ((r * 299 + g * 587 + b * 114) / 1000) as u8
        };
        out.push(v);
        proof {
            lemma_chunk_step(k, c as int, base as int);
            k = k + 1;
        }
        base = if len - base > cu {
            base + cu
        } else {
            len
        };
    }
    proof {
        lemma_chunk_count(k, c as int, len as int);
    }
    assert(out@ =~= gray_pixels(data@, c as int, pick as int));
    out
}

/// A mask from one channel of an image (`image_to_channel_mask`): for 3 or
/// 4 channels the named channel of each pixel, or the luminance where the
/// image has no such channel; other images keep their bytes.
pub fn image_to_channel_mask(image: &SdImage, channel: &str) -> (r: SdImage)
    requires
        fits(image.width, image.height, 1),
        readable(image.data@, image.channel as int, channel_index_of(channel@)),
    ensures
        r@ == grayscale_or_blank(
            image.width,
            image.height,
            gray_pixels(image.data@, image.channel as int, channel_index_of(channel@)),
        ),
{
    let idx = channel_index(channel);
    let gray = gray_bytes(&image.data, image.channel, idx as i64);
    grayscale_image(image.width, image.height, gray)
}

/// A mask from the luminance of an image (`image_to_grayscale_mask`).
pub fn image_to_grayscale_mask(image: &SdImage) -> (r: SdImage)
    requires
        fits(image.width, image.height, 1),
        readable(image.data@, image.channel as int, -1),
    ensures
        r@ == gray_mask(image@),
{
    let gray = gray_bytes(&image.data, image.channel, -1);
    grayscale_image(image.width, image.height, gray)
}


/// The luminance mask of an image as [`image_to_grayscale_mask`] makes it.
pub open spec fn gray_mask(image: ImageView) -> ImageView {
    grayscale_or_blank(image.width, image.height, gray_pixels(image.data, image.channel as int, -1))
}

/// What [`mask_to_rgb_image`] makes of a mask: each byte of its luminance
/// mask repeated three times, as an RGB image of the mask's size.
pub open spec fn as_rgb(mask: ImageView) -> ImageView {
    rgb_or_blank(
        mask.width,
        mask.height,
        Seq::new((3 * gray_mask(mask).data.len()) as nat, |i: int| gray_mask(mask).data[i / 3]),
    )
}

/// What [`invert_mask`] makes of a mask: each byte `v` of its luminance
/// mask replaced by `255 - v`.
pub open spec fn inverted(mask: ImageView) -> ImageView {
    grayscale_or_blank(
        mask.width,
        mask.height,
        Seq::new(gray_mask(mask).data.len(), |i: int| (255 - gray_mask(mask).data[i]) as u8),
    )
}

/// What [`threshold_mask`] makes of a mask: 255 where a byte of its
/// luminance mask is at least `level`, 0 elsewhere.
pub open spec fn thresholded(mask: ImageView, level: u8) -> ImageView {
    grayscale_or_blank(
        mask.width,
        mask.height,
        Seq::new(
            gray_mask(mask).data.len(),
            |i: int|
                if gray_mask(mask).data[i] >= level {
                    255u8
                } else {
                    0u8
                },
        ),
    )
}

/// A mask expanded to RGB (`mask_to_rgb_image`): see [`as_rgb`].
pub fn mask_to_rgb_image(mask: &SdImage) -> (r: SdImage)
    requires
        fits(mask.width, mask.height, 3),
        readable(mask.data@, mask.channel as int, -1),
    ensures
        r@ == as_rgb(mask@),
{
    proof {
        assert((mask.width as int) * (mask.height as int) <= (mask.width as int) * (
        mask.height as int) * 3) by (nonlinear_arith);
    }
    let gray = image_to_grayscale_mask(mask);
    let g = &gray.data;
    let mut rgb: Vec<u8> = Vec::new();
    let mut i: usize = 0;
    while i < g.len()
        invariant
            i <= g@.len(),
            g@.len() <= usize::MAX / 3 + 1,
            rgb@.len() == 3 * i,
            forall|j: int| 0 <= j < 3 * i ==> #[trigger] rgb@[j] == g@[j / 3],
        decreases g@.len() - i,
    {
        let v = g[i];
        rgb.push(v);
        rgb.push(v);
        rgb.push(v);
        i = i + 1;
    }
    assert(rgb@ =~= Seq::new((3 * g@.len()) as nat, |j: int| g@[j / 3]));
    rgb_image(mask.width, mask.height, rgb)
}

/// Inverts a mask (`invert_mask`): see [`inverted`].
pub fn invert_mask(mask: &SdImage) -> (r: SdImage)
    requires
        fits(mask.width, mask.height, 1),
        readable(mask.data@, mask.channel as int, -1),
    ensures
        r@ == inverted(mask@),
{
    let gray = image_to_grayscale_mask(mask);
    let g = &gray.data;
    let mut out: Vec<u8> = Vec::new();
    let mut i: usize = 0;
    while i < g.len()
        invariant
            i <= g@.len(),
            out@ == Seq::new(i as nat, |j: int| (255 - g@[j]) as u8),
        decreases g@.len() - i,
    {
        out.push(255 - g[i]);
        i = i + 1;
        assert(out@ =~= Seq::new(i as nat, |j: int| (255 - g@[j]) as u8));
    }
    grayscale_image(mask.width, mask.height, out)
}

/// Cuts a mask at a level (`threshold_mask`): see [`thresholded`]. (The
/// node's fraction `value`, scaled to a byte, is `level`.)
pub fn threshold_mask(mask: &SdImage, level: u8) -> (r: SdImage)
    requires
        fits(mask.width, mask.height, 1),
        readable(mask.data@, mask.channel as int, -1),
    ensures
        r@ == thresholded(mask@, level),
{
    let gray = image_to_grayscale_mask(mask);
    let g = &gray.data;
    let mut out: Vec<u8> = Vec::new();
    let mut i: usize = 0;
    while i < g.len()
        invariant
            i <= g@.len(),
            out@ == Seq::new(
                i as nat,
                |j: int|
                    if g@[j] >= level {
                        255u8
                    } else {
                        0u8
                    },
            ),
        decreases g@.len() - i,
    {
        out.push(
            if g[i] >= level {
                255
            } else {
                0
            },
        );
        i = i + 1;
        assert(out@ =~= Seq::new(
            i as nat,
            |j: int|
                if g@[j] >= level {
                    255u8
                } else {
                    0u8
                },
        ));
    }
    grayscale_image(mask.width, mask.height, out)
}

/// A mask of one value everywhere (`create_solid_mask`). (The node's
/// fraction `value`, scaled to a byte, is `level`.)
pub fn create_solid_mask(width: u32, height: u32, level: u8) -> (r: SdImage)
    requires
        width * height <= u32::MAX,
        fits(width, height, 1),
    ensures
        r@ == (ImageView {
            width,
            height,
            channel: 1,
            data: Seq::new((width * height) as nat, |i: int| level),
        }),
{
    let n = (width * height) as usize;
    let mut data: Vec<u8> = Vec::new();
    let mut i: usize = 0;
    while i < n
        invariant
            i <= n,
            n == width * height,
            data@ == Seq::new(i as nat, |j: int| level),
        decreases n - i,
    {
        data.push(level);
        i = i + 1;
        assert(data@ =~= Seq::new(i as nat, |j: int| level));
    }
    grayscale_image(width, height, data)
}


/// The value a composite gives the pixel at flat index `i` of the
/// destination: the blend of the destination byte with the source byte
/// that lands there (the source placed with its top left corner at
/// `(x, y)`), or the destination byte where no source pixel lands.
pub open spec fn composite_at(
    dg: Seq<u8>,
    w: int,
    sg: Seq<u8>,
    sw: int,
    sh: int,
    x: int,
    y: int,
    blend: Seq<u8>,
    i: int,
) -> u8 {
    let sx = i % w - x;
    let sy = i / w - y;
    if 0 <= sx < sw && 0 <= sy < sh {
        blend[dg[i] * 256 + sg[sy * sw + sx]]
    } else {
        dg[i]
    }
}

/// Some source row lands on a destination row.
pub open spec fn rows_meet(y: int, sh: int, h: int) -> bool {
    sh > 0 && y < h && y + sh > 0
}

/// Some source column lands on a destination column.
pub open spec fn cols_meet(x: int, sw: int, w: int) -> bool {
    sw > 0 && x < w && x + sw > 0
}

/// The inputs on which the composite's `i32` and `u32` arithmetic neither
/// overflows nor wraps: coordinates computed in `i32` and, where pixels
/// meet, flat indices computed in `u32`.
pub open spec fn composite_in_range(w: int, h: int, sw: int, sh: int, x: int, y: int) -> bool {
    &&& sw <= 0x8000_0000 && sh <= 0x8000_0000
    &&& sh > 0 ==> y + sh - 1 <= i32::MAX
    &&& rows_meet(y, sh, h) && sw > 0 ==> x + sw - 1 <= i32::MAX
    &&& rows_meet(y, sh, h) && cols_meet(x, sw, w) ==> w * h <= 0x1_0000_0000 && sw * sh
        <= 0x1_0000_0000
}

/// Composites the luminance mask of `src` onto that of `dest`, the source's
/// top left corner at `(x, y)` (`composite_masks`). Where a source pixel
/// lands, the new byte is `blend[d * 256 + s]` for the destination byte `d`
/// and the source byte `s`: the caller tabulates the operation (multiply,
/// add, subtract, intersect, difference, divide), which the node computes
/// in `f32`.
pub fn composite_masks(dest: &SdImage, src: &SdImage, blend: &Vec<u8>, x: i32, y: i32) -> (r:
    SdImage)
    requires
        fits(dest.width, dest.height, 1),
        fits(src.width, src.height, 1),
        readable(dest.data@, dest.channel as int, -1),
        readable(src.data@, src.channel as int, -1),
        blend@.len() == 65536,
        composite_in_range(
            dest.width as int,
            dest.height as int,
            src.width as int,
            src.height as int,
            x as int,
            y as int,
        ),
    ensures
        r.width == dest.width,
        r.height == dest.height,
        r.channel == 1,
        r.data@.len() == dest.width * dest.height,
        forall|i: int|
            0 <= i < dest.width * dest.height ==> #[trigger] r.data@[i] == composite_at(
                gray_mask(dest@).data,
                dest.width as int,
                gray_mask(src@).data,
                src.width as int,
                src.height as int,
                x as int,
                y as int,
                blend@,
                i,
            ),
{
    let dg = image_to_grayscale_mask(dest);
    let sg = image_to_grayscale_mask(src);
    let ghost dgs = dg.data@;
    let w = dest.width as usize;
    let h = dest.height as usize;
    let sw = src.width as i64;
    let sh = src.height as i64;
    let ghost n: int = w * h;
    assert(dgs.len() == n);
    assert(n <= usize::MAX);
    assert(sg.data@.len() == sw * sh);
    let mut out = dg.data;
    let mut py: usize = 0;
    let mut row: usize = 0;
    while py < h
        invariant
            w == dest.width,
            h == dest.height,
            sw == src.width,
            sh == src.height,
            n == w * h,
            n <= usize::MAX,
            sw <= 0x8000_0000,
            sh <= 0x8000_0000,
            dgs == gray_mask(dest@).data,
            sg.data@ == gray_mask(src@).data,
            sg.data@.len() == sw * sh,
            blend@.len() == 65536,
            out@.len() == n,
            py <= h,
            row == py * w,
            row <= n,
            forall|i: int| 0 <= i < row ==> #[trigger] out@[i] == composite_at(
                dgs, w as int, sg.data@, sw as int, sh as int, x as int, y as int, blend@, i),
            forall|i: int| row <= i < n ==> #[trigger] out@[i] == dgs[i],
        decreases h - py,
    {
        assert(row + w <= n) by (nonlinear_arith)
            requires
                row == py * w,
                py < h,
                n == w * h,
        ;
        let mut px: usize = 0;
        while px < w
            invariant
                w == dest.width,
                h == dest.height,
                sw == src.width,
                sh == src.height,
                n == w * h,
                n <= usize::MAX,
                sw <= 0x8000_0000,
                sh <= 0x8000_0000,
                dgs == gray_mask(dest@).data,
                sg.data@ == gray_mask(src@).data,
                sg.data@.len() == sw * sh,
                blend@.len() == 65536,
                out@.len() == n,
                py < h,
                row == py * w,
                row + w <= n,
                px <= w,
                forall|i: int| 0 <= i < row + px ==> #[trigger] out@[i] == composite_at(
                    dgs, w as int, sg.data@, sw as int, sh as int, x as int, y as int, blend@, i),
                forall|i: int| row + px <= i < n ==> #[trigger] out@[i] == dgs[i],
            decreases w - px,
        {
            let idx = row + px;
            proof {
                vstd::arithmetic::div_mod::lemma_fundamental_div_mod_converse_mod(
                    idx as int,
                    w as int,
                    py as int,
                    px as int,
                );
                vstd::arithmetic::div_mod::lemma_fundamental_div_mod_converse_div(
                    idx as int,
                    w as int,
                    py as int,
                    px as int,
                );
            }
            let sx: i64 = px as i64 - x as i64;
            let sy: i64 = py as i64 - y as i64;
            if 0 <= sx && sx < sw && 0 <= sy && sy < sh {
                proof {
                    assert(sy * sw + sx < sw * sh) by (nonlinear_arith)
                        requires
                            0 <= sx < sw,
                            0 <= sy < sh,
                    ;
                    assert(0 <= sy * sw <= 0x4000_0000_0000_0000) by (nonlinear_arith)
                        requires
                            0 <= sx < sw <= 0x8000_0000,
                            0 <= sy < sh <= 0x8000_0000,
                    ;
                }
                let s = sg.data[(sy * sw + sx) as usize];
                let d = out[idx];
                let v = blend[d as usize * 256 + s as usize];
                out.set(idx, v);
            }
            px = px + 1;
        }
        py = py + 1;
        assert(py * w == row + w) by (nonlinear_arith)
            requires
                row == (py - 1) * w,
        ;
        row = row + w;
    }
    assert(row == n) by (nonlinear_arith)
        requires
            row == py * w,
            py == h,
            n == w * h,
    ;
    SdImage { width: dest.width, height: dest.height, channel: 1, data: out }
}


// ---------------------------------------------------------------- laws

/// A grayscale mask: one byte per pixel.
pub open spec fn is_gray_mask(m: ImageView) -> bool {
    m.channel == 1 && m.data.len() == m.width * m.height
}

/// Law: the luminance mask of a grayscale mask is the mask itself.
pub proof fn lemma_gray_mask_of_mask(m: ImageView)
    requires
        is_gray_mask(m),
    ensures
        gray_mask(m) == m,
{
}

/// Law: inverting a grayscale mask twice gives it back.
pub proof fn lemma_invert_involution(m: ImageView)
    requires
        is_gray_mask(m),
    ensures
        inverted(inverted(m)) == m,
{
    let once = inverted(m);
    assert(is_gray_mask(once));
    let twice = inverted(once);
    assert(twice.data =~= m.data);
}

/// Law: expanding a grayscale mask to RGB and taking the luminance gives
/// the mask back (the luminance of a gray pixel is its gray level).
pub proof fn lemma_rgb_round_trip(m: ImageView)
    requires
        is_gray_mask(m),
    ensures
        gray_mask(as_rgb(m)) == m,
{
    let n = m.data.len() as int;
    let d = m.data;
    let rgb = as_rgb(m);
    assert(gray_mask(m) == m);
    assert(rgb.data.len() == m.width * m.height * 3) by (nonlinear_arith)
        requires
            rgb.data.len() == 3 * n,
            n == m.width * m.height,
    ;
    assert(rgb.channel == 3);
    assert(chunk_count(3 * n, 3) == n);
    let g = gray_pixels(rgb.data, 3, -1);
    assert forall|k: int| 0 <= k < n implies #[trigger] g[k] == d[k] by {
        assert((k * 3) / 3 == k && (k * 3 + 1) / 3 == k && (k * 3 + 2) / 3 == k) by (nonlinear_arith)
            requires
                0 <= k,
        ;
        assert(0 <= k * 3 && k * 3 + 2 < 3 * n) by (nonlinear_arith)
            requires
                0 <= k < n,
        ;
        let v = d[k];
        assert(luma(v, v, v) == v) by (nonlinear_arith);
    }
    assert(g =~= d);
}

/// Law: a thresholded mask holds only the bytes 0 and 255.
pub proof fn lemma_threshold_is_binary(m: ImageView, level: u8)
    ensures
        forall|i: int|
            0 <= i < thresholded(m, level).data.len() ==> #[trigger] thresholded(m, level).data[i]
                == 0 || thresholded(m, level).data[i] == 255,
{
}

/// Law: where a source pixel lands, the composite blends with the
/// destination byte as the first operand and the source byte as the
/// second: the new byte is `blend[d * 256 + s]` for the destination byte
/// `d` at that place and the source byte `s` that lands on it. So with the
/// subtraction table (`blend[d * 256 + s]` is `d - s`, or 0 where `s > d`)
/// the source is taken from the destination.
pub proof fn lemma_composite_destination_first(
    dg: Seq<u8>,
    w: int,
    sg: Seq<u8>,
    sw: int,
    sh: int,
    x: int,
    y: int,
    blend: Seq<u8>,
    px: int,
    py: int,
)
    requires
        w > 0,
        0 <= px < sw,
        0 <= py < sh,
        0 <= x + px < w,
        0 <= y + py,
    ensures
        ({
            let i = (y + py) * w + (x + px);
            let d = dg[i] as int;
            let s = sg[py * sw + px] as int;
            &&& composite_at(dg, w, sg, sw, sh, x, y, blend, i) == blend[d * 256 + s]
            &&& (forall|a: int, b: int|
                0 <= a < 256 && 0 <= b < 256 ==> #[trigger] blend[a * 256 + b] == if a >= b {
                    a - b
                } else {
                    0
                }) ==> composite_at(dg, w, sg, sw, sh, x, y, blend, i) == if d >= s {
                d - s
            } else {
                0
            }
        }),
{
    let i = (y + py) * w + (x + px);
    assert(i % w == x + px && i / w == y + py) by {
        vstd::arithmetic::div_mod::lemma_fundamental_div_mod_converse(i, w, y + py, x + px);
    }
}

/// Law: compositing leaves every destination pixel that no source pixel
/// lands on as it was.
pub proof fn lemma_composite_outside_unchanged(
    dg: Seq<u8>,
    w: int,
    sg: Seq<u8>,
    sw: int,
    sh: int,
    x: int,
    y: int,
    blend: Seq<u8>,
    i: int,
)
    requires
        !(0 <= i % w - x < sw && 0 <= i / w - y < sh),
    ensures
        composite_at(dg, w, sg, sw, sh, x, y, blend, i) == dg[i],
{
}

} // verus!
