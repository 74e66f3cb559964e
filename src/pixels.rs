use vstd::prelude::*;

use image::ImageEncoder;

use crate::error::MakuError;

verus! {

/// One 8-bit channel of `top`, whose alpha is `alpha`, laid over the same
/// channel of `bottom` with straight alpha ("over"), rounded to nearest:
/// `top * a + bottom * (1 - a)` with `a = alpha / 255`.
pub open spec fn over_channel(bottom: u8, top: u8, alpha: u8) -> int {
    (top * alpha + bottom * (255 - alpha) + 127) / 255
}

/// The RGBA8 buffer `top` laid over the RGBA8 buffer `bottom`, texel by texel:
/// each of the four channels (alpha included) is mixed by the top texel's alpha.
pub open spec fn over(bottom: Seq<u8>, top: Seq<u8>) -> Seq<u8> {
    Seq::new(
        bottom.len(),
        |i: int| over_channel(bottom[i], top[i], top[i - i % 4 + 3]) as u8,
    )
}

/// Every texel of the RGBA8 buffer `b` has alpha 0.
pub open spec fn fully_transparent(b: Seq<u8>) -> bool {
    forall|t: int| 0 <= t < b.len() / 4 ==> #[trigger] b[4 * t + 3] == 0
}

proof fn lemma_over_channel_bounds(bottom: u8, top: u8, alpha: u8)
    ensures
        0 <= over_channel(bottom, top, alpha) <= 255,
        alpha == 0 ==> over_channel(bottom, top, alpha) == bottom,
        alpha == 255 ==> over_channel(bottom, top, alpha) == top,
{
    let t = top as int;
    let b = bottom as int;
    let a = alpha as int;
    assert(0 <= t * a + b * (255 - a) <= 255 * 255) by (nonlinear_arith)
        requires
            0 <= t <= 255,
            0 <= b <= 255,
            0 <= a <= 255,
    ;
    assert(t * a + b * (255 - a) + 127 < 256 * 255);
    if a == 0 {
        assert(t * a + b * (255 - a) == b * 255) by (nonlinear_arith)
            requires
                a == 0,
        ;
    }
    if a == 255 {
        assert(t * a + b * (255 - a) == t * 255) by (nonlinear_arith)
            requires
                a == 255,
        ;
    }
}

/// Laying a fully transparent buffer over a canvas leaves the canvas as it is.
pub proof fn lemma_transparent_over_keeps_canvas(bottom: Seq<u8>, top: Seq<u8>)
    requires
        bottom.len() == top.len(),
        bottom.len() % 4 == 0,
        fully_transparent(top),
    ensures
        over(bottom, top) == bottom,
{
    assert forall|i: int| 0 <= i < bottom.len() implies #[trigger] over(bottom, top)[i] == bottom[i] by {
        let t = i / 4;
        assert(i - i % 4 + 3 == 4 * t + 3);
        assert(0 <= t < top.len() / 4);
        assert(top[4 * t + 3] == 0);
        lemma_over_channel_bounds(bottom[i], top[i], top[i - i % 4 + 3]);
    };
    assert(over(bottom, top) =~= bottom);
}

/// The fully transparent RGBA8 buffer of `len` bytes.
pub open spec fn blank(len: nat) -> Seq<u8> {
    Seq::new(len, |i: int| 0u8)
}

/// Every texel of the RGBA8 buffer `b` is fully opaque or fully transparent.
pub open spec fn alpha_is_binary(b: Seq<u8>) -> bool {
    forall|t: int| 0 <= t < b.len() / 4 ==> #[trigger] b[4 * t + 3] == 0 || b[4 * t + 3] == 255
}

proof fn lemma_over_blank_then_over_at(bottom: Seq<u8>, top: Seq<u8>, i: int)
    requires
        bottom.len() == top.len(),
        bottom.len() % 4 == 0,
        alpha_is_binary(top),
        0 <= i < bottom.len(),
    ensures
        over(bottom, over(blank(top.len()), top))[i] == over(bottom, top)[i],
{
    let mid = over(blank(top.len()), top);
    let t = i / 4;
    let k = i - i % 4 + 3;
    assert(k == 4 * t + 3);
    assert(0 <= t < top.len() / 4);
    assert(k - k % 4 + 3 == k);
    let a = top[k];
    assert(a == 0 || a == 255);
    assert(blank(top.len())[i] == 0u8);
    assert(blank(top.len())[k] == 0u8);
    lemma_over_channel_bounds(0u8, top[i], a);
    lemma_over_channel_bounds(0u8, a, a);
    assert(mid[i] == over_channel(0u8, top[i], a) as u8);
    assert(mid[k] == over_channel(0u8, a, a) as u8);
    lemma_over_channel_bounds(bottom[i], top[i], a);
    lemma_over_channel_bounds(bottom[i], mid[i], mid[k]);
}

/// Laying a layer onto a blank canvas, then that canvas over `bottom`, gives
/// the same pixels as laying the layer over `bottom` directly, provided that
/// each texel of the layer is fully opaque or fully transparent.
pub proof fn lemma_over_blank_then_over(bottom: Seq<u8>, top: Seq<u8>)
    requires
        bottom.len() == top.len(),
        bottom.len() % 4 == 0,
        alpha_is_binary(top),
    ensures
        over(bottom, over(blank(top.len()), top)) == over(bottom, top),
{
    assert forall|i: int| 0 <= i < bottom.len() implies #[trigger] over(
        bottom,
        over(blank(top.len()), top),
    )[i] == over(bottom, top)[i] by {
        lemma_over_blank_then_over_at(bottom, top, i);
    };
    assert(over(bottom, over(blank(top.len()), top)) =~= over(bottom, top));
}

/// Lays the RGBA8 buffer `top` over the RGBA8 buffer `bottom` of the same size.
pub fn blend_over(bottom: &Vec<u8>, top: &Vec<u8>) -> (r: Vec<u8>)
    requires
        bottom@.len() == top@.len(),
        bottom@.len() % 4 == 0,
    ensures
        r@ == over(bottom@, top@),
{
    let n = bottom.len();
    let mut r: Vec<u8> = Vec::new();
    let mut i: usize = 0;
    while i < n
        invariant
            n == bottom@.len(),
            n == top@.len(),
            n % 4 == 0,
            0 <= i <= n,
            r@.len() == i,
            forall|j: int| 0 <= j < i ==> #[trigger] r@[j] == over(bottom@, top@)[j],
        decreases n - i,
    {
        let alpha_at = i - i % 4 + 3;
        assert(alpha_at < n);
        let b = bottom[i];
        let t = top[i];
        let a = top[alpha_at];
        proof {
            lemma_over_channel_bounds(b, t, a);
            assert(t as u32 * a as u32 <= 255 * 255) by (nonlinear_arith)
                requires
                    t <= 255,
                    a <= 255,
            ;
            assert(b as u32 * (255 - a as u32) <= 255 * 255) by (nonlinear_arith)
                requires
                    b <= 255,
                    a <= 255,
            ;
        }
        let mixed = (t as u32 * a as u32 + b as u32 * (255 - a as u32) + 127) / 255;
        r.push(mixed as u8);
        i = i + 1;
    }
    assert(r@ =~= over(bottom@, top@));
    r
}

/// A fully transparent RGBA8 buffer of `width × height` texels.
pub fn blank_pixels(width: u32, height: u32) -> (r: Vec<u8>)
    requires
        width * height * 4 <= usize::MAX,
    ensures
        r@.len() == width * height * 4,
        forall|i: int| 0 <= i < r@.len() ==> #[trigger] r@[i] == 0,
{
    let n = width as usize * height as usize * 4;
    let mut r: Vec<u8> = Vec::new();
    let mut i: usize = 0;
    while i < n
        invariant
            0 <= i <= n,
            r@.len() == i,
            forall|j: int| 0 <= j < i ==> #[trigger] r@[j] == 0,
        decreases n - i,
    {
        r.push(0);
        i = i + 1;
    }
    r
}

/// The texels of `texels` laid out one after the other, four bytes each.
pub open spec fn flattened(texels: Seq<[u8; 4]>) -> Seq<u8> {
    Seq::new(4 * texels.len(), |i: int| texels[i / 4]@[i % 4])
}

/// Lays RGBA8 texels, as a render target reads them back, out as one byte buffer.
pub fn flatten_texels(texels: &Vec<[u8; 4]>) -> (r: Vec<u8>)
    requires
        4 * texels@.len() <= usize::MAX,
    ensures
        r@ == flattened(texels@),
{
    let n = texels.len();
    let mut r: Vec<u8> = Vec::new();
    let mut i: usize = 0;
    while i < n
        invariant
            n == texels@.len(),
            4 * n <= usize::MAX,
            0 <= i <= n,
            r@.len() == 4 * i,
            forall|j: int| 0 <= j < 4 * i ==> #[trigger] r@[j] == texels@[j / 4]@[j % 4],
        decreases n - i,
    {
        let texel = texels[i];
        let mut k: usize = 0;
        while k < 4
            invariant
                n == texels@.len(),
                4 * n <= usize::MAX,
                0 <= i < n,
                0 <= k <= 4,
                texel == texels@[i as int],
                r@.len() == 4 * i + k,
                forall|j: int| 0 <= j < 4 * i + k ==> #[trigger] r@[j] == texels@[j / 4]@[j % 4],
            decreases 4 - k,
        {
            r.push(texel[k]);
            proof {
                let j = 4 * i + k;
                assert(j / 4 == i && j % 4 == k);
            }
            k = k + 1;
        }
        i = i + 1;
    }
    assert(r@ =~= flattened(texels@));
    r
}

/// The PNG file that `image` writes for the RGBA8 buffer `pixels` of
/// `width × height` texels.
pub uninterp spec fn png_of(pixels: Seq<u8>, width: u32, height: u32) -> Seq<u8>;

/// Relies on `image::codecs::png::PngEncoder::write_image` with `ColorType::Rgba8`:
/// it panics unless the buffer holds `width * height * 4` bytes, writes an
/// encoding that depends on the pixels and the size alone (fixed compression
/// and filter settings), and, writing into memory, fails only on a zero width
/// or height (the `png` encoder's header check).
#[verifier::external_body]
fn write_png(pixels: &Vec<u8>, width: u32, height: u32) -> (r: Result<Vec<u8>, image::ImageError>)
    requires
        pixels@.len() == width * height * 4,
    ensures
        r matches Ok(b) ==> b@ == png_of(pixels@, width, height),
        width > 0 && height > 0 ==> r is Ok,
{
    let mut out: Vec<u8> = Vec::new();
    let written = image::codecs::png::PngEncoder::new(&mut out).write_image(
        pixels,
        width,
        height,
        image::ColorType::Rgba8,
    );
    written.map(|()| out)
}

/// Encodes the RGBA8 buffer `pixels` of `width × height` texels as a PNG file.
/// It succeeds on every buffer of the right length with at least one texel.
pub fn encode_png(pixels: &Vec<u8>, width: u32, height: u32) -> (r: Result<Vec<u8>, MakuError>)
    ensures
        pixels@.len() != width * height * 4 ==> r matches Err(MakuError::BufferSize),
        pixels@.len() == width * height * 4 ==> match r {
            Ok(b) => b@ == png_of(pixels@, width, height),
            Err(e) => e is Image,
        },
        pixels@.len() == width * height * 4 && width > 0 && height > 0 ==> r is Ok,
{
    assert(width as u128 * height as u128 <= 0xffff_ffff * 0xffff_ffff) by (nonlinear_arith)
        requires
            width <= 0xffff_ffff,
            height <= 0xffff_ffff,
    ;
    let expected: u128 = width as u128 * height as u128 * 4;
    if pixels.len() as u128 != expected {
        return Err(MakuError::BufferSize);
    }
    match write_png(pixels, width, height) {
        Ok(b) => Ok(b),
        Err(e) => Err(MakuError::Image(e)),
    }
}

} // verus!
