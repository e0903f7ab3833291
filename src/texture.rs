use vstd::prelude::*;

verus! {

/// The GPU formats textures are uploaded in.
#[derive(Clone, Copy, Debug, PartialEq, Eq, Structural)]
pub enum TextureFormat {
    R8G8B8A8Unorm,
    R32G32B32A32Sfloat,
}

/// Pixel layouts of decoded source images.
#[derive(Clone, Copy, Debug, PartialEq, Eq, Structural)]
pub enum SourcePixelFormat {
    R8G8B8A8,
    R8G8B8,
    /// Any other layout; such textures are not supported and are skipped.
    Other,
}

pub open spec fn bytes_per_pixel_spec(f: TextureFormat) -> nat {
    match f {
        TextureFormat::R8G8B8A8Unorm => 4,
        TextureFormat::R32G32B32A32Sfloat => 16,
    }
}

/// Bytes of one texel of `f`.
pub fn bytes_per_pixel(f: TextureFormat) -> (r: usize)
    ensures
        r == bytes_per_pixel_spec(f),
{
    match f {
        TextureFormat::R8G8B8A8Unorm => 4,
        TextureFormat::R32G32B32A32Sfloat => 16,
    }
}

/// Whether `len` bytes are exactly a `width` by `height` image of `f`;
/// an upload of any other length is refused.
pub fn texture_bytes_match(f: TextureFormat, len: usize, width: u32, height: u32) -> (r: bool)
    ensures
        r == (len == width as int * height as int * bytes_per_pixel_spec(f)),
{
    let bpp = bytes_per_pixel(f) as u128;
    let w = width as u128;
    let h = height as u128;
    assert(w * h <= 0xffff_ffff * 0xffff_ffff) by (nonlinear_arith)
        requires w <= 0xffff_ffff, h <= 0xffff_ffff;
    assert(w * h * bpp <= 0xffff_ffff * 0xffff_ffff * 16) by (nonlinear_arith)
        requires w * h <= 0xffff_ffff * 0xffff_ffff, bpp <= 16;
    let expected: u128 = w * h * bpp;
    len as u128 == expected
}

/// Byte `c` of pixel `p` once each source pixel of `src_bpp` bytes is padded
/// to four: source bytes are kept, a missing alpha is opaque (255) and a
/// missing color channel is 0.
pub open spec fn padded_byte(bytes: Seq<u8>, src_bpp: int, p: int, c: int) -> u8 {
    if c < src_bpp {
        bytes[p * src_bpp + c]
    } else if c == 3 {
        255
    } else {
        0
    }
}

/// Widens `width * height` pixels of `src_bytes_per_pixel` bytes each to
/// four bytes per pixel (RGBA).
pub fn padd_pixel_bytes_rgba_unorm(bytes: &[u8], src_bytes_per_pixel: u32, width: usize, height: usize) -> (r: Vec<u8>)
    requires
        width * height * 4 <= usize::MAX,
        width * height * src_bytes_per_pixel <= bytes@.len(),
    ensures
        r@.len() == width * height * 4,
        forall|k: int| 0 <= k < r@.len() ==> #[trigger] r@[k] == padded_byte(
            bytes@, src_bytes_per_pixel as int, k / 4, k % 4),
{
    let ghost src = src_bytes_per_pixel as int;
    let n: usize = width * height;
    let blen = bytes.len();
    let mut out: Vec<u8> = Vec::new();
    let mut p: usize = 0;
    while p < n
        invariant
            n == width * height,
            n * 4 <= usize::MAX,
            n * src <= bytes@.len(),
            bytes@.len() <= usize::MAX,
            src == src_bytes_per_pixel,
            p <= n,
            out@.len() == p * 4,
            forall|k: int| 0 <= k < out@.len() ==> #[trigger] out@[k] == padded_byte(bytes@, src, k / 4, k % 4),
        decreases n - p,
    {
        let mut c: u32 = 0;
        while c < 4
            invariant
                n * 4 <= usize::MAX,
                n * src <= bytes@.len(),
                bytes@.len() <= usize::MAX,
                src == src_bytes_per_pixel,
                p < n,
                c <= 4,
                out@.len() == p * 4 + c,
                forall|k: int| 0 <= k < out@.len() ==> #[trigger] out@[k] == padded_byte(bytes@, src, k / 4, k % 4),
            decreases 4 - c,
        {
            let ghost k = p * 4 + c;
            assert(k / 4 == p && k % 4 == c) by (nonlinear_arith)
                requires k == p * 4 + c, c < 4;
            if c < src_bytes_per_pixel {
                assert(p * src + c < n * src) by (nonlinear_arith)
                    requires p < n, c < src, src >= 0;
                assert(p * src >= 0) by (nonlinear_arith)
                    requires p >= 0, src >= 0;
                let idx: usize = p * (src_bytes_per_pixel as usize) + c as usize;
                out.push(bytes[idx]);
            } else if c == 3 {
                out.push(255u8);
            } else {
                out.push(0u8);
            }
            c = c + 1;
        }
        p = p + 1;
    }
    out
}

/// The bytes and format a decoded source image is uploaded with: four-byte
/// pixels as they are, three-byte pixels padded to four; other layouts are
/// not supported (`None`).
pub fn texture_upload_bytes(
    format: SourcePixelFormat,
    pixels: Vec<u8>,
    width: u32,
    height: u32,
) -> (r: Option<(Vec<u8>, TextureFormat)>)
    requires
        format == SourcePixelFormat::R8G8B8 ==> width * height * 4 <= usize::MAX
            && width * height * 3 <= pixels@.len(),
    ensures
        r is None <==> format == SourcePixelFormat::Other,
        format == SourcePixelFormat::R8G8B8A8 ==> r == Some((pixels, TextureFormat::R8G8B8A8Unorm)),
        format == SourcePixelFormat::R8G8B8 ==> (r matches Some((b, f)) && f
            == TextureFormat::R8G8B8A8Unorm && b@.len() == width * height * 4 && forall|k: int|
            0 <= k < b@.len() ==> #[trigger] b@[k] == padded_byte(pixels@, 3, k / 4, k % 4)),
{
    match format {
        SourcePixelFormat::R8G8B8A8 => Some((pixels, TextureFormat::R8G8B8A8Unorm)),
        SourcePixelFormat::R8G8B8 => {
            let padded = padd_pixel_bytes_rgba_unorm(pixels.as_slice(), 3, width as usize, height as usize);
            Some((padded, TextureFormat::R8G8B8A8Unorm))
        },
        SourcePixelFormat::Other => None,
    }
}

} // verus!
