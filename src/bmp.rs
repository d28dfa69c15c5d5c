//! The uncompressed 24-bit bitmap container in which images are returned.
use vstd::prelude::*;

verus! {

/// Size of the file header plus the info header.
pub const HEADER_SIZE: u32 = 54;

/// Size of the info header.
pub const INFO_HEADER_SIZE: u32 = 40;

/// Resolution written into both resolution fields, in pixels per metre.
pub const PIXELS_PER_METRE: u32 = 2835;

/// Side of the images that the decoder renders.
pub const DECODE_SIZE: u32 = 64;

/// Little-endian bytes of a 32-bit value.
pub open spec fn le32(v: u32) -> Seq<u8> {
    seq![
        (v % 256) as u8,
        ((v / 256) % 256) as u8,
        ((v / 65536) % 256) as u8,
        (v / 16777216) as u8,
    ]
}

/// Little-endian bytes of a 16-bit value.
pub open spec fn le16(v: u16) -> Seq<u8> {
    seq![(v % 256) as u8, (v / 256) as u8]
}

/// Bytes of one stored pixel row: three per pixel, padded to a multiple of four.
pub open spec fn row_stride(w: nat) -> nat {
    (3 * w + (4 - (3 * w) % 4) % 4) as nat
}

/// Bytes of pixel data.
pub open spec fn image_size(w: nat, h: nat) -> nat {
    row_stride(w) * h
}

/// The 54 header bytes of a `w` by `h` image.
pub open spec fn bmp_header(w: u32, h: u32) -> Seq<u8> {
    let img = image_size(w as nat, h as nat);
    seq![0x42u8, 0x4Du8] + le32((HEADER_SIZE + img) as u32) + le32(0) + le32(HEADER_SIZE)
        + le32(INFO_HEADER_SIZE) + le32(w) + le32(h) + le16(1) + le16(24) + le32(0)
        + le32(img as u32) + le32(PIXELS_PER_METRE) + le32(PIXELS_PER_METRE) + le32(0) + le32(0)
}

/// Byte `p` of the pixel data. Stored row `k` holds image row `h - 1 - k`;
/// each pixel is stored blue, green, red, taken from `rgb`, which holds the
/// red, green and blue of pixel `(x, y)` at `3 * (y * w + x)`.
pub open spec fn pixel_byte(w: nat, h: nat, rgb: Seq<u8>, p: int) -> u8 {
    let k = p / row_stride(w) as int;
    let o = p % row_stride(w) as int;
    if o >= 3 * w {
        0
    } else {
        let y = h - 1 - k;
        rgb[3 * (y * w + o / 3) + (2 - o % 3)]
    }
}

/// Whether `r` is the bitmap of a `w` by `h` image with colours `rgb`.
pub open spec fn is_bitmap(r: Seq<u8>, w: u32, h: u32, rgb: Seq<u8>) -> bool {
    &&& r.len() == HEADER_SIZE + image_size(w as nat, h as nat)
    &&& r.subrange(0, HEADER_SIZE as int) == bmp_header(w, h)
    &&& forall|i: int|
        HEADER_SIZE <= i < r.len() ==> r[i] == pixel_byte(
            w as nat,
            h as nat,
            rgb,
            i - HEADER_SIZE,
        )
}

/// The bitmap of an image is unique: equal dimensions and colours give
/// byte-identical files.
pub proof fn lemma_bitmap_unique(a: Seq<u8>, b: Seq<u8>, w: u32, h: u32, rgb: Seq<u8>)
    requires
        is_bitmap(a, w, h, rgb),
        is_bitmap(b, w, h, rgb),
    ensures
        a == b,
{
    assert forall|i: int| 0 <= i < a.len() implies a[i] == b[i] by {
        if i < HEADER_SIZE {
            assert(a[i] == a.subrange(0, HEADER_SIZE as int)[i]);
            assert(b[i] == b.subrange(0, HEADER_SIZE as int)[i]);
        }
    }
    assert(a =~= b);
}

fn push_le32(out: &mut Vec<u8>, v: u32)
    ensures
        final(out)@ == old(out)@ + le32(v),
{
    out.push((v % 256) as u8);
    out.push(((v / 256) % 256) as u8);
    out.push(((v / 65536) % 256) as u8);
    out.push((v / 16777216) as u8);
    assert(final(out)@ =~= old(out)@ + le32(v));
}

fn push_le16(out: &mut Vec<u8>, v: u16)
    ensures
        final(out)@ == old(out)@ + le16(v),
{
    out.push((v % 256) as u8);
    out.push((v / 256) as u8);
    assert(final(out)@ =~= old(out)@ + le16(v));
}

/// Renders latent vectors as bitmaps.
#[derive(Clone, Copy)]
pub struct VAEDecoder {
    latent_channels: usize,
}

impl VAEDecoder {
    pub closed spec fn wf(&self) -> bool {
        self.latent_channels == 4
    }

    pub fn new() -> (r: Self)
        ensures
            r.wf(),
    {
        VAEDecoder { latent_channels: 4 }
    }

    /// Index of the latent value that colours pixel `(x, y)`.
    pub fn latent_index(&self, x: u32, y: u32, width: u32, len: usize) -> (r: usize)
        requires
            len > 0,
        ensures
            r as int == (x as int + y as int * width as int) % len as int,
    {
        assert((y as int) * (width as int) <= 0xFFFF_FFFFint * 0xFFFF_FFFFint) by (nonlinear_arith)
            requires
                y <= 0xFFFF_FFFFu32,
                width <= 0xFFFF_FFFFu32,
        ;
        let pos: u64 = x as u64 + (y as u64) * (width as u64);
        (pos % (len as u64)) as usize
    }

    /// Writes the bitmap of a `width` by `height` image whose pixel `(x, y)`
    /// has red, green and blue at `3 * (y * width + x)` of `rgb`.
    pub fn create_bmp(&self, width: u32, height: u32, rgb: &Vec<u8>) -> (r: Vec<u8>)
        requires
            rgb@.len() == 3 * width * height,
            3 * width + 3 <= u32::MAX,
            HEADER_SIZE + image_size(width as nat, height as nat) <= u32::MAX,
        ensures
            is_bitmap(r@, width, height, rgb@),
    {
        let w = Ghost(width as nat);
        let h = Ghost(height as nat);
        proof {
            assert(row_stride(w@) * h@ >= 3 * w@ * h@ || h@ == 0) by (nonlinear_arith)
                requires
                    row_stride(w@) >= 3 * w@,
            ;
            assert(h@ == 0 ==> rgb@.len() == 0) by (nonlinear_arith)
                requires
                    rgb@.len() == 3 * w@ * h@,
            ;
        }
        let stride: u32 = 3 * width + (4 - (3 * width) % 4) % 4;
        let img: u32 = stride * height;
        let mut out: Vec<u8> = Vec::new();
        out.push(0x42u8);
        out.push(0x4Du8);
        push_le32(&mut out, HEADER_SIZE + img);
        push_le32(&mut out, 0);
        push_le32(&mut out, HEADER_SIZE);
        push_le32(&mut out, INFO_HEADER_SIZE);
        push_le32(&mut out, width);
        push_le32(&mut out, height);
        push_le16(&mut out, 1);
        push_le16(&mut out, 24);
        push_le32(&mut out, 0);
        push_le32(&mut out, img);
        push_le32(&mut out, PIXELS_PER_METRE);
        push_le32(&mut out, PIXELS_PER_METRE);
        push_le32(&mut out, 0);
        push_le32(&mut out, 0);
        assert(out@ =~= bmp_header(width, height));
        let ghost header = out@;
        let mut k: u32 = 0;
        while k < height
            invariant
                stride as nat == row_stride(w@),
                w@ == width,
                h@ == height,
                rgb@.len() == 3 * w@ * h@,
                img == stride * height,
                HEADER_SIZE + img <= u32::MAX,
                0 <= k <= height,
                header == bmp_header(width, height),
                header.len() == HEADER_SIZE,
                out@.len() == HEADER_SIZE + stride * k,
                out@.subrange(0, HEADER_SIZE as int) == header,
                forall|i: int|
                    HEADER_SIZE <= i < out@.len() ==> out@[i] == pixel_byte(
                        w@,
                        h@,
                        rgb@,
                        i - HEADER_SIZE,
                    ),
            decreases height - k,
        {
            let y: u32 = height - 1 - k;
            let mut o: u32 = 0;
            proof {
                assert(stride * k + stride <= stride * height) by (nonlinear_arith)
                    requires
                        k < height,
                ;
                assert((y as int) * (w@ as int) + w@ <= rgb@.len() / 3) by (nonlinear_arith)
                    requires
                        y < h@,
                        rgb@.len() == 3 * w@ * h@,
                ;
            }
            while o < stride
                invariant
                    stride as nat == row_stride(w@),
                    w@ == width,
                    h@ == height,
                    rgb@.len() == 3 * w@ * h@,
                    (y as int) * (w@ as int) + w@ <= rgb@.len() / 3,
                    k < height,
                    y == height - 1 - k,
                    stride * k + stride <= stride * height,
                    HEADER_SIZE + stride * height <= u32::MAX,
                    0 <= o <= stride,
                    header.len() == HEADER_SIZE,
                    out@.len() == HEADER_SIZE + stride * k + o,
                    out@.subrange(0, HEADER_SIZE as int) == header,
                    forall|i: int|
                        HEADER_SIZE <= i < out@.len() ==> out@[i] == pixel_byte(
                            w@,
                            h@,
                            rgb@,
                            i - HEADER_SIZE,
                        ),
                decreases stride - o,
            {
                let ghost p = (stride * k + o) as int;
                proof {
                    vstd::arithmetic::mul::lemma_mul_is_commutative(stride as int, k as int);
                    vstd::arithmetic::div_mod::lemma_fundamental_div_mod_converse(
                        p,
                        stride as int,
                        k as int,
                        o as int,
                    );
                }
                let b: u8 = if o >= 3 * width {
                    0
                } else {
                    let x: u32 = o / 3;
                    let c: u32 = o % 3;
                    proof {
                        assert(3 * ((y as int) * (width as int) + (x as int)) + 2 < rgb@.len())
                            by (nonlinear_arith)
                            requires
                                w@ == width,
                                x < w@,
                                (y as int) * (w@ as int) + w@ <= rgb@.len() / 3,
                        ;
                    }
                    assert(rgb@.len() == rgb.len());
                    let yu: usize = y as usize;
                    let wu: usize = width as usize;
                    assert(yu as int * wu as int == (y as int) * (width as int));
                    let row: usize = yu * wu;
                    let base: usize = 3 * (row + x as usize);
                    rgb[base + (2 - c) as usize]
                };
                out.push(b);
                proof {
                    assert(out@.subrange(0, HEADER_SIZE as int) =~= header);
                }
                o = o + 1;
            }
            proof {
                assert(stride * (k + 1) == stride * k + stride) by (nonlinear_arith);
            }
            k = k + 1;
        }
        proof {
            assert(stride * k == image_size(w@, h@));
        }
        out
    }
}

} // verus!
