//! Turning the samples of a rendered pixmap into RGBA bytes.

use vstd::prelude::*;
use vstd::slice::*;

verus! {

/// One byte of the pixel whose samples begin at `at`, for a pixmap with `n`
/// samples to the pixel. Four samples are red, green, blue and alpha; three
/// are red, green and blue of an opaque pixel; any other number gives an
/// opaque grey of the first sample. A pixel whose samples are not all there
/// stays blank.
pub open spec fn pixel_byte(samples: Seq<u8>, at: int, n: int, channel: int) -> u8 {
    if at + n > samples.len() {
        0
    } else if n == 4 {
        samples[at + channel]
    } else if channel == 3 {
        255
    } else if n == 3 {
        samples[at + channel]
    } else {
        samples[at]
    }
}

/// Byte `k` of the RGBA image made of a pixmap's samples.
pub open spec fn rgba_byte(samples: Seq<u8>, n: int, k: int) -> u8 {
    pixel_byte(samples, (k / 4) * n, n, k % 4)
}

/// Raw pixels of a decoded image: four bytes to the pixel, row by row.
#[derive(Debug)]
pub struct CachedImageData {
    pub data: Vec<u8>,
    pub width: u32,
    pub height: u32,
}

impl CachedImageData {
    pub fn new(data: Vec<u8>, width: u32, height: u32) -> (image: CachedImageData)
        ensures
            image == (CachedImageData { data, width, height }),
    {
        CachedImageData { data, width, height }
    }
}

/// Makes the RGBA image of `width` by `height` pixels out of the samples of
/// a pixmap that holds `n` samples to the pixel.
pub fn samples_to_rgba(samples: &[u8], width: u32, height: u32, n: usize) -> (image: CachedImageData)
    requires
        4 * (width as int) * (height as int) <= usize::MAX,
        n >= 1 || samples@.len() >= 1,
    ensures
        image.width == width,
        image.height == height,
        image.data@.len() == 4 * (width as int) * (height as int),
        forall|k: int|
            0 <= k < image.data@.len() ==> #[trigger] image.data@[k] == rgba_byte(
                samples@,
                n as int,
                k,
            ),
{
    proof {
        assert(0 <= (width as int) * (height as int)) by (nonlinear_arith)
            requires
                0 <= width as int,
                0 <= height as int,
        ;
        assert(4 * (width as int) * (height as int) == 4 * ((width as int) * (height as int)))
            by (nonlinear_arith);
    }
    let count: usize = (width as usize) * (height as usize);
    let total = samples.len();
    let mut data: Vec<u8> = Vec::new();
    let mut p: usize = 0;
    while p < count
        invariant
            p <= count,
            4 * count <= usize::MAX,
            total == samples@.len(),
            n >= 1 || total >= 1,
            data@.len() == 4 * p,
            forall|k: int|
                0 <= k < data@.len() ==> #[trigger] data@[k] == rgba_byte(samples@, n as int, k),
        decreases count - p,
    {
        proof {
            assert(0 <= p as int * n as int <= 0xFFFF_FFFF_FFFF_FFFF * 0xFFFF_FFFF_FFFF_FFFF)
                by (nonlinear_arith)
                requires
                    0 <= p as int <= 0xFFFF_FFFF_FFFF_FFFF,
                    0 <= n as int <= 0xFFFF_FFFF_FFFF_FFFF,
            ;
        }
        let at: u128 = (p as u128) * (n as u128);
        let ghost before = data@;
        if at + n as u128 <= total as u128 {
            let at: usize = at as usize;
            if n == 4 {
                data.push(samples[at]);
                data.push(samples[at + 1]);
                data.push(samples[at + 2]);
                data.push(samples[at + 3]);
            } else if n == 3 {
                data.push(samples[at]);
                data.push(samples[at + 1]);
                data.push(samples[at + 2]);
                data.push(255);
            } else {
                data.push(samples[at]);
                data.push(samples[at]);
                data.push(samples[at]);
                data.push(255);
            }
        } else {
            data.push(0);
            data.push(0);
            data.push(0);
            data.push(0);
        }
        proof {
            assert forall|k: int| 0 <= k < data@.len() implies #[trigger] data@[k] == rgba_byte(
                samples@,
                n as int,
                k,
            ) by {
                if k < before.len() {
                    assert(data@[k] == before[k]);
                } else {
                    assert(k / 4 == p as int);
                    assert(k % 4 == k - 4 * p);
                }
            }
        }
        p += 1;
    }
    proof {
        assert(4 * (width as int) * (height as int) == 4 * ((width as int) * (height as int)))
            by (nonlinear_arith);
    }
    CachedImageData { data, width, height }
}

} // verus!
