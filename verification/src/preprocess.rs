//! The pixel rules of the ControlNet preprocessors that work on bytes
//! alone: thresholding a luminance image, inverting, and binarizing at the
//! mean. (Edge detection and blurring are the imaging library's.)

use vstd::prelude::*;

verus! {

/// Threshold rule: 255 where a byte is above `level` (below it, when
/// `invert`), 0 elsewhere.
pub open spec fn threshold_byte(v: u8, level: u8, invert: bool) -> u8 {
    if invert {
        if v < level {
            255
        } else {
            0
        }
    } else {
        if v > level {
            255
        } else {
            0
        }
    }
}

/// The threshold preprocessor on the bytes of a luminance image (the
/// node's threshold fraction, scaled to a byte, is `level`).
pub fn threshold_preprocess(gray: &Vec<u8>, level: u8, invert: bool) -> (r: Vec<u8>)
    ensures
        r@ == Seq::new(gray@.len(), |i: int| threshold_byte(gray@[i], level, invert)),
{
    let mut out: Vec<u8> = Vec::new();
    let mut i: usize = 0;
    while i < gray.len()
        invariant
            i <= gray@.len(),
            out@ == Seq::new(i as nat, |j: int| threshold_byte(gray@[j], level, invert)),
        decreases gray@.len() - i,
    {
        let v = gray[i];
        let o: u8 = if invert {
            if v < level {
                255
            } else {
                0
            }
        } else {
            if v > level {
                255
            } else {
                0
            }
        };
        out.push(o);
        i = i + 1;
        assert(out@ =~= Seq::new(i as nat, |j: int| threshold_byte(gray@[j], level, invert)));
    }
    out
}

/// The invert preprocessor on the bytes of an RGB image: every byte `b`
/// becomes `255 - b`.
pub fn invert_preprocess(rgb: &Vec<u8>) -> (r: Vec<u8>)
    ensures
        r@ == Seq::new(rgb@.len(), |i: int| (255 - rgb@[i]) as u8),
{
    let mut out: Vec<u8> = Vec::new();
    let mut i: usize = 0;
    while i < rgb.len()
        invariant
            i <= rgb@.len(),
            out@ == Seq::new(i as nat, |j: int| (255 - rgb@[j]) as u8),
        decreases rgb@.len() - i,
    {
        out.push(255 - rgb[i]);
        i = i + 1;
        assert(out@ =~= Seq::new(i as nat, |j: int| (255 - rgb@[j]) as u8));
    }
    out
}

/// Sum of the bytes.
pub open spec fn byte_sum(s: Seq<u8>) -> nat
    decreases s.len(),
{
    if s.len() == 0 {
        0
    } else {
        byte_sum(s.drop_last()) + (s.last() as nat)
    }
}

/// The mean of the bytes, rounded down (0 for none).
pub open spec fn byte_mean(s: Seq<u8>) -> nat {
    if s.len() == 0 {
        0
    } else {
        byte_sum(s) / s.len()
    }
}

/// The last step of the HED preprocessor: 255 where a byte is above the
/// mean of all bytes (rounded down), 0 elsewhere.
pub fn binarize_above_mean(gray: &Vec<u8>) -> (r: Vec<u8>)
    ensures
        r@ == Seq::new(gray@.len(), |i: int| if gray@[i] > byte_mean(gray@) { 255u8 } else { 0u8 }),
{
    let n = gray.len();
    let mut sum: u128 = 0;
    let mut i: usize = 0;
    assert(gray@.subrange(0, 0) =~= Seq::<u8>::empty());
    while i < n
        invariant
            n == gray@.len(),
            i <= n,
            sum == byte_sum(gray@.subrange(0, i as int)),
            sum <= 255 * i,
        decreases n - i,
    {
        assert(gray@.subrange(0, i + 1).drop_last() =~= gray@.subrange(0, i as int));
        sum = sum + gray[i] as u128;
        i = i + 1;
    }
    assert(gray@.subrange(0, n as int) =~= gray@);
    let count: u128 = if n == 0 {
        1
    } else {
        n as u128
    };
    let m = sum / count;
    proof {
        assert(m <= 255) by (nonlinear_arith)
            requires
                m == sum / count,
                sum <= 255 * count || sum == 0,
                count >= 1,
        ;
    }
    let mean = m as u8;
    assert(mean as nat == byte_mean(gray@));
    let mut out: Vec<u8> = Vec::new();
    let mut j: usize = 0;
    while j < n
        invariant
            n == gray@.len(),
            j <= n,
            mean as nat == byte_mean(gray@),
            out@ == Seq::new(j as nat, |k: int| if gray@[k] > byte_mean(gray@) { 255u8 } else { 0u8 }),
        decreases n - j,
    {
        out.push(if gray[j] > mean { 255 } else { 0 });
        j = j + 1;
        assert(out@ =~= Seq::new(j as nat, |k: int| if gray@[k] > byte_mean(gray@) { 255u8 } else { 0u8 }));
    }
    out
}

} // verus!
