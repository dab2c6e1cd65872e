//! Conversions between kinds of images and between sample depths.

use vstd::prelude::*;
use vstd::arithmetic::div_mod::{lemma_fundamental_div_mod, lemma_mod_bound};
use crate::component::Component;
use crate::image::{Gray, Hsv, Image, Kind, Rgb};

verus! {

/// The byte that stands for a level on a scale that ends at `max`: the level
/// brought to the scale of a byte, rounded down, and 255 for a level at or
/// above `max`.
pub open spec fn quantized(level: nat, max: nat) -> nat {
    if level == 0 {
        0
    } else if level >= max {
        255
    } else {
        level * 255 / max
    }
}

/// A level on a scale that ends at `max`, brought to the scale of a byte and
/// rounded to the nearest whole number.
pub open spec fn rounded(level: nat, max: nat) -> nat {
    (510 * level + max) / (2 * max)
}

/// The step to bytes loses precision, and no more than a byte's worth: the
/// byte of a level is the rounded value or the one below it.
pub proof fn lemma_quantized_near_rounded(level: nat, max: nat)
    requires
        0 < max,
        level <= max,
    ensures
        quantized(level, max) <= rounded(level, max) <= quantized(level, max) + 1,
{
    let l = level as int;
    let m = max as int;
    let r = (510 * l + m) / (2 * m);
    lemma_fundamental_div_mod(510 * l + m, 2 * m);
    lemma_mod_bound(510 * l + m, 2 * m);
    assert(2 * m * r <= 510 * l + m < 2 * m * r + 2 * m);
    if level == 0 {
        assert(r == 0) by (nonlinear_arith)
            requires
                2 * m * r <= m,
                m < 2 * m * r + 2 * m,
                0 < m,
        ;
    } else if level == max {
        assert(r == 255) by (nonlinear_arith)
            requires
                2 * m * r <= 511 * m,
                511 * m < 2 * m * r + 2 * m,
                0 < m,
        ;
    } else {
        let q = 255 * l / m;
        lemma_fundamental_div_mod(255 * l, m);
        lemma_mod_bound(255 * l, m);
        assert(m * q <= 255 * l < m * q + m);
        assert(q <= r <= q + 1) by (nonlinear_arith)
            requires
                m * q <= 255 * l,
                255 * l < m * q + m,
                2 * m * r <= 510 * l + m,
                510 * l + m < 2 * m * r + 2 * m,
                0 < m,
        ;
        assert(level * 255 == 255 * l);
    }
}

/// The byte that stands for a sample of twelve bits: the sample divided by
/// sixteen, rounded down, and 255 for a sample that has more than twelve bits.
pub open spec fn as_byte(level: nat) -> nat {
    if level / 16 > 255 {
        255
    } else {
        level / 16
    }
}

/// A level of twelve bits on the scale of a byte, rounded to the nearest
/// whole number.
pub open spec fn rounded_byte(level: nat) -> nat {
    (510 * level + 4095) / 8190
}

/// The byte of a sample of twelve bits is at most one away from the sample
/// brought to the scale of a byte and rounded: the step to bytes loses
/// precision, and no more than that.
pub proof fn lemma_as_byte_near_rounded(level: nat)
    requires
        level <= 4095,
    ensures
        as_byte(level) <= rounded_byte(level) + 1,
        rounded_byte(level) <= as_byte(level) + 1,
{
    let byte = level as int / 16;
    let rounded = (510 * level + 4095) as int / 8190;
    assert(16 * byte <= level < 16 * byte + 16);
    assert(8190 * rounded <= 510 * level + 4095 < 8190 * rounded + 8190);
}

impl<K: Kind, T: Component> Image<K, T> {
    /// The image in bytes: every sample brought from the scale of the
    /// declared bit depth to the scale of a byte, rounded down.
    pub fn to_bytes(self) -> (bytes: Image<K, u8>)
        requires
            self.meta.bit_depth <= usize::BITS,
        ensures
            self.wf() ==> bytes.wf(),
            bytes.meta == self.meta,
            bytes.data@.len() == self.data@.len(),
            forall|k: int|
                0 <= k < bytes.data@.len() ==> bytes.data@[k] == quantized(
                    self.data@[k].level(),
                    self.meta.max_sample(),
                ),
    {
        let max = self.meta.depth_max() as u64;
        let n = self.data.len();
        let mut data: Vec<u8> = Vec::with_capacity(n);
        let mut k: usize = 0;
        while k < n
            invariant
                k <= n,
                n == self.data.len(),
                data.len() == k,
                max == self.meta.max_sample(),
                forall|j: int|
                    0 <= j < k ==> data@[j] == quantized(self.data@[j].level(), max as nat),
            decreases n - k,
        {
            let level = self.data[k].to_u64();
            proof {
                self.data@[k as int].level_bounded();
                T::max_level_bounded();
            }
            let byte: u8 = if level == 0 {
                0
            } else if level >= max {
                255
            } else {
                assert((level * 255) / (max as int) < 255) by (nonlinear_arith)
                    requires
                        0 < level < max,
                ;
                (level * 255 / max) as u8
            };
            data.push(byte);
            k += 1;
        }
        Image { kind: self.kind, data, meta: self.meta }
    }
}

impl Image<Rgb, u16> {
    /// The samples as bytes, for an encoder of eight bits per channel. The
    /// samples are taken to have twelve bits.
    pub fn as_bytes(self) -> (bytes: Vec<u8>)
        ensures
            bytes@.len() == self.data@.len(),
            forall|k: int| 0 <= k < bytes@.len() ==> bytes@[k] == as_byte(self.data@[k] as nat),
    {
        let n = self.data.len();
        let mut bytes: Vec<u8> = Vec::with_capacity(n);
        let mut k: usize = 0;
        while k < n
            invariant
                k <= n,
                n == self.data.len(),
                bytes.len() == k,
                forall|j: int| 0 <= j < k ==> bytes@[j] == as_byte(self.data@[j] as nat),
            decreases n - k,
        {
            let scaled = self.data[k] / 16;
            let byte: u8 = if scaled > 255 {
                255
            } else {
                scaled as u8
            };
            bytes.push(byte);
            k += 1;
        }
        bytes
    }
}

impl<T: Component> Image<Hsv, T> {
    /// The image of the values alone: the third sample of every pixel.
    pub fn into_gray(self) -> (gray: Image<Gray, T>)
        ensures
            self.wf() ==> gray.wf(),
            gray.meta == self.meta,
            gray.data@.len() == self.data@.len() / 3,
            forall|p: int| 0 <= p < gray.data@.len() ==> gray.data@[p] == self.data@[3 * p + 2],
    {
        let n = self.data.len() / 3;
        let mut values: Vec<T> = Vec::with_capacity(n);
        let mut p: usize = 0;
        while p < n
            invariant
                p <= n,
                n == self.data.len() / 3,
                values.len() == p,
                forall|j: int| 0 <= j < p ==> values@[j] == self.data@[3 * j + 2],
            decreases n - p,
        {
            values.push(self.data[3 * p + 2]);
            p += 1;
        }
        Image { kind: Gray, data: values, meta: self.meta }
    }
}

} // verus!
