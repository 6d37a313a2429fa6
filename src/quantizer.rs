use vstd::prelude::*;
use vstd::arithmetic::div_mod::lemma_fundamental_div_mod_converse;
use crate::types::{AnsiColor, Rgb};
use crate::palette::{palette_entry, generate_ansi_palette, PALETTE_SIZE};
use crate::color::{Lab, lab_spec, lab_distance, rgb_to_lab, color_distance_lab};

verus! {

/// Number of RGB555 buckets in the lookup table.
pub const LUT_SIZE: usize = 32768;

/// Table key of a color with 5-bit channels.
pub open spec fn lut_key(r5: int, g5: int, b5: int) -> int {
    r5 * 1024 + g5 * 32 + b5
}

/// Widens a 5-bit channel to 8 bits by bit replication: `(c5 << 3) | (c5 >> 2)`.
pub open spec fn expand5(c5: int) -> int {
    c5 * 8 + c5 / 4
}

/// The 8-bit color that stands for table bucket `key`.
pub open spec fn bucket_color(key: int) -> Rgb {
    Rgb {
        r: expand5(key / 1024) as u8,
        g: expand5((key / 32) % 32) as u8,
        b: expand5(key % 32) as u8,
    }
}

/// `c` with each channel cut to its top five bits and widened back.
pub open spec fn truncated(c: Rgb) -> Rgb {
    Rgb {
        r: expand5(c.r as int / 8) as u8,
        g: expand5(c.g as int / 8) as u8,
        b: expand5(c.b as int / 8) as u8,
    }
}

/// `k` is the palette index nearest to `c` in L*a*b*, the lowest one among equals.
pub open spec fn is_nearest(c: Rgb, k: int) -> bool {
    &&& 0 <= k < 256
    &&& forall|i: int|
        0 <= i < 256 ==> lab_distance(c, palette_entry(k)) <= lab_distance(
            c,
            #[trigger] palette_entry(i),
        )
    &&& forall|i: int|
        0 <= i < k ==> lab_distance(c, palette_entry(k)) < lab_distance(
            c,
            #[trigger] palette_entry(i),
        )
}

/// The palette index nearest to `c`, ties going to the lowest index.
pub open spec fn nearest_ansi(c: Rgb) -> int {
    choose|k: int| is_nearest(c, k)
}

/// What the quantizer returns for `c`: the nearest palette index to the
/// color of `c`'s RGB555 bucket.
pub open spec fn quantize_spec(c: Rgb) -> AnsiColor {
    AnsiColor(nearest_ansi(truncated(c)) as u8)
}

/// Only one palette index is nearest under the lowest-index rule.
pub proof fn lemma_nearest_unique(c: Rgb, k1: int, k2: int)
    requires
        is_nearest(c, k1),
        is_nearest(c, k2),
    ensures
        k1 == k2,
{
    if k1 < k2 {
        assert(lab_distance(c, palette_entry(k2)) < lab_distance(c, palette_entry(k1)));
        assert(lab_distance(c, palette_entry(k1)) <= lab_distance(c, palette_entry(k2)));
    } else if k2 < k1 {
        assert(lab_distance(c, palette_entry(k1)) < lab_distance(c, palette_entry(k2)));
        assert(lab_distance(c, palette_entry(k2)) <= lab_distance(c, palette_entry(k1)));
    }
}

/// Cutting a color to its bucket and widening it back lands in the same bucket.
pub proof fn lemma_truncated_idempotent(c: Rgb)
    ensures
        truncated(truncated(c)) == truncated(c),
{
}

/// A color quantizes as its bucket's representative does: only the top five
/// bits of each channel count.
pub proof fn lemma_quantize_ignores_low_bits(c: Rgb)
    ensures
        quantize_spec(c) == quantize_spec(truncated(c)),
{
    lemma_truncated_idempotent(c);
}

/// The top five bits of an 8-bit channel.
fn shr3(c: u8) -> (r: u8)
    ensures
        r == c / 8,
        r < 32,
{
    assert(c >> 3u8 == c / 8) by (bit_vector);
    c >> 3
}

/// Table key of three 5-bit channels.
pub fn lut_index(r5: u8, g5: u8, b5: u8) -> (i: usize)
    requires
        r5 < 32,
        g5 < 32,
        b5 < 32,
    ensures
        i == lut_key(r5 as int, g5 as int, b5 as int),
        i < LUT_SIZE,
{
    let (r, g, b) = (r5 as usize, g5 as usize, b5 as usize);
    assert(((r << 10) | (g << 5) | b) == r * 1024 + g * 32 + b) by (bit_vector)
        requires
            r < 32,
            g < 32,
            b < 32,
    ;
    (r << 10) | (g << 5) | b
}

/// The L*a*b* coordinates of every palette entry, in palette order.
pub open spec fn is_palette_lab(v: Seq<Lab>) -> bool {
    &&& v.len() == 256
    &&& forall|i: int|
        0 <= i < 256 ==> (#[trigger] v[i]).bounded() && (v[i].l as int, v[i].a as int, v[i].b as int)
            == lab_spec(palette_entry(i))
}

/// The L*a*b* coordinates of the palette, for `find_nearest_ansi_color`.
pub fn palette_lab() -> (v: Vec<Lab>)
    ensures
        is_palette_lab(v@),
{
    let palette = generate_ansi_palette();
    let mut v: Vec<Lab> = Vec::with_capacity(PALETTE_SIZE);
    let mut i: usize = 0;
    while i < PALETTE_SIZE
        invariant
            i <= 256,
            palette@.len() == 256,
            forall|j: int| 0 <= j < 256 ==> palette@[j] == palette_entry(j),
            v@.len() == i,
            forall|j: int|
                0 <= j < i ==> (#[trigger] v@[j]).bounded() && (
                    v@[j].l as int,
                    v@[j].a as int,
                    v@[j].b as int,
                ) == lab_spec(palette_entry(j)),
        decreases 256 - i,
    {
        v.push(rgb_to_lab(palette[i]));
        i = i + 1;
    }
    v
}

/// Finds the palette index nearest to `rgb` in L*a*b*, the lowest one among
/// equals.
pub fn find_nearest_ansi_color(rgb: Rgb, palette_lab: &Vec<Lab>) -> (k: u8)
    requires
        is_palette_lab(palette_lab@),
    ensures
        is_nearest(rgb, k as int),
{
    let lab = rgb_to_lab(rgb);
    let mut best: usize = 0;
    let mut best_distance = color_distance_lab(lab, palette_lab[0]);
    let mut i: usize = 1;
    while i < PALETTE_SIZE
        invariant
            1 <= i <= 256,
            best < i,
            is_palette_lab(palette_lab@),
            lab.bounded(),
            (lab.l as int, lab.a as int, lab.b as int) == lab_spec(rgb),
            best_distance == lab_distance(rgb, palette_entry(best as int)),
            forall|j: int|
                0 <= j < i ==> best_distance <= lab_distance(rgb, #[trigger] palette_entry(j)),
            forall|j: int|
                0 <= j < best ==> best_distance < lab_distance(rgb, #[trigger] palette_entry(j)),
        decreases 256 - i,
    {
        let d = color_distance_lab(lab, palette_lab[i]);
        assert(d == lab_distance(rgb, palette_entry(i as int)));
        if d < best_distance {
            best = i;
            best_distance = d;
        }
        i = i + 1;
    }
    best as u8
}

/// Maps 24-bit colors to ANSI-256 indices through a table of RGB555 buckets.
pub struct ColorQuantizer {
    lut: Vec<u8>,
}

impl ColorQuantizer {
    /// Every bucket holds the palette index nearest to its color.
    pub closed spec fn wf(&self) -> bool {
        &&& self.lut@.len() == LUT_SIZE
        &&& forall|key: int|
            0 <= key < LUT_SIZE ==> is_nearest(bucket_color(key), #[trigger] self.lut@[key] as int)
    }

    /// Builds the table: for each RGB555 bucket, the nearest palette index.
    pub fn new() -> (q: ColorQuantizer)
        ensures
            q.wf(),
    {
        let plab = palette_lab();
        let mut lut: Vec<u8> = Vec::with_capacity(LUT_SIZE);
        let mut key: usize = 0;
        while key < LUT_SIZE
            invariant
                key <= LUT_SIZE,
                is_palette_lab(plab@),
                lut@.len() == key,
                forall|j: int|
                    0 <= j < key ==> is_nearest(bucket_color(j), #[trigger] lut@[j] as int),
            decreases LUT_SIZE - key,
        {
            let r5 = key / 1024;
            let g5 = (key / 32) % 32;
            let b5 = key % 32;
            let rgb = Rgb::new(
                (r5 * 8 + r5 / 4) as u8,
                (g5 * 8 + g5 / 4) as u8,
                (b5 * 8 + b5 / 4) as u8,
            );
            assert(rgb == bucket_color(key as int));
            lut.push(find_nearest_ansi_color(rgb, &plab));
            key = key + 1;
        }
        ColorQuantizer { lut }
    }

    /// The palette index for `rgb`, looked up in O(1).
    pub fn quantize(&self, rgb: Rgb) -> (c: AnsiColor)
        requires
            self.wf(),
        ensures
            c == quantize_spec(rgb),
    {
        let r5 = shr3(rgb.r);
        let g5 = shr3(rgb.g);
        let b5 = shr3(rgb.b);
        let idx = lut_index(r5, g5, b5);
        proof {
            let key = idx as int;
            lemma_fundamental_div_mod_converse(key, 1024, r5 as int, g5 * 32 + b5);
            lemma_fundamental_div_mod_converse(key / 32, 32, r5 as int, g5 as int);
            lemma_fundamental_div_mod_converse(key, 32, r5 * 32 + g5, b5 as int);
            assert(bucket_color(key) == truncated(rgb));
            assert(is_nearest(truncated(rgb), self.lut@[key] as int));
            lemma_nearest_unique(
                truncated(rgb),
                self.lut@[key] as int,
                nearest_ansi(truncated(rgb)),
            );
        }
        AnsiColor(self.lut[idx])
    }

    /// The quantizer's answer for any color is the palette index nearest, in
    /// L*a*b*, to the color of its RGB555 bucket, the lowest one among equals.
    pub proof fn lemma_quantize_is_nearest(&self, c: Rgb)
        requires
            self.wf(),
        ensures
            is_nearest(truncated(c), quantize_spec(c).0 as int),
    {
        let (r5, g5, b5) = (c.r as int / 8, c.g as int / 8, c.b as int / 8);
        let key = lut_key(r5, g5, b5);
        assert(0 <= r5 < 32 && 0 <= g5 < 32 && 0 <= b5 < 32);
        assert(0 <= key < LUT_SIZE);
        lemma_fundamental_div_mod_converse(key, 1024, r5, g5 * 32 + b5);
        lemma_fundamental_div_mod_converse(key / 32, 32, r5, g5);
        lemma_fundamental_div_mod_converse(key, 32, r5 * 32 + g5, b5);
        assert(bucket_color(key) == truncated(c));
        assert(is_nearest(truncated(c), self.lut@[key] as int));
        lemma_nearest_unique(truncated(c), self.lut@[key] as int, nearest_ansi(truncated(c)));
    }

    /// Quantizes each color, keeping the order.
    pub fn quantize_batch(&self, colors: &[Rgb]) -> (r: Vec<AnsiColor>)
        requires
            self.wf(),
        ensures
            r@.len() == colors@.len(),
            forall|i: int| 0 <= i < colors@.len() ==> r@[i] == quantize_spec(#[trigger] colors@[i]),
    {
        let mut r: Vec<AnsiColor> = Vec::with_capacity(colors.len());
        let mut i: usize = 0;
        while i < colors.len()
            invariant
                self.wf(),
                i <= colors@.len(),
                r@.len() == i,
                forall|j: int| 0 <= j < i ==> r@[j] == quantize_spec(#[trigger] colors@[j]),
            decreases colors@.len() - i,
        {
            r.push(self.quantize(colors[i]));
            i = i + 1;
        }
        r
    }
}

} // verus!
