//! Sampling: from many random paths through a pixel to the pixel's colour.

use vstd::prelude::*;
use crate::camera::Camera;
use crate::fixed::lemma_trunc_div_monotone;
use crate::fixed::saturate;
use crate::fixed::saturate_wide;
use crate::fixed::trunc_div;
use crate::fixed::trunc_div_wide;
use crate::fixed::Fixed;
use crate::fixed::SCALE;
use crate::material::ScatterSample;
use crate::math::Ray;
use crate::math::Vec3;
use crate::object::Hittable;
use crate::object::HittableObjects;
use crate::random::uniform;
use crate::render::is_radiance;
use crate::render::radiance;
use crate::render::ray_color;
use crate::render::ray_color_with;

verus! {

/// Raw width of the interval `[0, 0.6)` from which the offset of a sample
/// within its pixel is drawn.
pub const JITTER_RAW: i64 = 600_000_000;

/// Raw value of the largest channel of a finished pixel, `0.999`.
pub const CHANNEL_MAX_RAW: i64 = 999_000_000;

/// The sum of some colours, channel by channel, and their number: what an
/// [`Accumulator`] holds, as unbounded integers.
pub struct Totals {
    pub x: int,
    pub y: int,
    pub z: int,
    pub count: nat,
}

impl Totals {
    /// The totals of no colours.
    pub open spec fn zero() -> Totals {
        Totals { x: 0, y: 0, z: 0, count: 0 }
    }

    /// The totals with one more colour.
    pub open spec fn with(self, c: Vec3) -> Totals {
        Totals {
            x: self.x + c.x.raw,
            y: self.y + c.y.raw,
            z: self.z + c.z.raw,
            count: self.count + 1,
        }
    }

    /// The totals of the colours of a sequence.
    pub open spec fn of(colors: Seq<Vec3>) -> Totals
        decreases colors.len(),
    {
        if colors.len() == 0 {
            Totals::zero()
        } else {
            Totals::of(colors.drop_last()).with(colors.last())
        }
    }

    /// The finished colour: the gamma-corrected mean of each channel.
    pub open spec fn resolve(self) -> Vec3 {
        Vec3 {
            x: gamma_spec(mean(self.x, self.count)),
            y: gamma_spec(mean(self.y, self.count)),
            z: gamma_spec(mean(self.z, self.count)),
        }
    }
}

/// The mean `sum / count` of a channel, rounded toward zero and saturated;
/// zero where nothing was counted.
pub open spec fn mean(sum: int, count: nat) -> Fixed {
    if count == 0 {
        Fixed::zero()
    } else {
        Fixed { raw: saturate(trunc_div(sum, count as int)) as i64 }
    }
}

/// What [`gamma`] returns.
pub open spec fn gamma_spec(mean: Fixed) -> Fixed {
    mean.sqrt_spec().clamp_spec(Fixed::zero(), Fixed { raw: CHANNEL_MAX_RAW })
}

/// Gamma correction of a channel: the square root, kept within
/// `[0, 0.999]`.
#[verifier::when_used_as_spec(gamma_spec)]
pub fn gamma(mean: Fixed) -> (c: Fixed)
    ensures
        c == gamma_spec(mean),
        0 <= c.raw <= CHANNEL_MAX_RAW,
{
    mean.sqrt().clamp(Fixed::zero(), Fixed::from_raw(CHANNEL_MAX_RAW))
}

/// The running sum of the samples of one pixel. The sum is exact, so it
/// does not depend on the order in which the samples arrive.
pub struct Accumulator {
    x: i128,
    y: i128,
    z: i128,
    count: u64,
}

impl View for Accumulator {
    type V = Totals;

    /// The totals of the samples added.
    closed spec fn view(&self) -> Totals {
        Totals { x: self.x as int, y: self.y as int, z: self.z as int, count: self.count as nat }
    }
}

/// Whether a sum of `count` raw values of 64 bits can be `sum`.
pub open spec fn sum_fits(sum: int, count: int) -> bool {
    -count * 0x8000_0000_0000_0000 <= sum <= count * 0x8000_0000_0000_0000
}

impl Accumulator {
    /// Each sum is one that `count` samples can have.
    #[verifier::type_invariant]
    spec fn sums_fit(&self) -> bool {
        &&& sum_fits(self.x as int, self.count as int)
        &&& sum_fits(self.y as int, self.count as int)
        &&& sum_fits(self.z as int, self.count as int)
    }

    /// An accumulator that holds nothing.
    pub fn new() -> (a: Accumulator)
        ensures
            a@ == Totals::zero(),
    {
        Accumulator { x: 0, y: 0, z: 0, count: 0 }
    }

    /// The number of samples added.
    pub fn count(&self) -> (n: u64)
        ensures
            n == self@.count,
    {
        self.count
    }

    /// Adds one sample.
    pub fn add(&mut self, sample: Vec3)
        requires
            old(self)@.count < u64::MAX,
        ensures
            final(self)@ == old(self)@.with(sample),
    {
        proof {
            use_type_invariant(&*self);
        }
        *self = Accumulator {
            x: self.x + sample.x.raw as i128,
            y: self.y + sample.y.raw as i128,
            z: self.z + sample.z.raw as i128,
            count: self.count + 1,
        };
    }

    /// The finished colour of the pixel: per channel the gamma-corrected
    /// mean of the samples, which is black where there are none.
    pub fn resolve(&self) -> (c: Vec3)
        ensures
            c == self@.resolve(),
    {
        proof {
            use_type_invariant(self);
        }
        if self.count == 0 {
            Vec3::new(
                gamma(Fixed::zero()),
                gamma(Fixed::zero()),
                gamma(Fixed::zero()),
            )
        } else {
            let n = self.count as i128;
            Vec3::new(
                gamma(Fixed::from_raw(saturate_wide(trunc_div_wide(self.x, n)))),
                gamma(Fixed::from_raw(saturate_wide(trunc_div_wide(self.y, n)))),
                gamma(Fixed::from_raw(saturate_wide(trunc_div_wide(self.z, n)))),
            )
        }
    }
}

/// The sum of the samples of a sequence.
pub fn accumulate(samples: &Vec<Vec3>) -> (a: Accumulator)
    ensures
        a@ == Totals::of(samples@),
{
    let mut acc = Accumulator::new();
    let mut k: usize = 0;
    while k < samples.len()
        invariant
            k <= samples.len(),
            acc@ == Totals::of(samples@.take(k as int)),
        decreases samples.len() - k,
    {
        proof {
            assert(samples@.take(k + 1).drop_last() == samples@.take(k as int));
            lemma_count_is_len(samples@.take(k as int));
        }
        acc.add(samples[k]);
        k = k + 1;
    }
    proof {
        assert(samples@.take(k as int) == samples@);
    }
    acc
}

/// The totals count the colours.
pub proof fn lemma_count_is_len(colors: Seq<Vec3>)
    ensures
        Totals::of(colors).count == colors.len(),
    decreases colors.len(),
{
    if colors.len() > 0 {
        lemma_count_is_len(colors.drop_last());
    }
}

/// Taking one colour out of a sequence takes it out of the totals.
pub proof fn lemma_totals_remove(colors: Seq<Vec3>, i: int)
    requires
        0 <= i < colors.len(),
    ensures
        Totals::of(colors) == Totals::of(colors.remove(i)).with(colors[i]),
    decreases colors.len(),
{
    if i < colors.len() - 1 {
        lemma_totals_remove(colors.drop_last(), i);
        assert(colors.drop_last().remove(i) == colors.remove(i).drop_last());
    }
}

/// The totals do not depend on the order of the colours: two sequences that
/// hold the same colours the same number of times have the same totals.
pub proof fn lemma_totals_permutation(a: Seq<Vec3>, b: Seq<Vec3>)
    requires
        a.to_multiset() == b.to_multiset(),
    ensures
        Totals::of(a) == Totals::of(b),
    decreases a.len(),
{
    vstd::seq_lib::to_multiset_len(a);
    vstd::seq_lib::to_multiset_len(b);
    if a.len() > 0 {
        let last = a.last();
        vstd::seq_lib::to_multiset_contains(a, last);
        vstd::seq_lib::to_multiset_contains(b, last);
        assert(a.contains(last)) by {
            assert(a[a.len() - 1] == last);
        }
        let i = choose|i: int| 0 <= i < b.len() && b[i] == last;
        vstd::seq_lib::to_multiset_remove(a, a.len() - 1);
        vstd::seq_lib::to_multiset_remove(b, i);
        lemma_totals_permutation(a.drop_last(), b.remove(i));
        lemma_totals_remove(b, i);
    }
}

/// The mean never decreases as the sum grows.
pub proof fn lemma_mean_monotone(low: int, high: int, count: nat)
    requires
        low <= high,
    ensures
        mean(low, count).raw <= mean(high, count).raw,
{
    if count > 0 {
        lemma_trunc_div_monotone(low, high, count as int);
    }
}

/// A sum of at least one per sample has a mean of at least one.
pub proof fn lemma_mean_at_least_one(sum: int, count: nat)
    requires
        count > 0,
        sum >= count * SCALE,
    ensures
        mean(sum, count).raw >= SCALE,
{
    let one = count * SCALE;
    lemma_trunc_div_monotone(one, sum, count as int);
    vstd::arithmetic::div_mod::lemma_fundamental_div_mod_converse(
        one,
        count as int,
        SCALE as int,
        0,
    );
}

/// Gamma correction never decreases as the mean grows.
pub proof fn lemma_gamma_monotone(low: Fixed, high: Fixed)
    requires
        low.raw <= high.raw,
    ensures
        gamma_spec(low).raw <= gamma_spec(high).raw,
{
    Fixed::lemma_sqrt_monotone(low, high);
}

/// Gamma correction stays within `[0, 0.999]`, below one, and a mean of at
/// least one gives `0.999` exactly.
pub proof fn lemma_gamma_clamps(mean: Fixed)
    ensures
        0 <= gamma_spec(mean).raw <= CHANNEL_MAX_RAW < SCALE,
        mean.raw >= SCALE ==> gamma_spec(mean).raw == CHANNEL_MAX_RAW,
{
    Fixed::lemma_sqrt_raw(mean);
    if mean.raw >= SCALE {
        Fixed::lemma_sqrt_at_least_one(mean);
    }
}

/// A finished pixel never decreases in a channel as the channel's sum
/// grows, stays within `[0, 0.999]`, and is `0.999` exactly in a channel
/// whose sum is at least one per sample.
pub proof fn lemma_resolve_channel(low: int, high: int, count: nat)
    requires
        low <= high,
    ensures
        gamma_spec(mean(low, count)).raw <= gamma_spec(mean(high, count)).raw,
        0 <= gamma_spec(mean(low, count)).raw <= CHANNEL_MAX_RAW < SCALE,
        count > 0 && low >= count * SCALE ==> gamma_spec(mean(low, count)).raw
            == CHANNEL_MAX_RAW,
{
    lemma_mean_monotone(low, high, count);
    lemma_gamma_monotone(mean(low, count), mean(high, count));
    lemma_gamma_clamps(mean(low, count));
    if count > 0 && low >= count * SCALE {
        lemma_mean_at_least_one(low, count);
    }
}

/// Whether `jitter` is an offset that a draw can give.
pub open spec fn valid_jitter(jitter: Fixed) -> bool {
    0 <= jitter.raw < JITTER_RAW
}

/// What [`coordinate`] returns.
pub open spec fn coordinate_spec(index: u32, jitter: Fixed, extent: u32) -> Fixed {
    Fixed::from_int_spec(index as i64).plus(jitter).over(Fixed::from_int_spec((extent - 1) as i64))
}

/// The place on the image, along one axis, of a sample of the pixel `index`
/// out of `extent` pixels: `(index + jitter) / (extent - 1)`.
#[verifier::when_used_as_spec(coordinate_spec)]
pub fn coordinate(index: u32, jitter: Fixed, extent: u32) -> (c: Fixed)
    ensures
        c == coordinate_spec(index, jitter, extent),
{
    (Fixed::from_int(index as i64) + jitter) / Fixed::from_int(extent as i64 - 1)
}

/// The camera ray through the pixel `(i, j)` of an image of `width` by
/// `height` pixels, moved within the pixel by the two offsets.
pub open spec fn pixel_ray(
    camera: &Camera,
    i: u32,
    j: u32,
    width: u32,
    height: u32,
    jitter_u: Fixed,
    jitter_v: Fixed,
) -> Ray {
    camera.get_ray_spec(coordinate_spec(i, jitter_u, width), coordinate_spec(j, jitter_v, height))
}

/// One sample of the pixel `(i, j)`: the colour along the camera ray through
/// the pixel, moved by the given offsets, over a path scattered by the given
/// samples.
pub fn pixel_sample_with<T: Hittable>(
    camera: &Camera,
    objects: &HittableObjects<T>,
    i: u32,
    j: u32,
    width: u32,
    height: u32,
    jitter_u: Fixed,
    jitter_v: Fixed,
    samples: &Vec<ScatterSample>,
) -> (c: Vec3)
    ensures
        c == radiance(objects@, &pixel_ray(camera, i, j, width, height, jitter_u, jitter_v), samples@),
{
    let u = coordinate(i, jitter_u, width);
    let v = coordinate(j, jitter_v, height);
    ray_color_with(&camera.get_ray(u, v), objects, samples)
}

/// Whether `c` can be a sample of the pixel `(i, j)`: the colour along the
/// pixel's ray for some valid offsets and some `depth` valid samples.
pub open spec fn is_pixel_sample<T: Hittable>(
    camera: &Camera,
    objects: Seq<T>,
    i: u32,
    j: u32,
    width: u32,
    height: u32,
    depth: int,
    c: Vec3,
) -> bool {
    exists|jitter_u: Fixed, jitter_v: Fixed|
        valid_jitter(jitter_u) && valid_jitter(jitter_v) && is_radiance(
            objects,
            &#[trigger] pixel_ray(camera, i, j, width, height, jitter_u, jitter_v),
            depth,
            c,
        )
}

/// One sample of the pixel `(i, j)`, with offsets and a path drawn here.
pub fn pixel_sample<T: Hittable>(
    camera: &Camera,
    objects: &HittableObjects<T>,
    i: u32,
    j: u32,
    width: u32,
    height: u32,
    depth: i32,
) -> (c: Vec3)
    ensures
        is_pixel_sample(camera, objects@, i, j, width, height, depth as int, c),
{
    let mut rnd = rand::thread_rng();
    let jitter_u = uniform(&mut rnd, Fixed::zero(), Fixed::from_raw(JITTER_RAW));
    let jitter_v = uniform(&mut rnd, Fixed::zero(), Fixed::from_raw(JITTER_RAW));
    let u = coordinate(i, jitter_u, width);
    let v = coordinate(j, jitter_v, height);
    let c = ray_color(&camera.get_ray(u, v), objects, depth);
    proof {
        assert(camera.get_ray_spec(u, v) == pixel_ray(
            camera,
            i,
            j,
            width,
            height,
            jitter_u,
            jitter_v,
        ));
    }
    c
}

/// Whether `c` can be the finished colour of the pixel `(i, j)`: the
/// resolved totals of `samples` colours, each a sample of the pixel.
pub open spec fn is_pixel<T: Hittable>(
    camera: &Camera,
    objects: Seq<T>,
    i: u32,
    j: u32,
    width: u32,
    height: u32,
    samples: nat,
    depth: int,
    c: Vec3,
) -> bool {
    exists|colors: Seq<Vec3>|
        colors.len() == samples && (forall|k: int|
            0 <= k < colors.len() ==> is_pixel_sample(
                camera,
                objects,
                i,
                j,
                width,
                height,
                depth,
                #[trigger] colors[k],
            )) && c == #[trigger] Totals::of(colors).resolve()
}

/// The finished colour of the pixel `(i, j)` from `samples` samples drawn
/// here, each over a path of at most `depth` bounces.
pub fn render_pixel<T: Hittable>(
    camera: &Camera,
    objects: &HittableObjects<T>,
    i: u32,
    j: u32,
    width: u32,
    height: u32,
    samples: u32,
    depth: i32,
) -> (c: Vec3)
    ensures
        is_pixel(camera, objects@, i, j, width, height, samples as nat, depth as int, c),
        c.within_channels(),
{
    let mut acc = Accumulator::new();
    let ghost mut colors: Seq<Vec3> = Seq::empty();
    let mut k: u32 = 0;
    while k < samples
        invariant
            k <= samples,
            colors.len() == k,
            acc@ == Totals::of(colors),
            forall|n: int|
                0 <= n < colors.len() ==> is_pixel_sample(
                    camera,
                    objects@,
                    i,
                    j,
                    width,
                    height,
                    depth as int,
                    #[trigger] colors[n],
                ),
        decreases samples - k,
    {
        let sample = pixel_sample(camera, objects, i, j, width, height, depth);
        proof {
            lemma_count_is_len(colors);
            assert(colors.push(sample).drop_last() == colors);
            colors = colors.push(sample);
        }
        acc.add(sample);
        k = k + 1;
    }
    acc.resolve()
}

/// The index of the pixel `(i, j)` in an image stored row by row.
pub open spec fn pixel_index_spec(i: u32, j: u32, width: u32) -> int {
    j * width + i
}

/// The index of the pixel `(i, j)` in an image stored row by row.
pub fn pixel_index(i: u32, j: u32, width: u32) -> (index: u64)
    ensures
        index == pixel_index_spec(i, j, width),
        i < width ==> index % (width as u64) == i && index / (width as u64) == j,
{
    proof {
        if i < width {
            lemma_row_major(i as int, j as int, width as int);
        }
        assert(j * width <= 0xffff_ffff * 0xffff_ffff) by (nonlinear_arith)
            requires
                0 <= j <= 0xffff_ffff,
                0 <= width <= 0xffff_ffff,
        ;
    }
    j as u64 * width as u64 + i as u64
}

/// In a row-major layout the index determines the column and the row.
pub proof fn lemma_row_major(i: int, j: int, width: int)
    requires
        0 <= i < width,
        0 <= j,
    ensures
        (j * width + i) % width == i,
        (j * width + i) / width == j,
        0 <= j * width + i < (j + 1) * width,
{
    vstd::arithmetic::div_mod::lemma_fundamental_div_mod_converse(j * width + i, width, j, i);
    assert((j + 1) * width == j * width + width) by (nonlinear_arith);
}

/// The image of the scene: `height` rows of `width` pixels, row by row from
/// the top, each pixel finished from `samples` samples over paths of at most
/// `depth` bounces.
pub fn render<T: Hittable>(
    camera: &Camera,
    objects: &HittableObjects<T>,
    width: u32,
    height: u32,
    samples: u32,
    depth: i32,
) -> (image: Vec<Vec3>)
    requires
        width * height <= usize::MAX,
    ensures
        image.len() == width * height,
        forall|i: u32, j: u32|
            i < width && j < height ==> is_pixel(
                camera,
                objects@,
                i,
                j,
                width,
                height,
                samples as nat,
                depth as int,
                image@[#[trigger] pixel_index_spec(i, j, width)],
            ),
        forall|n: int| 0 <= n < image.len() ==> (#[trigger] image@[n]).within_channels(),
{
    let mut image: Vec<Vec3> = Vec::new();
    if width == 0 {
        return image;
    }
    let mut j: u32 = 0;
    while j < height
        invariant
            0 < width,
            j <= height,
            width * height <= usize::MAX,
            image.len() == j * width,
            forall|a: u32, b: u32|
                a < width && b < j ==> is_pixel(
                    camera,
                    objects@,
                    a,
                    b,
                    width,
                    height,
                    samples as nat,
                    depth as int,
                    image@[#[trigger] pixel_index_spec(a, b, width)],
                ),
            forall|n: int| 0 <= n < image.len() ==> (#[trigger] image@[n]).within_channels(),
        decreases height - j,
    {
        let mut i: u32 = 0;
        while i < width
            invariant
                0 < width,
                i <= width,
                j < height,
                width * height <= usize::MAX,
                image.len() == j * width + i,
                forall|a: u32, b: u32|
                    a < width && (b < j || (b == j && a < i)) ==> is_pixel(
                        camera,
                        objects@,
                        a,
                        b,
                        width,
                        height,
                        samples as nat,
                        depth as int,
                        image@[#[trigger] pixel_index_spec(a, b, width)],
                    ),
                forall|n: int| 0 <= n < image.len() ==> (#[trigger] image@[n]).within_channels(),
            decreases width - i,
        {
            let c = render_pixel(camera, objects, i, j, width, height, samples, depth);
            proof {
                lemma_row_major(i as int, j as int, width as int);
                assert forall|a: u32, b: u32|
                    a < width && (b < j || (b == j && a < i)) implies #[trigger] pixel_index_spec(
                    a,
                    b,
                    width,
                ) < image.len() by {
                    lemma_row_major(a as int, b as int, width as int);
                    if b < j {
                        assert((b + 1) * width <= j * width) by (nonlinear_arith)
                            requires
                                b < j,
                                0 < width,
                        ;
                    }
                }
            }
            image.push(c);
            i = i + 1;
        }
        proof {
            assert((j + 1) * width == j * width + width) by (nonlinear_arith);
        }
        j = j + 1;
    }
    proof {
        assert(j * width == width * height) by (nonlinear_arith)
            requires
                j == height,
        ;
    }
    image
}

} // verus!
