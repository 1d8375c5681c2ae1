//! The renderer: for each pixel, average the scene colours of several
//! jittered rays, scale to 8-bit channels, and write into the image buffer.

use vstd::prelude::*;
use crate::fixed::{SCALE, HALF_SCALE, tdiv};
use crate::math::{V3, v3_add, v3_zero};
use crate::util::Color;
use crate::camera::{Camera, spec_generate_dir};
use crate::scene::{Scene, spec_scene_color};
use crate::image::{Image, Rgb};

verus! {

/// Samples per pixel in the reference configuration.
pub const ITERATIONS_PER_PIXEL: u32 = 100;

/// The thread-local random generator of the rand crate.
#[verifier::external_type_specification]
#[verifier::external_body]
pub struct ExThreadRng(rand::rngs::ThreadRng);

/// Relies on rand::rng: a handle to the thread-local generator.
#[verifier::external_body]
fn new_rng() -> rand::rngs::ThreadRng {
    rand::rng()
}

/// Relies on RngExt::random_range over `lo..hi`: a sample within the given
/// non-empty range.  Nothing more can be promised of a random value.
#[verifier::external_body]
fn random_in_range(rng: &mut rand::rngs::ThreadRng, lo: i128, hi: i128) -> (r: i128)
    requires
        lo < hi,
    ensures
        lo <= r < hi,
{
    rand::RngExt::random_range(rng, lo..hi)
}

/// A non-negative sum of `n` addends, each at most `b`, divides by `n` into
/// `[0, b]`.
proof fn lemma_avg_le(a: int, n: int, b: int) by (nonlinear_arith)
    requires
        0 <= a <= n * b,
        1 <= n,
        0 <= b,
    ensures
        0 <= a / n <= b,
{
}

/// A sub-pixel jitter pair, each offset within half a pixel.
pub open spec fn jitter_in_range(j: (int, int)) -> bool {
    -(HALF_SCALE as int) <= j.0 < HALF_SCALE as int && -(HALF_SCALE as int) <= j.1
        < HALF_SCALE as int
}

/// One colour channel of a pixel: the channel sum averaged over the sample
/// count, scaled to 8 bits and truncated.
pub open spec fn byte_of(sum: int, samples: int) -> int {
    tdiv(tdiv(sum, samples) * 255, SCALE as int)
}

/// Drives the pixel loop over an immutable camera and scene.
pub struct Renderer {
    pub camera: Camera,
    pub scene: Scene,
}

impl Renderer {
    /// Camera and scene are both valid.
    pub open spec fn wf(self) -> bool {
        self.camera.wf() && self.scene.wf()
    }

    pub fn new(c: Camera, s: Scene) -> (r: Renderer)
        ensures
            r.camera == c,
            r.scene == s,
    {
        Renderer { camera: c, scene: s }
    }

    /// The colour of the sample ray through the fractional pixel
    /// coordinates `(row, col)`.
    pub open spec fn spec_sample(self, row: int, col: int) -> V3 {
        spec_scene_color(
            self.scene.lights@,
            self.scene.objects@,
            self.camera.position@,
            spec_generate_dir(self.camera, row, col),
        )
    }

    /// The channelwise sum of the sample colours of pixel `(i, j)` at the
    /// given jitter offsets.
    pub open spec fn sample_sum(self, i: int, j: int, js: Seq<(int, int)>) -> V3
        decreases js.len(),
    {
        if js.len() == 0 {
            v3_zero()
        } else {
            v3_add(
                self.sample_sum(i, j, js.drop_last()),
                self.spec_sample(
                    i * (SCALE as int) + js.last().0,
                    j * (SCALE as int) + js.last().1,
                ),
            )
        }
    }

    /// The pixel value of `(i, j)` at the given jitter offsets: each
    /// channel the truncated 8-bit average of its samples.
    pub open spec fn spec_pixel(self, i: int, j: int, js: Seq<(int, int)>, samples: int) -> Rgb {
        let sum = self.sample_sum(i, j, js);
        Rgb {
            r: byte_of(sum.x, samples) as u8,
            g: byte_of(sum.y, samples) as u8,
            b: byte_of(sum.z, samples) as u8,
        }
    }

    /// The pixel value arose from `samples` in-range jitter pairs: what
    /// holds of every outcome of the sampling, however the jitters were
    /// drawn, and nothing a constant image could satisfy on a lit scene.
    pub open spec fn pixel_sampled(self, p: Rgb, i: int, j: int, samples: int) -> bool {
        exists|js: Seq<(int, int)>|
            #![trigger self.spec_pixel(i, j, js, samples)]
            js.len() == samples && (forall|k: int|
                0 <= k < js.len() ==> jitter_in_range(#[trigger] js[k])) && p == self.spec_pixel(
                i,
                j,
                js,
                samples,
            )
    }

    /// Trace one sample: generate the ray, resolve it against the scene.
    pub fn sample_pixel(&self, row: i128, col: i128) -> (c: Color)
        requires
            self.wf(),
            -self.camera.screen_dimensions.height <= row + HALF_SCALE
                <= self.camera.screen_dimensions.height,
            -self.camera.screen_dimensions.width <= col + HALF_SCALE
                <= self.camera.screen_dimensions.width,
        ensures
            c@ == self.spec_sample(row as int, col as int),
            0 <= c@.x <= SCALE as int,
            0 <= c@.y <= SCALE as int,
            0 <= c@.z <= SCALE as int,
    {
        let ray = self.camera.generate_ray(row, col);
        self.scene.compute_color(&ray)
    }

    /// Render a `height` by `width` image with the given number of jittered
    /// samples per pixel.  Each pixel is the truncated 8-bit average of the
    /// scene colours of its own jittered rays, independent of every other
    /// pixel; a scene without primitives yields the black background at
    /// every pixel, whatever the jitter.
    #[verifier::loop_isolation(false)]
    #[verifier::rlimit(50)]
    pub fn render(&self, height: usize, width: usize, samples: u32) -> (img: Image)
        requires
            self.wf(),
            samples >= 1,
            (height as int) * (SCALE as int) <= self.camera.screen_dimensions.height,
            (width as int) * (SCALE as int) <= self.camera.screen_dimensions.width,
        ensures
            img.wf(),
            img.height == height,
            img.width == width,
            forall|i: int, j: int|
                0 <= i < height && 0 <= j < width ==> self.pixel_sampled(
                    #[trigger] img.pixel(i, j),
                    i,
                    j,
                    samples as int,
                ),
            self.scene.objects@.len() == 0 ==> forall|i: int, j: int|
                0 <= i < height && 0 <= j < width ==> img.pixel(i, j) == (Rgb { r: 0, g: 0, b: 0 }),
    {
        let mut rng = new_rng();
        let mut image = Image::new(height, width);
        let mut i: usize = 0;
        while i < height
            invariant
                0 <= i <= height,
                image.wf(),
                image.height == height,
                image.width == width,
                forall|a: int, b: int|
                    0 <= a < i && 0 <= b < width ==> self.pixel_sampled(
                        #[trigger] image.pixel(a, b),
                        a,
                        b,
                        samples as int,
                    ),
                self.scene.objects@.len() == 0 ==> forall|a: int, b: int|
                    0 <= a < height && 0 <= b < width ==> image.pixel(a, b) == (Rgb {
                        r: 0,
                        g: 0,
                        b: 0,
                    }),
            decreases height - i,
        {
            let mut j: usize = 0;
            while j < width
                invariant
                    0 <= i < height,
                    0 <= j <= width,
                    image.wf(),
                    image.height == height,
                    image.width == width,
                    forall|a: int, b: int|
                        (0 <= a < i && 0 <= b < width) || (a == i && 0 <= b < j)
                            ==> self.pixel_sampled(
                            #[trigger] image.pixel(a, b),
                            a,
                            b,
                            samples as int,
                        ),
                    self.scene.objects@.len() == 0 ==> forall|a: int, b: int|
                        0 <= a < height && 0 <= b < width ==> image.pixel(a, b) == (Rgb {
                            r: 0,
                            g: 0,
                            b: 0,
                        }),
                decreases width - j,
            {
                let mut sum_pixel_color = Color::new(0, 0, 0);
                let ghost mut jitters: Seq<(int, int)> = Seq::empty();
                let mut k: u32 = 0;
                while k < samples
                    invariant
                        0 <= k <= samples,
                        0 <= i < height,
                        0 <= j < width,
                        jitters.len() == k,
                        forall|t: int| 0 <= t < jitters.len() ==> jitter_in_range(#[trigger] jitters[t]),
                        sum_pixel_color@ == self.sample_sum(i as int, j as int, jitters),
                        0 <= sum_pixel_color@.x <= k * (SCALE as int),
                        0 <= sum_pixel_color@.y <= k * (SCALE as int),
                        0 <= sum_pixel_color@.z <= k * (SCALE as int),
                        self.scene.objects@.len() == 0 ==> sum_pixel_color@ == (V3 {
                            x: 0,
                            y: 0,
                            z: 0,
                        }),
                    decreases samples - k,
                {
                    let jitter_r = random_in_range(&mut rng, -HALF_SCALE, HALF_SCALE);
                    let jitter_c = random_in_range(&mut rng, -HALF_SCALE, HALF_SCALE);
                    let row = (i as i128) * SCALE + jitter_r;
                    let col = (j as i128) * SCALE + jitter_c;
                    let sample = self.sample_pixel(row, col);
                    sum_pixel_color.add_assign(sample);
                    proof {
                        let prev = jitters;
                        jitters = jitters.push((jitter_r as int, jitter_c as int));
                        assert(jitters.drop_last() =~= prev);
                        assert(jitters.last() == (jitter_r as int, jitter_c as int));
                        assert(sum_pixel_color@ == self.sample_sum(i as int, j as int, jitters));
                    }
                    k = k + 1;
                }
                let average_pixel_color = sum_pixel_color.div_by(samples);
                proof {
                    lemma_avg_le(sum_pixel_color@.x, samples as int, SCALE as int);
                    lemma_avg_le(sum_pixel_color@.y, samples as int, SCALE as int);
                    lemma_avg_le(sum_pixel_color@.z, samples as int, SCALE as int);
                }
                let pr = ((average_pixel_color.r * 255) / SCALE) as u8;
                let pg = ((average_pixel_color.g * 255) / SCALE) as u8;
                let pb = ((average_pixel_color.b * 255) / SCALE) as u8;
                proof {
                    let sum = self.sample_sum(i as int, j as int, jitters);
                    assert(pr == byte_of(sum.x, samples as int) as u8);
                    assert(pg == byte_of(sum.y, samples as int) as u8);
                    assert(pb == byte_of(sum.z, samples as int) as u8);
                    assert((Rgb { r: pr, g: pg, b: pb }) == self.spec_pixel(
                        i as int,
                        j as int,
                        jitters,
                        samples as int,
                    ));
                    assert(self.pixel_sampled(
                        (Rgb { r: pr, g: pg, b: pb }),
                        i as int,
                        j as int,
                        samples as int,
                    ));
                }
                image.set_pixel(i, j, Rgb { r: pr, g: pg, b: pb });
                j = j + 1;
            }
            i = i + 1;
        }
        image
    }
}

} // verus!
