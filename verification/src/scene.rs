//! The scene and its integrator: per-pixel stochastic sampling, recursive
//! light transport, and row-parallel image assembly.
//!
//! Every render task's random source is seeded as a pure function of the
//! scene seed and the row index, so the image is a deterministic function
//! of the scene value alone.

use rayon::iter::{IndexedParallelIterator, IntoParallelIterator, ParallelIterator};

use vstd::prelude::*;

use crate::camera::{get_ray_spec, Camera};
use crate::colour::channel_value;
use crate::fixed::{fx_add, fx_div, fx_sqrt, fxadd, fxdiv, fxsqrt, FX_MAX, ONE};
use crate::interval::Interval;
use crate::material::{scatter_spec, Behaviour};
use crate::object::{list_hit_spec, HittableList};
use crate::ray::Ray;
use crate::rng::{row_seed, Rng};
use crate::vec3::{vadd, vdiv, vmul, Vec3};
use crate::Colour;

verus! {

/// The closest hit counts only from slightly past the ray origin, so a
/// scattered ray does not strike the surface it just left.
pub const TRACE_MIN: i64 = 66;

/// A scene: the world, a camera, render parameters and a background. Built
/// once, then read-only while rendering.
pub struct Scene {
    pub world: HittableList,
    pub camera: Camera,
    pub max_depth: usize,
    pub samples_per_pixel: usize,
    pub image_width: usize,
    pub image_height: usize,
    pub background: Colour,
    pub seed: u64,
}

/// Dimensions and sampling counts the renderer accepts: small enough that
/// pixel coordinates stay within the scalar range.
pub open spec fn scene_wf(s: Scene) -> bool {
    2 <= s.image_width <= 1048576 && 2 <= s.image_height <= 1048576 && 1 <= s.samples_per_pixel
        <= 1048576
}

/// The colour carried back along a ray: emitted light plus attenuated
/// recursion on scatter, the background on a miss, black at the depth
/// limit.
pub open spec fn ray_colour_spec(
    world: HittableList,
    background: Colour,
    r: Ray,
    depth: nat,
    s: u64,
) -> (Colour, u64)
    decreases depth,
{
    if depth == 0 {
        (Vec3 { x: 0i64, y: 0i64, z: 0i64 }, s)
    } else {
        let q = list_hit_spec(
            world.objects@,
            0,
            r,
            TRACE_MIN,
            FX_MAX,
            None,
            s,
        );
        match q.0 {
            None => (background, q.1),
            Some(hitrec) => {
                let emitted = crate::material::emitted_spec(
                    *hitrec.mat,
                    hitrec.u as int,
                    hitrec.v as int,
                    hitrec.point,
                );
                let sc = scatter_spec(*hitrec.mat, r, hitrec, q.1);
                match sc.0.behaviour {
                    Behaviour::Scatter => {
                        let rest = ray_colour_spec(
                            world,
                            background,
                            sc.0.scattered,
                            (depth - 1) as nat,
                            sc.1,
                        );
                        (vadd(emitted, vmul(sc.0.attenuation, rest.0)), rest.1)
                    },
                    Behaviour::Absorb => (emitted, sc.1),
                }
            },
        }
    }
}

/// The colour gathered by one pixel sample at `(row, col)`.
pub open spec fn pixel_sample_spec(sc: Scene, row: int, col: int, s: u64) -> (Colour, u64) {
    let u = fxdiv(fxadd(col * ONE, crate::rng::rng_unit(s) as int), (sc.image_width - 1) * ONE);
    let s1 = crate::rng::rng_next(s);
    let v = fxdiv(fxadd(row * ONE, crate::rng::rng_unit(s1) as int), (sc.image_height - 1) * ONE);
    let s2 = crate::rng::rng_next(s1);
    let rq = get_ray_spec(sc.camera, u, v, s2);
    ray_colour_spec(sc.world, sc.background, rq.0, sc.max_depth as nat, rq.1)
}

/// The sum of the first `k` samples of a pixel, and the state left behind.
pub open spec fn pixel_sum_spec(sc: Scene, row: int, col: int, k: nat, s: u64) -> (Colour, u64)
    decreases k,
{
    if k == 0 {
        (Vec3 { x: 0i64, y: 0i64, z: 0i64 }, s)
    } else {
        let prev = pixel_sum_spec(sc, row, col, (k - 1) as nat, s);
        let this = pixel_sample_spec(sc, row, col, prev.1);
        (vadd(prev.0, this.0), this.1)
    }
}

/// One channel after averaging, gamma-2 encoding and eight-bit scaling.
pub open spec fn gamma_byte(x: int) -> u8 {
    let g = channel_value(fxsqrt(x));
    if g > 255 {
        255u8
    } else {
        g as u8
    }
}

/// The three bytes of a pixel.
pub open spec fn pixel_bytes_spec(sc: Scene, row: int, col: int, s: u64) -> ((u8, u8, u8), u64) {
    let sum = pixel_sum_spec(sc, row, col, sc.samples_per_pixel as nat, s);
    let avg = vdiv(sum.0, sc.samples_per_pixel * ONE);
    ((gamma_byte(avg.x as int), gamma_byte(avg.y as int), gamma_byte(avg.z as int)), sum.1)
}

/// The bytes of the first `k` pixels of a row, left to right.
pub open spec fn row_prefix_spec(sc: Scene, row: int, k: nat) -> (Seq<u8>, u64)
    decreases k,
{
    if k == 0 {
        (Seq::empty(), row_seed(sc.seed, row as u64))
    } else {
        let prev = row_prefix_spec(sc, row, (k - 1) as nat);
        let px = pixel_bytes_spec(sc, row, k - 1, prev.1);
        (prev.0.push(px.0.0).push(px.0.1).push(px.0.2), px.1)
    }
}

/// The bytes of one image row.
pub open spec fn row_bytes_spec(sc: Scene, row: int) -> Seq<u8> {
    row_prefix_spec(sc, row, sc.image_width as nat).0
}

/// The bytes of the first `k` image rows, top first.
pub open spec fn image_prefix_spec(sc: Scene, k: nat) -> Seq<u8>
    decreases k,
{
    if k == 0 {
        Seq::empty()
    } else {
        image_prefix_spec(sc, (k - 1) as nat) + row_bytes_spec(sc, k - 1)
    }
}

/// The whole image: `3 * width * height` bytes, row-major, top row first.
pub open spec fn image_bytes_spec(sc: Scene) -> Seq<u8> {
    image_prefix_spec(sc, sc.image_height as nat)
}

/// Relies on rayon's indexed parallel iterators: `collect` on a mapped
/// range keeps index order, so row `i` of the result is `render_row(i)`,
/// whose own contract pins its bytes.
#[verifier::external_body]
fn par_render_rows(sc: &Scene) -> (rows: Vec<Vec<u8>>)
    requires
        scene_wf(*sc),
    ensures
        rows@.len() == sc.image_height,
        forall|i: int|
            0 <= i < rows@.len() ==> (#[trigger] rows@[i])@ == row_bytes_spec(*sc, i)
                && rows@[i]@.len() == 3 * sc.image_width,
{
    (0..sc.image_height).into_par_iter().map(|row| sc.render_row(row)).collect()
}

impl Scene {
    /// A scene over a world and a camera, with the given depth limit,
    /// per-pixel sample count, image size and background colour. The seed
    /// starts at zero; `with_seed` picks another stream.
    pub fn new(
        world: HittableList,
        camera: Camera,
        max_depth: usize,
        samples_per_pixel: usize,
        image_width: usize,
        image_height: usize,
        background: Colour,
    ) -> (r: Self)
        requires
            2 <= image_width <= 1048576,
            2 <= image_height <= 1048576,
            1 <= samples_per_pixel <= 1048576,
        ensures
            r == (Scene {
                world,
                camera,
                max_depth,
                samples_per_pixel,
                image_width,
                image_height,
                background,
                seed: 0u64,
            }),
            scene_wf(r),
    {
        Scene {
            world,
            camera,
            max_depth,
            samples_per_pixel,
            image_width,
            image_height,
            background,
            seed: 0,
        }
    }

    /// The same scene drawing from another seed.
    pub fn with_seed(self, seed: u64) -> (r: Self)
        ensures
            r == (Scene { seed, ..self }),
    {
        Scene { seed, ..self }
    }

    /// The colour carried back along a ray, to the given remaining depth.
    fn ray_colour(&self, r: &Ray, depth: usize, rng: &mut Rng) -> (res: Colour)
        ensures
            ({
                let q = ray_colour_spec(
                    self.world,
                    self.background,
                    *r,
                    depth as nat,
                    old(rng)@,
                );
                res == q.0 && final (rng)@ == q.1
            }),
        decreases depth,
    {
        if depth == 0 {
            return Vec3::zeros();
        }
        match self.world.hit(r, &Interval::new(TRACE_MIN, FX_MAX), rng) {
            Some(hitrec) => {
                let emitted = hitrec.mat.emitted(hitrec.u, hitrec.v, &hitrec.point);
                let scatter_result = hitrec.mat.scatter(r, &hitrec, rng);
                match scatter_result.behaviour {
                    Behaviour::Scatter => {
                        let rest = self.ray_colour(&scatter_result.scattered, depth - 1, rng);
                        emitted.add(scatter_result.attenuation.mul(rest))
                    },
                    Behaviour::Absorb => emitted,
                }
            },
            None => self.background,
        }
    }

    /// The three bytes of one pixel: samples averaged, gamma-2 encoded.
    pub fn render_pixel(&self, row: usize, col: usize, rng: &mut Rng) -> (res: (u8, u8, u8))
        requires
            scene_wf(*self),
            row < self.image_height,
            col < self.image_width,
        ensures
            ({
                let q = pixel_bytes_spec(*self, row as int, col as int, old(rng)@);
                res == q.0 && final (rng)@ == q.1
            }),
    {
        let mut pixel_colour = Vec3::zeros();
        let mut k: usize = 0;
        let ghost s0 = rng@;
        while k < self.samples_per_pixel
            invariant
                scene_wf(*self),
                row < self.image_height,
                col < self.image_width,
                k <= self.samples_per_pixel,
                (pixel_colour, rng@) == pixel_sum_spec(
                    *self,
                    row as int,
                    col as int,
                    k as nat,
                    s0,
                ),
            decreases self.samples_per_pixel - k,
        {
            let ju = rng.next_unit();
            let u = fx_div(fx_add((col as i64) * ONE, ju), ((self.image_width - 1) as i64) * ONE);
            let jv = rng.next_unit();
            let v = fx_div(fx_add((row as i64) * ONE, jv), ((self.image_height - 1) as i64) * ONE);
            let r = self.camera.get_ray(u, v, rng);
            let sample = self.ray_colour(&r, self.max_depth, rng);
            pixel_colour = pixel_colour.add(sample);
            k = k + 1;
        }
        let avg = pixel_colour.div_s((self.samples_per_pixel as i64) * ONE);
        (gamma_channel(avg.x), gamma_channel(avg.y), gamma_channel(avg.z))
    }

    /// The bytes of one image row, left to right.
    pub fn render_row(&self, row: usize) -> (out: Vec<u8>)
        requires
            scene_wf(*self),
            row < self.image_height,
        ensures
            out@ == row_bytes_spec(*self, row as int),
            out@.len() == 3 * self.image_width,
    {
        let mut rng = Rng::for_row(self.seed, row as u64);
        let mut out: Vec<u8> = Vec::new();
        let mut col: usize = 0;
        while col < self.image_width
            invariant
                scene_wf(*self),
                row < self.image_height,
                col <= self.image_width,
                (out@, rng@) == row_prefix_spec(*self, row as int, col as nat),
                out@.len() == 3 * col,
            decreases self.image_width - col,
        {
            let (r, g, b) = self.render_pixel(row, col, &mut rng);
            out.push(r);
            out.push(g);
            out.push(b);
            col = col + 1;
        }
        out
    }

    /// Render the whole image into the buffer: `3 * width * height` bytes,
    /// row-major, three bytes per pixel, top row first. The result is a
    /// pure function of the scene value, so rendering twice writes the
    /// same bytes.
    #[verifier::rlimit(80)]
    #[verifier::spinoff_prover]
    pub fn render(&self, pixel_buffer: &mut Vec<u8>)
        requires
            scene_wf(*self),
        ensures
            final (pixel_buffer)@ == image_bytes_spec(*self),
            final (pixel_buffer)@.len() == 3 * self.image_width * self.image_height,
    {
        let mut rows = par_render_rows(self);
        pixel_buffer.clear();
        let mut i: usize = 0;
        let ghost all = rows@;
        proof {
            assert(0 * 3 * self.image_width == 0) by (nonlinear_arith);
        }
        while i < rows.len()
            invariant
                scene_wf(*self),
                rows@ == all,
                all.len() == self.image_height,
                forall|j: int|
                    0 <= j < all.len() ==> (#[trigger] all[j])@ == row_bytes_spec(*self, j)
                        && all[j]@.len() == 3 * self.image_width,
                i <= all.len(),
                pixel_buffer@ == image_prefix_spec(*self, i as nat),
                pixel_buffer@.len() == i * 3 * self.image_width,
            decreases rows.len() - i,
        {
            let row = &rows[i];
            let mut j: usize = 0;
            while j < row.len()
                invariant
                    0 <= i < all.len(),
                    rows@ == all,
                    row@ == all[i as int]@,
                    j <= row@.len(),
                    pixel_buffer@ == image_prefix_spec(*self, i as nat) + row@.subrange(
                        0,
                        j as int,
                    ),
                decreases row.len() - j,
            {
                pixel_buffer.push(row[j]);
                j = j + 1;
            }
            proof {
                assert(row@.subrange(0, row@.len() as int) =~= row@);
                assert(image_prefix_spec(*self, (i + 1) as nat) =~= image_prefix_spec(
                    *self,
                    i as nat,
                ) + row@);
                assert((i + 1) * 3 * self.image_width == i * 3 * self.image_width + 3
                    * self.image_width) by (nonlinear_arith);
            }
            i = i + 1;
        }
        proof {
            assert(pixel_buffer@.len() == self.image_height * 3 * self.image_width);
            assert(self.image_height * 3 * self.image_width == 3 * self.image_width
                * self.image_height) by (nonlinear_arith);
        }
    }
}

/// Round-trip determinism: the image is a pure function of the scene
/// value, so rendering a scene twice from its injected seeded source
/// yields byte-identical output.
pub proof fn lemma_render_deterministic(a: Scene, b: Scene)
    requires
        a == b,
    ensures
        image_bytes_spec(a) == image_bytes_spec(b),
{
}

/// One channel after gamma-2 encoding, clamped into a byte.
fn gamma_channel(x: i64) -> (r: u8)
    ensures
        r == gamma_byte(x as int),
{
    let root = fx_sqrt(x);
    let wide: u128 = (root as u128) * 255999;
    let q: u128 = wide / 65536000;
    proof {
        assert(crate::fixed::sabs(root as int * 255999) == root as int * 255999 && crate::fixed::sabs(
            root as int * 255999,
        ) / (1000 * ONE) == wide / 65536000) by (nonlinear_arith)
            requires
                0 <= root,
                wide == root as int * 255999,
        ;
    }
    if q > 255 {
        255
    } else {
        q as u8
    }
}

} // verus!
