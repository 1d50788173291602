//! Colour sources: pure functions of `(u, v, point)`.

use std::sync::Arc;

use vstd::prelude::*;

use crate::fixed::{fx_div, fx_emod, fx_mul, fxdiv, fxmul, sabs, ONE};
use crate::noise::{turb, turbulence};
use crate::vec3::{vscale, Vec3};
use crate::{Colour, Point3};

verus! {

/// Relies on `alloc::sync::Arc::clone`: the clone shares the same
/// allocation, so it carries the very value the original does.
#[verifier::external_body]
pub fn arc_clone<T>(v: &Arc<T>) -> (res: Arc<T>)
    ensures
        res == *v,
{
    Arc::clone(v)
}

/// A texture that ignores its inputs and returns one colour.
pub struct SolidColour {
    pub value: Colour,
}

/// Alternating cubes of two sub-textures.
pub struct CheckerTexture {
    pub inv_scale: i64,
    pub even: Arc<Texture>,
    pub odd: Arc<Texture>,
}

/// A decoded raster image sampled by clamped nearest pixel.
pub struct ImageTexture {
    pub buf: Vec<u8>,
    pub width: usize,
    pub height: usize,
    pub bytes_per_pixel: usize,
}

/// Multi-octave coherent noise.
pub struct NoiseTexture {
    pub scale: i64,
}

/// A colour source: a pure function of `(u, v, point)`.
pub enum Texture {
    Solid(SolidColour),
    Checker(CheckerTexture),
    Image(ImageTexture),
    Noise(NoiseTexture),
}

/// The colour an image texture yields at `(u, v)`: `u` and `1 - v` are
/// clamped into the unit square and scaled to pixel coordinates; a pixel
/// outside the buffer (an ill-formed texture) yields black.
pub open spec fn image_value(t: ImageTexture, u: int, v: int) -> Colour {
    let uc = if u < 0 {
        0
    } else if u > ONE {
        ONE as int
    } else {
        u
    };
    let vraw = if v < 0 {
        0
    } else if v > ONE {
        ONE as int
    } else {
        v
    };
    let vc = ONE - vraw;
    let i0 = (uc * t.width) / (ONE as int);
    let j0 = (vc * t.height) / (ONE as int);
    let i = if i0 >= t.width {
        t.width - 1
    } else {
        i0
    };
    let j = if j0 >= t.height {
        t.height - 1
    } else {
        j0
    };
    let offset = t.bytes_per_pixel * (j * t.width + i);
    if t.width == 0 || t.height == 0 || offset + 3 > t.buf.len() {
        Vec3 { x: 0i64, y: 0i64, z: 0i64 }
    } else {
        Vec3 {
            x: fxdiv(t.buf[offset] * ONE, 255 * ONE) as i64,
            y: fxdiv(t.buf[offset + 1] * ONE, 255 * ONE) as i64,
            z: fxdiv(t.buf[offset + 2] * ONE, 255 * ONE) as i64,
        }
    }
}

/// The colour a texture yields at `(u, v, p)`.
pub open spec fn texture_value(t: Texture, u: int, v: int, p: Point3) -> Colour
    decreases t,
{
    match t {
        Texture::Solid(s) => s.value,
        Texture::Checker(c) => {
            let xq = fxmul(c.inv_scale as int, p.x as int) / (ONE as int);
            let yq = fxmul(c.inv_scale as int, p.y as int) / (ONE as int);
            let zq = fxmul(c.inv_scale as int, p.z as int) / (ONE as int);
            if (xq + yq + zq) % 2 == 0 {
                texture_value(*c.even, u, v, p)
            } else {
                texture_value(*c.odd, u, v, p)
            }
        },
        Texture::Image(img) => image_value(img, u, v),
        Texture::Noise(n) => vscale(
            Vec3 { x: ONE, y: ONE, z: ONE },
            turbulence(vscale(p, n.scale as int)),
        ),
    }
}

impl SolidColour {
    /// A texture with one fixed colour.
    pub fn new(value: Colour) -> (r: Self)
        ensures
            r == (SolidColour { value }),
    {
        SolidColour { value }
    }

    /// The colour, everywhere.
    pub fn get_value(&self, u: i64, v: i64, p: &Point3) -> (r: Colour)
        ensures
            r == texture_value(Texture::Solid(*self), u as int, v as int, *p),
    {
        self.value
    }
}

impl CheckerTexture {
    /// Alternating cubes of side `scale` showing the two sub-textures.
    pub fn new(scale: i64, even: Arc<Texture>, odd: Arc<Texture>) -> (r: Self)
        ensures
            r == (CheckerTexture { inv_scale: fxdiv(ONE as int, scale as int) as i64, even, odd }),
    {
        CheckerTexture { inv_scale: fx_div(ONE, scale), even, odd }
    }

    /// Alternating cubes of two solid colours.
    pub fn from_colours(scale: i64, even: Colour, odd: Colour) -> (r: Self)
        ensures
            r == (CheckerTexture {
                inv_scale: fxdiv(ONE as int, scale as int) as i64,
                even: Arc::new(Texture::Solid(SolidColour { value: even })),
                odd: Arc::new(Texture::Solid(SolidColour { value: odd })),
            }),
    {
        CheckerTexture {
            inv_scale: fx_div(ONE, scale),
            even: Arc::new(Texture::Solid(SolidColour::new(even))),
            odd: Arc::new(Texture::Solid(SolidColour::new(odd))),
        }
    }

    /// The sub-texture owning the cube that contains the point.
    pub fn get_value(&self, u: i64, v: i64, p: &Point3) -> (r: Colour)
        ensures
            r == texture_value(Texture::Checker(*self), u as int, v as int, *p),
    {
        let (xq, _) = crate::noise::floor_frac(fx_mul(self.inv_scale, p.x));
        let (yq, _) = crate::noise::floor_frac(fx_mul(self.inv_scale, p.y));
        let (zq, _) = crate::noise::floor_frac(fx_mul(self.inv_scale, p.z));
        let sum = xq + yq + zq;
        if fx_emod(sum, 2) == 0 {
            texture_get_value(&self.even, u, v, p)
        } else {
            texture_get_value(&self.odd, u, v, p)
        }
    }
}

/// The colour a texture yields at `(u, v, p)`. A free function so the
/// checker can recurse through its shared sub-textures.
pub fn texture_get_value(t: &Texture, u: i64, v: i64, p: &Point3) -> (r: Colour)
    ensures
        r == texture_value(*t, u as int, v as int, *p),
    decreases *t,
{
    match t {
        Texture::Solid(s) => s.get_value(u, v, p),
        Texture::Checker(c) => {
            let (xq, _) = crate::noise::floor_frac(fx_mul(c.inv_scale, p.x));
            let (yq, _) = crate::noise::floor_frac(fx_mul(c.inv_scale, p.y));
            let (zq, _) = crate::noise::floor_frac(fx_mul(c.inv_scale, p.z));
            let sum = xq + yq + zq;
            if fx_emod(sum, 2) == 0 {
                texture_get_value(&c.even, u, v, p)
            } else {
                texture_get_value(&c.odd, u, v, p)
            }
        },
        Texture::Image(img) => img.get_value(u, v, p),
        Texture::Noise(n) => n.get_value(u, v, p),
    }
}

impl ImageTexture {
    /// An image texture over decoded pixel data, row-major from the top
    /// row, `bytes_per_pixel` channel bytes per pixel. Rejects dimensions
    /// that do not describe the buffer.
    pub fn new(buf: Vec<u8>, width: usize, height: usize, bytes_per_pixel: usize) -> (r: Option<
        Self,
    >)
        ensures
            r is Some <==> width * height * bytes_per_pixel == buf.len() && bytes_per_pixel >= 3
                && width > 0 && height > 0,
            r matches Some(t) ==> t == (ImageTexture { buf, width, height, bytes_per_pixel }),
    {
        proof {
            assert(width as int * height as int <= 0xFFFF_FFFF_FFFF_FFFFu128 as int
                * 0xFFFF_FFFF_FFFF_FFFFu128 as int) by (nonlinear_arith)
                requires
                    width <= 0xFFFF_FFFF_FFFF_FFFFu128 as int,
                    height <= 0xFFFF_FFFF_FFFF_FFFFu128 as int,
            ;
        }
        let wh: u128 = (width as u128) * (height as u128);
        let small = wh <= 0xFFFF_FFFF_FFFF_FFFFu128;
        proof {
            if small {
                assert(wh * bytes_per_pixel <= 0xFFFF_FFFF_FFFF_FFFFu128 as int
                    * 0xFFFF_FFFF_FFFF_FFFFu128 as int) by (nonlinear_arith)
                    requires
                        0 <= wh <= 0xFFFF_FFFF_FFFF_FFFFu128 as int,
                        0 <= bytes_per_pixel <= 0xFFFF_FFFF_FFFF_FFFFu128 as int,
                ;
            } else {
                // An oversized pixel grid can never match the buffer.
                assert(wh * bytes_per_pixel > buf.len() || bytes_per_pixel == 0)
                    by (nonlinear_arith)
                    requires
                        wh > 0xFFFF_FFFF_FFFF_FFFFu128 as int,
                        buf.len() <= 0xFFFF_FFFF_FFFF_FFFFu128 as int,
                        bytes_per_pixel >= 0,
                ;
            }
            assert(width as int * height as int * bytes_per_pixel as int == wh * bytes_per_pixel)
                by (nonlinear_arith)
                requires
                    wh == width as int * height as int,
            ;
        }
        let ok = width > 0 && height > 0 && bytes_per_pixel >= 3 && small && wh * (
        bytes_per_pixel as u128) == buf.len() as u128;
        if ok {
            Some(ImageTexture { buf, width, height, bytes_per_pixel })
        } else {
            None
        }
    }

    /// The clamped nearest pixel under the standard image mapping.
    pub fn get_value(&self, u: i64, v: i64, _p: &Point3) -> (r: Colour)
        ensures
            r == image_value(*self, u as int, v as int),
    {
        let uc: i64 = if u < 0 {
            0
        } else if u > ONE {
            ONE
        } else {
            u
        };
        let vraw: i64 = if v < 0 {
            0
        } else if v > ONE {
            ONE
        } else {
            v
        };
        let vc: i64 = ONE - vraw;
        proof {
            assert(uc as int * self.width as int <= 65536 * (0xFFFF_FFFF_FFFF_FFFFu128 as int)
                && 0 <= uc as int * self.width as int && (uc as int * self.width as int) / 65536
                <= self.width) by (nonlinear_arith)
                requires
                    0 <= uc <= 65536,
                    0 <= self.width <= 0xFFFF_FFFF_FFFF_FFFFu128 as int,
            ;
            assert(vc as int * self.height as int <= 65536 * (0xFFFF_FFFF_FFFF_FFFFu128 as int)
                && 0 <= vc as int * self.height as int && (vc as int * self.height as int) / 65536
                <= self.height) by (nonlinear_arith)
                requires
                    0 <= vc <= 65536,
                    0 <= self.height <= 0xFFFF_FFFF_FFFF_FFFFu128 as int,
            ;
        }
        let i0: u128 = ((uc as u128) * (self.width as u128)) / 65536;
        let j0: u128 = ((vc as u128) * (self.height as u128)) / 65536;
        let i: u128 = if self.width > 0 && i0 >= self.width as u128 {
            (self.width - 1) as u128
        } else {
            i0
        };
        let j: u128 = if self.height > 0 && j0 >= self.height as u128 {
            (self.height - 1) as u128
        } else {
            j0
        };
        proof {
            let big = 0xFFFF_FFFF_FFFF_FFFFu128 as int;
            assert(0 <= j * (self.width as int) && j * (self.width as int) + i <= big * big + big)
                by (nonlinear_arith)
                requires
                    0 <= j <= big,
                    0 <= i <= big,
                    0 <= self.width <= big,
            ;
        }
        let jwi: u128 = j * (self.width as u128) + i;
        let offset: u128 = if self.bytes_per_pixel == 0 {
            0
        } else if jwi > 0xFFFF_FFFF_FFFF_FFFFu128 {
            proof {
                assert(self.bytes_per_pixel as int * jwi >= jwi) by (nonlinear_arith)
                    requires
                        self.bytes_per_pixel >= 1,
                        jwi >= 0,
                ;
            }
            return Vec3::zeros();
        } else {
            proof {
                let big = 0xFFFF_FFFF_FFFF_FFFFu128 as int;
                assert(self.bytes_per_pixel as int * jwi <= big * big) by (nonlinear_arith)
                    requires
                        0 <= self.bytes_per_pixel <= big,
                        0 <= jwi <= big,
                ;
            }
            (self.bytes_per_pixel as u128) * jwi
        };
        proof {
            if self.width > 0 && self.height > 0 {
                let w = self.width as int;
                let h = self.height as int;
                let b = self.bytes_per_pixel as int;
                let si0 = (uc as int * w) / (ONE as int);
                let sj0 = (vc as int * h) / (ONE as int);
                assert(i0 as int == si0 && j0 as int == sj0);
                let si = if si0 >= w {
                    w - 1
                } else {
                    si0
                };
                let sj = if sj0 >= h {
                    h - 1
                } else {
                    sj0
                };
                assert(i as int == si && j as int == sj);
                assert(jwi as int == sj * w + si);
                if b == 0 {
                    assert(b * (sj * w + si) == 0) by (nonlinear_arith)
                        requires
                            b == 0,
                    ;
                } else {
                    assert(b * (sj * w + si) == offset) by (nonlinear_arith)
                        requires
                            offset == b * jwi,
                            jwi == sj * w + si,
                    ;
                }
            }
        }
        if self.width == 0 || self.height == 0 || offset + 3 > self.buf.len() as u128 {
            Vec3::zeros()
        } else {
            let o = offset as usize;
            let px = self.buf[o];
            let py = self.buf[o + 1];
            let pz = self.buf[o + 2];
            Vec3 {
                x: fx_div((px as i64) * ONE, 255 * ONE),
                y: fx_div((py as i64) * ONE, 255 * ONE),
                z: fx_div((pz as i64) * ONE, 255 * ONE),
            }
        }
    }
}

impl NoiseTexture {
    /// A unit-scale noise texture.
    pub fn new() -> (r: Self)
        ensures
            r == (NoiseTexture { scale: ONE }),
    {
        NoiseTexture { scale: ONE }
    }

    /// A noise texture with the given spatial scale.
    pub fn with_scale(scale: i64) -> (r: Self)
        ensures
            r == (NoiseTexture { scale }),
    {
        NoiseTexture { scale }
    }

    /// White modulated by turbulence at the scaled point.
    pub fn get_value(&self, _u: i64, _v: i64, p: &Point3) -> (r: Colour)
        ensures
            r == texture_value(Texture::Noise(NoiseTexture { scale: self.scale }), 0, 0, *p),
    {
        let t = turb(p.scale(self.scale));
        Vec3::new(ONE, ONE, ONE).scale(t)
    }
}

/// Well-formedness of a texture: every solid colour it can yield has its
/// channels inside `[0, 1]`.
pub open spec fn wf_texture(t: Texture) -> bool
    decreases t,
{
    match t {
        Texture::Solid(s) => 0 <= s.value.x <= ONE && 0 <= s.value.y <= ONE && 0 <= s.value.z
            <= ONE,
        Texture::Checker(c) => wf_texture(*c.even) && wf_texture(*c.odd),
        Texture::Image(_) => true,
        Texture::Noise(_) => true,
    }
}

/// A well-formed texture only yields colours with channels in `[0, 1]`.
pub proof fn lemma_texture_value_bounded(t: &Texture, u: int, v: int, p: Point3)
    requires
        wf_texture(*t),
    ensures
        0 <= texture_value(*t, u, v, p).x <= ONE,
        0 <= texture_value(*t, u, v, p).y <= ONE,
        0 <= texture_value(*t, u, v, p).z <= ONE,
    decreases *t,
{
    match t {
        Texture::Solid(_) => {},
        Texture::Checker(c) => {
            lemma_texture_value_bounded(&c.even, u, v, p);
            lemma_texture_value_bounded(&c.odd, u, v, p);
        },
        Texture::Image(img) => {
            lemma_image_channel_bounded(img, u, v);
        },
        Texture::Noise(n) => {
            let q = vscale(p, n.scale as int);
            crate::noise::lemma_turbulence_bound(q);
            assert(fxmul(ONE as int, turbulence(q)) == turbulence(q)) by (nonlinear_arith)
                requires
                    0 <= turbulence(q) <= ONE,
            ;
        },
    }
}

/// Each channel an image texture yields is in `[0, 1]`.
proof fn lemma_image_channel_bounded(img: &ImageTexture, u: int, v: int)
    ensures
        0 <= image_value(*img, u, v).x <= ONE,
        0 <= image_value(*img, u, v).y <= ONE,
        0 <= image_value(*img, u, v).z <= ONE,
{
    let img = *img;
    let val = image_value(img, u, v);
    if !(img.width == 0 || img.height == 0) {
        let uc = if u < 0 {
            0
        } else if u > ONE {
            ONE as int
        } else {
            u
        };
        let vraw = if v < 0 {
            0
        } else if v > ONE {
            ONE as int
        } else {
            v
        };
        let vc = ONE - vraw;
        let i0 = (uc * img.width) / (ONE as int);
        let j0 = (vc * img.height) / (ONE as int);
        let i = if i0 >= img.width {
            img.width - 1
        } else {
            i0
        };
        let j = if j0 >= img.height {
            img.height - 1
        } else {
            j0
        };
        let offset = img.bytes_per_pixel * (j * img.width + i);
        if offset + 3 <= img.buf.len() {
            lemma_px_bounded(img.buf[offset]);
            lemma_px_bounded(img.buf[offset + 1]);
            lemma_px_bounded(img.buf[offset + 2]);
        }
    }
}

/// One channel byte scales into `[0, 1]`.
proof fn lemma_px_bounded(px: u8)
    ensures
        0 <= fxdiv(px * ONE, 255 * ONE) <= ONE,
{
    crate::fixed::lemma_fxdiv_le(px * ONE, 255 * ONE, 255 * ONE);
    assert((16711680int * 65536) / 16711680 == 65536) by (nonlinear_arith);
    assert(px * ONE >= 0 && sabs(px * ONE) <= 255 * ONE) by (nonlinear_arith)
        requires
            0 <= px <= 255,
    ;
}

} // verus!
