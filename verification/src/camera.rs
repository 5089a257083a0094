//! The camera: what it is set to, the order in which it visits the image,
//! and how far it follows a ray.

use vstd::prelude::*;
use crate::scalar::Scalar;
use crate::vec3::{Vec3, Point3};
use crate::interval::Interval;
use crate::color::{decimal, push_decimal};

verus! {

/// The encoding of 0.001: a bounced ray meets nothing nearer than this, so
/// that it does not meet the surface it left.
pub const SHADOW_BIAS_BITS: u64 = 0x3f50_624d_d2f1_a9fc;

/// The encoding of 180, the bound of the field of view in degrees.
pub const HALF_TURN_BITS: u64 = 0x4066_8000_0000_0000;

/// The encoding of -1.
pub const MINUS_ONE_BITS: u64 = 0xbff0_0000_0000_0000;

/// The first setting that a camera cannot render with.
#[derive(Clone, Copy, Debug, PartialEq, Eq, Structural)]
pub enum ConfigError {
    AspectRatio,
    ImageWidth,
    SamplesPerPixel,
    MaxDepth,
    FieldOfView,
    FocusDistance,
}

#[derive(Clone, Copy, Debug)]
pub struct Camera {
    pub aspect_ratio: Scalar,
    pub img_width: i32,
    pub img_height: i32,
    pub samples_per_pixel: i32,
    pub max_depth: i32,
    pub vfov: Scalar,
    pub lookfrom: Point3,
    pub lookat: Point3,
    pub vup: Vec3,
    pub defocus_angle: Scalar,
    pub focus_dist: Scalar,
}

impl Camera {
    /// The first setting, in the order of the fields, that is out of its
    /// range: the aspect ratio and the focus distance are above zero, the
    /// width and the samples per pixel at least 1, the depth at least 0, the
    /// field of view strictly between 0 and 180 degrees.
    pub open spec fn first_violation(&self) -> Option<ConfigError> {
        if !Scalar::spec_zero().spec_lt(self.aspect_ratio) {
            Some(ConfigError::AspectRatio)
        } else if self.img_width < 1 {
            Some(ConfigError::ImageWidth)
        } else if self.samples_per_pixel < 1 {
            Some(ConfigError::SamplesPerPixel)
        } else if self.max_depth < 0 {
            Some(ConfigError::MaxDepth)
        } else if !(Scalar::spec_zero().spec_lt(self.vfov) && self.vfov.spec_lt(
            Scalar { bits: HALF_TURN_BITS },
        )) {
            Some(ConfigError::FieldOfView)
        } else if !Scalar::spec_zero().spec_lt(self.focus_dist) {
            Some(ConfigError::FocusDistance)
        } else {
            None
        }
    }

    /// The height of the image for a width over the aspect ratio of
    /// `quotient`: its whole part, but at least 1 and at most what fits.
    pub open spec fn height_for(quotient: Scalar) -> int {
        let whole = quotient.spec_truncate(0);
        if whole < 1 {
            1
        } else if whole > i32::MAX {
            i32::MAX as int
        } else {
            whole
        }
    }

    /// Whether rays start on the lens rather than at its centre: not where
    /// the defocus angle is zero or less.
    pub open spec fn spec_uses_lens(&self) -> bool {
        !self.defocus_angle.spec_le(Scalar::spec_zero())
    }

    /// A camera at the origin that looks down the negative z axis, with y
    /// up, no lens, and no height or focus distance yet.
    pub fn new(aspect_ratio: Scalar, img_width: i32, samples_per_pixel: i32, max_depth: i32, vfov: Scalar) -> (cam: Camera)
        ensures
            cam.aspect_ratio == aspect_ratio,
            cam.img_width == img_width,
            cam.img_height == 0,
            cam.samples_per_pixel == samples_per_pixel,
            cam.max_depth == max_depth,
            cam.vfov == vfov,
            cam.lookfrom == Vec3::spec_new_empty(),
            cam.lookat == (Vec3 {
                e0: Scalar::spec_zero(),
                e1: Scalar::spec_zero(),
                e2: Scalar { bits: MINUS_ONE_BITS },
            }),
            cam.vup == (Vec3 { e0: Scalar::spec_zero(), e1: Scalar::spec_one(), e2: Scalar::spec_zero() }),
            cam.defocus_angle == Scalar::spec_zero(),
            cam.focus_dist == Scalar::spec_zero(),
    {
        Camera {
            aspect_ratio,
            img_width,
            img_height: 0,
            samples_per_pixel,
            max_depth,
            vfov,
            lookfrom: Vec3::new_empty(),
            lookat: Vec3::new(Scalar::zero(), Scalar::zero(), Scalar::from_bits(MINUS_ONE_BITS)),
            vup: Vec3::new(Scalar::zero(), Scalar::one(), Scalar::zero()),
            defocus_angle: Scalar::zero(),
            focus_dist: Scalar::zero(),
        }
    }

    /// Whether this camera can render, and if not, what is first in the way.
    pub fn validate(&self) -> (r: Result<(), ConfigError>)
        ensures
            r is Ok <==> self.first_violation() is None,
            r matches Err(e) ==> self.first_violation() == Some(e),
    {
        let zero = Scalar::zero();
        if !zero.lt(self.aspect_ratio) {
            Err(ConfigError::AspectRatio)
        } else if self.img_width < 1 {
            Err(ConfigError::ImageWidth)
        } else if self.samples_per_pixel < 1 {
            Err(ConfigError::SamplesPerPixel)
        } else if self.max_depth < 0 {
            Err(ConfigError::MaxDepth)
        } else if !(zero.lt(self.vfov) && self.vfov.lt(Scalar::from_bits(HALF_TURN_BITS))) {
            Err(ConfigError::FieldOfView)
        } else if !zero.lt(self.focus_dist) {
            Err(ConfigError::FocusDistance)
        } else {
            Ok(())
        }
    }

    /// Sets the height of the image. `quotient` is the width over the
    /// aspect ratio.
    pub fn init(&mut self, quotient: Scalar)
        ensures
            final(self).img_height == Camera::height_for(quotient),
            final(self).img_height >= 1,
            *final(self) == (Camera { img_height: final(self).img_height, ..*old(self) }),
    {
        let whole = quotient.truncate(0);
        self.img_height = if whole < 1 {
            1
        } else if whole > i32::MAX as u64 {
            i32::MAX
        } else {
            whole as i32
        };
    }

    #[verifier::when_used_as_spec(spec_uses_lens)]
    pub fn uses_lens(&self) -> (r: bool)
        ensures
            r == self.spec_uses_lens(),
    {
        !self.defocus_angle.le(Scalar::zero())
    }

    /// The walk over this camera's image, before its first pixel. A width or
    /// a height below zero counts as zero.
    pub fn scan(&self) -> (scan: Scan)
        ensures
            scan.spec_width() == (if self.img_width < 0 { 0 } else { self.img_width as int }),
            scan.spec_height() == (if self.img_height < 0 { 0 } else { self.img_height as int }),
            scan.spec_done() == 0,
    {
        let width = if self.img_width < 0 { 0 } else { self.img_width as u32 };
        let height = if self.img_height < 0 { 0 } else { self.img_height as u32 };
        Scan::new(width, height)
    }

    /// The path of a ray that leaves this camera: it may cast as many rays
    /// as the depth allows.
    pub fn trace(&self) -> (t: Trace)
        ensures
            t == Trace::begins(self.max_depth as int),
    {
        Trace::start(self.max_depth)
    }
}

/// The parameters at which a traced ray may meet a surface: above 0.001,
/// without end.
pub open spec fn spec_trace_range() -> Interval {
    Interval { min: Scalar { bits: SHADOW_BIAS_BITS }, max: Scalar::spec_infinity() }
}

#[verifier::when_used_as_spec(spec_trace_range)]
pub fn trace_range() -> (r: Interval)
    ensures
        r == spec_trace_range(),
{
    Interval::new(Scalar::from_bits(SHADOW_BIAS_BITS), Scalar::infinity())
}

/// The head of the image's text: the two characters that name the plain
/// pixmap format, the width and the height, and the largest value of a
/// channel, each on a line.
pub open spec fn ppm_header(width: nat, height: nat) -> Seq<u8> {
    seq![80u8, 51u8, 10u8] + decimal(width) + seq![32u8] + decimal(height) + seq![
        10u8,
        50u8,
        53u8,
        53u8,
        10u8,
    ]
}

/// Appends the head of the image's text.
pub fn write_header(width: u32, height: u32, out: &mut Vec<u8>)
    ensures
        final(out)@ == old(out)@ + ppm_header(width as nat, height as nat),
{
    out.push(80);
    out.push(51);
    out.push(10);
    push_decimal(out, width as u64);
    out.push(32);
    push_decimal(out, height as u64);
    out.push(10);
    out.push(50);
    out.push(53);
    out.push(53);
    out.push(10);
}

/// The walk over the image: row by row from the top, each row from the
/// left.
#[derive(Clone, Copy, Debug)]
pub struct Scan {
    width: u32,
    height: u32,
    done: u64,
}

impl Scan {
    pub closed spec fn spec_width(&self) -> nat {
        self.width as nat
    }

    pub closed spec fn spec_height(&self) -> nat {
        self.height as nat
    }

    /// How many pixels were handed out.
    pub closed spec fn spec_done(&self) -> nat {
        self.done as nat
    }

    /// The walk before its first pixel.
    pub fn new(width: u32, height: u32) -> (scan: Scan)
        ensures
            scan.spec_width() == width,
            scan.spec_height() == height,
            scan.spec_done() == 0,
    {
        Scan { width, height, done: 0 }
    }

    pub fn done(&self) -> (n: u64)
        ensures
            n == self.spec_done(),
    {
        self.done
    }

    /// The next pixel, as column and row, until every pixel was handed out:
    /// pixel `k` is column `k mod width` of row `k div width`.
    pub fn next(&mut self) -> (pixel: Option<(u32, u32)>)
        ensures
            final(self).spec_width() == old(self).spec_width(),
            final(self).spec_height() == old(self).spec_height(),
            old(self).spec_done() < old(self).spec_width() * old(self).spec_height() ==> pixel == Some(
                (
                    (old(self).spec_done() % old(self).spec_width()) as u32,
                    (old(self).spec_done() / old(self).spec_width()) as u32,
                ),
            ) && final(self).spec_done() == old(self).spec_done() + 1,
            old(self).spec_done() >= old(self).spec_width() * old(self).spec_height() ==> pixel is None
                && final(self).spec_done() == old(self).spec_done(),
    {
        assert(self.width * self.height <= 0xffff_ffff * 0xffff_ffff) by (nonlinear_arith)
            requires
                self.width <= 0xffff_ffff,
                self.height <= 0xffff_ffff,
        ;
        let total = (self.width as u64) * (self.height as u64);
        if self.done < total {
            assert(self.width > 0) by (nonlinear_arith)
                requires
                    self.done < self.width * self.height,
            ;
            let w = self.width as u64;
            let x = self.done % w;
            let y = self.done / w;
            assert(y < self.height) by (nonlinear_arith)
                requires
                    self.done < w * self.height,
                    y == self.done / w,
                    w > 0,
            ;
            self.done = self.done + 1;
            Some((x as u32, y as u32))
        } else {
            None
        }
    }
}

/// The walk reaches every pixel, and each in its turn: the pixel in column
/// `x` of row `y` is pixel `y * width + x` of the walk, after every pixel of
/// the rows above it and every pixel to its left.
pub proof fn lemma_scan_reaches_every_pixel(width: nat, height: nat, x: nat, y: nat)
    requires
        x < width,
        y < height,
    ensures
        y * width + x < width * height,
        (y * width + x) % width == x,
        (y * width + x) / width == y,
{
    assert(y * width + x < width * height) by (nonlinear_arith)
        requires
            x < width,
            y < height,
    ;
    vstd::arithmetic::div_mod::lemma_fundamental_div_mod_converse(
        (y * width + x) as int,
        width as int,
        y as int,
        x as int,
    );
    vstd::arithmetic::mul::lemma_mul_is_commutative(y as int, width as int);
}

/// What a cast ray came to.
#[derive(Clone, Copy, Debug, PartialEq, Eq, Structural)]
pub enum Event {
    /// It met no surface.
    Miss,
    /// It met a surface that took all its light.
    Absorbed,
    /// It met a surface that sent it on.
    Scattered,
}

/// What a path ends in, before the surfaces on its way take their share.
#[derive(Clone, Copy, Debug, PartialEq, Eq, Structural)]
pub enum Shade {
    Black,
    Background,
}

/// The state of a path: a ray is to be cast, with `depth` rays left to cast,
/// this one included; or the path has ended.
#[derive(Clone, Copy, Debug, PartialEq, Eq, Structural)]
pub enum Trace {
    Casting { depth: i32 },
    Finished(Shade),
}

impl Trace {
    /// A path that may cast `max_depth` rays: with none to cast it ends in
    /// black at once.
    pub open spec fn begins(max_depth: int) -> Trace {
        if max_depth <= 0 {
            Trace::Finished(Shade::Black)
        } else {
            Trace::Casting { depth: max_depth as i32 }
        }
    }

    /// The path after its ray came to `event`: a miss ends it in the
    /// background, an absorbing surface in black, and a scattered ray goes
    /// on with one ray fewer to cast. A path that has ended stays as it is.
    pub open spec fn after(self, event: Event) -> Trace {
        match self {
            Trace::Finished(shade) => Trace::Finished(shade),
            Trace::Casting { depth } => match event {
                Event::Miss => Trace::Finished(Shade::Background),
                Event::Absorbed => Trace::Finished(Shade::Black),
                Event::Scattered => Trace::begins(depth - 1),
            },
        }
    }

    /// The rays that are cast while the path meets `events` one by one.
    pub open spec fn casts(self, events: Seq<Event>) -> nat
        decreases events.len(),
    {
        match self {
            Trace::Finished(_) => 0,
            Trace::Casting { .. } => if events.len() == 0 {
                1
            } else {
                1 + self.after(events[0]).casts(events.drop_first())
            },
        }
    }

    pub fn start(max_depth: i32) -> (t: Trace)
        ensures
            t == Trace::begins(max_depth as int),
    {
        if max_depth <= 0 {
            Trace::Finished(Shade::Black)
        } else {
            Trace::Casting { depth: max_depth }
        }
    }

    pub fn resume(self, event: Event) -> (t: Trace)
        ensures
            t == self.after(event),
    {
        match self {
            Trace::Finished(shade) => Trace::Finished(shade),
            Trace::Casting { depth } => match event {
                Event::Miss => Trace::Finished(Shade::Background),
                Event::Absorbed => Trace::Finished(Shade::Black),
                Event::Scattered => if depth <= 1 {
                    Trace::Finished(Shade::Black)
                } else {
                    Trace::Casting { depth: depth - 1 }
                },
            },
        }
    }
}

/// A path casts no more rays than its depth allows, whatever it meets.
pub proof fn lemma_depth_bounds_casts(max_depth: i32, events: Seq<Event>)
    ensures
        Trace::begins(max_depth as int).casts(events) <= (if max_depth <= 0 {
            0
        } else {
            max_depth as int
        }),
    decreases events.len(),
{
    if max_depth > 0 && events.len() > 0 {
        let t = Trace::begins(max_depth as int);
        match events[0] {
            Event::Scattered => {
                lemma_depth_bounds_casts((max_depth - 1) as i32, events.drop_first());
            },
            _ => {
                assert(t.after(events[0]).casts(events.drop_first()) == 0);
            },
        }
    }
}

} // verus!
