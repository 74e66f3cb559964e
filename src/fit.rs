use vstd::prelude::*;

verus! {

/// Denominator of the fixed-point numbers that configurations carry: a stored
/// value `v` stands for `v / 1_000_000`.
pub const MICRO: u64 = 1_000_000;

/// The exact fraction `num / den`.
#[derive(Debug, Clone, Copy, PartialEq, Eq)]
pub struct Ratio {
    pub num: i64,
    pub den: u64,
}

impl Ratio {
    /// The fraction has a positive denominator.
    pub open spec fn wf(self) -> bool {
        self.den > 0
    }

    /// `self <= o` as numbers (both denominators positive).
    pub open spec fn le(self, o: Ratio) -> bool {
        self.num * o.den <= o.num * self.den
    }

    pub open spec fn is_zero(self) -> bool {
        self.num == 0
    }

    pub open spec fn is_one(self) -> bool {
        self.num == self.den
    }
}

/// The fraction `num / den` of two sizes.
pub open spec fn size_ratio(num: u32, den: u32) -> Ratio {
    Ratio { num: num as i64, den: den as u64 }
}

/// How a source of one size is placed onto a destination canvas.
#[derive(Debug, Clone, Copy, PartialEq, Eq)]
pub enum IoImageFit {
    /// Stretch each axis on its own so that the source covers the canvas exactly.
    Fill,
    /// Keep the aspect ratio; the whole source stays visible.
    Contain,
    /// Keep the aspect ratio; the whole canvas is covered, the source may be clipped.
    Cover,
    /// An explicit placement. Every number is fixed-point in units of `1 / MICRO`:
    /// `translate` in pixels of the canvas, `rotate` in degrees, `scale` as a factor.
    Explicit { translate: (i64, i64), rotate: i64, scale: (i64, i64) },
}

impl IoImageFit {
    /// An explicit placement with the unit scale.
    pub fn explicit(translate: (i64, i64), rotate: i64) -> (r: IoImageFit)
        ensures
            r == (IoImageFit::Explicit { translate, rotate, scale: (MICRO as i64, MICRO as i64) }),
    {
        IoImageFit::Explicit { translate, rotate, scale: (MICRO as i64, MICRO as i64) }
    }
}

impl Default for IoImageFit {
    fn default() -> (r: IoImageFit)
        ensures
            r == IoImageFit::Fill,
    {
        IoImageFit::Fill
    }
}

/// An affine placement read as `T · R · S`: the scale is applied first, then the
/// rotation about the origin (degrees), then the translation (in units of the
/// destination canvas, whose full width and height are 1).
#[derive(Debug, Clone, Copy, PartialEq, Eq)]
pub struct Transform {
    pub translate: (Ratio, Ratio),
    pub rotate: Ratio,
    pub scale: (Ratio, Ratio),
}

impl Transform {
    pub open spec fn wf(self) -> bool {
        self.translate.0.wf() && self.translate.1.wf() && self.rotate.wf() && self.scale.0.wf()
            && self.scale.1.wf()
    }

    /// No translation and no rotation: the placement only scales.
    pub open spec fn is_pure_scale(self) -> bool {
        self.translate.0.is_zero() && self.translate.1.is_zero() && self.rotate.is_zero()
    }

    /// The same factor on both axes.
    pub open spec fn is_uniform(self) -> bool {
        self.scale.0 == self.scale.1
    }

    pub open spec fn is_identity(self) -> bool {
        self.is_pure_scale() && self.scale.0.is_one() && self.scale.1.is_one()
    }

    pub open spec fn scaling(sx: Ratio, sy: Ratio) -> Transform {
        Transform {
            translate: (Ratio { num: 0, den: 1 }, Ratio { num: 0, den: 1 }),
            rotate: Ratio { num: 0, den: 1 },
            scale: (sx, sy),
        }
    }

    /// The placement that leaves a source where it is.
    pub fn identity() -> (r: Transform)
        ensures
            r == Transform::scaling(Ratio { num: 1, den: 1 }, Ratio { num: 1, den: 1 }),
            r.wf(),
            r.is_identity(),
    {
        Transform::from_scale(Ratio { num: 1, den: 1 }, Ratio { num: 1, den: 1 })
    }

    fn from_scale(sx: Ratio, sy: Ratio) -> (r: Transform)
        ensures
            r == Transform::scaling(sx, sy),
    {
        Transform {
            translate: (Ratio { num: 0, den: 1 }, Ratio { num: 0, den: 1 }),
            rotate: Ratio { num: 0, den: 1 },
            scale: (sx, sy),
        }
    }
}

/// The smaller of the two axis ratios `dst_w / src_w` and `dst_h / src_h`.
pub open spec fn contain_scale(src_w: u32, src_h: u32, dst_w: u32, dst_h: u32) -> Ratio {
    if size_ratio(dst_w, src_w).le(size_ratio(dst_h, src_h)) {
        size_ratio(dst_w, src_w)
    } else {
        size_ratio(dst_h, src_h)
    }
}

/// The larger of the two axis ratios `dst_w / src_w` and `dst_h / src_h`.
pub open spec fn cover_scale(src_w: u32, src_h: u32, dst_w: u32, dst_h: u32) -> Ratio {
    if size_ratio(dst_w, src_w).le(size_ratio(dst_h, src_h)) {
        size_ratio(dst_h, src_h)
    } else {
        size_ratio(dst_w, src_w)
    }
}

/// The placement of a `src_w × src_h` source onto a `dst_w × dst_h` canvas.
pub open spec fn placement(fit: IoImageFit, src_w: u32, src_h: u32, dst_w: u32, dst_h: u32) -> Transform {
    match fit {
        IoImageFit::Fill => Transform::scaling(size_ratio(dst_w, src_w), size_ratio(dst_h, src_h)),
        IoImageFit::Contain => {
            let s = contain_scale(src_w, src_h, dst_w, dst_h);
            Transform::scaling(s, s)
        },
        IoImageFit::Cover => {
            let s = cover_scale(src_w, src_h, dst_w, dst_h);
            Transform::scaling(s, s)
        },
        IoImageFit::Explicit { translate, rotate, scale } => Transform {
            translate: (
                Ratio { num: translate.0, den: (MICRO * dst_w) as u64 },
                Ratio { num: translate.1, den: (MICRO * dst_h) as u64 },
            ),
            rotate: Ratio { num: rotate, den: MICRO },
            scale: (Ratio { num: scale.0, den: MICRO }, Ratio { num: scale.1, den: MICRO }),
        },
    }
}

/// Places a `texture_width × texture_height` source onto a
/// `viewport_width × viewport_height` canvas by the policy `fit`.
pub fn fit_to_matrix(
    fit: &IoImageFit,
    texture_width: u32,
    texture_height: u32,
    viewport_width: u32,
    viewport_height: u32,
) -> (r: Transform)
    requires
        texture_width > 0,
        texture_height > 0,
        viewport_width > 0,
        viewport_height > 0,
    ensures
        r == placement(*fit, texture_width, texture_height, viewport_width, viewport_height),
        r.wf(),
        *fit == IoImageFit::Fill ==> r.is_pure_scale() && r.scale == (
            size_ratio(viewport_width, texture_width),
            size_ratio(viewport_height, texture_height),
        ),
        *fit == IoImageFit::Contain || *fit == IoImageFit::Cover ==> r.is_pure_scale()
            && r.is_uniform(),
        *fit == IoImageFit::Contain ==> r.scale.0.le(size_ratio(viewport_width, texture_width))
            && r.scale.0.le(size_ratio(viewport_height, texture_height)),
        *fit == IoImageFit::Cover ==> size_ratio(viewport_width, texture_width).le(r.scale.0)
            && size_ratio(viewport_height, texture_height).le(r.scale.0),
{
    let sx = Ratio { num: viewport_width as i64, den: texture_width as u64 };
    let sy = Ratio { num: viewport_height as i64, den: texture_height as u64 };
    assert((viewport_width as u64) * (texture_height as u64) <= 0xffff_ffff * 0xffff_ffff)
        by (nonlinear_arith)
        requires
            viewport_width <= 0xffff_ffff,
            texture_height <= 0xffff_ffff,
    ;
    assert((viewport_height as u64) * (texture_width as u64) <= 0xffff_ffff * 0xffff_ffff)
        by (nonlinear_arith)
        requires
            viewport_height <= 0xffff_ffff,
            texture_width <= 0xffff_ffff,
    ;
    // `sx <= sy` as numbers, compared by cross-multiplication.
    let x_first = (viewport_width as u64) * (texture_height as u64) <= (viewport_height as u64)
        * (texture_width as u64);
    match fit {
        IoImageFit::Fill => Transform::from_scale(sx, sy),
        IoImageFit::Contain => {
            let s = if x_first {
                sx
            } else {
                sy
            };
            Transform::from_scale(s, s)
        },
        IoImageFit::Cover => {
            let s = if x_first {
                sy
            } else {
                sx
            };
            Transform::from_scale(s, s)
        },
        IoImageFit::Explicit { translate, rotate, scale } => {
            assert(MICRO * viewport_width <= MICRO * 0xffff_ffff) by (nonlinear_arith)
                requires
                    viewport_width <= 0xffff_ffff,
            ;
            assert(MICRO * viewport_height <= MICRO * 0xffff_ffff) by (nonlinear_arith)
                requires
                    viewport_height <= 0xffff_ffff,
            ;
            assert(MICRO * viewport_width > 0) by (nonlinear_arith)
                requires
                    viewport_width > 0,
            ;
            assert(MICRO * viewport_height > 0) by (nonlinear_arith)
                requires
                    viewport_height > 0,
            ;
            Transform {
                translate: (
                    Ratio { num: translate.0, den: MICRO * (viewport_width as u64) },
                    Ratio { num: translate.1, den: MICRO * (viewport_height as u64) },
                ),
                rotate: Ratio { num: *rotate, den: MICRO },
                scale: (Ratio { num: scale.0, den: MICRO }, Ratio { num: scale.1, den: MICRO }),
            }
        },
    }
}

} // verus!
