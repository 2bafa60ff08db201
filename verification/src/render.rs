//! Renderer geometry: the aspect-fit uniform and the window sizing rule.
//!
//! The GPU pipeline letterboxes the video inside the surface by scaling a
//! fullscreen quad with a two-component vector. The library computes that
//! vector as an exact rational in each axis; the caller divides numerator
//! by denominator when it fills the uniform buffer.

use vstd::prelude::*;

verus! {

/// The aspect-fit scale vector, each axis an exact fraction.
pub struct AspectScale {
    pub x_num: u64,
    pub x_den: u64,
    pub y_num: u64,
    pub y_den: u64,
}

impl AspectScale {
    /// Denominators are positive and each axis is at most one.
    pub open spec fn inv(self) -> bool {
        &&& self.x_den > 0
        &&& self.y_den > 0
        &&& self.x_num <= self.x_den
        &&& self.y_num <= self.y_den
    }
}

/// Compute the aspect-fit scale. With frame aspect `w/h` and surface
/// aspect `sw/sh`: a frame wider than the surface keeps `x` at one and
/// shrinks `y` to `(sw*h)/(sh*w)`; otherwise `y` stays at one and `x`
/// shrinks to `(w*sh)/(h*sw)`.
pub fn calculate_aspect_scale(frame_w: u32, frame_h: u32, surface_w: u32, surface_h: u32) -> (r:
    AspectScale)
    requires
        frame_w > 0,
        frame_h > 0,
        surface_w > 0,
        surface_h > 0,
    ensures
        r.inv(),
        frame_w * surface_h > surface_w * frame_h ==> {
            &&& r.x_num == 1
            &&& r.x_den == 1
            &&& r.y_num == surface_w * frame_h
            &&& r.y_den == surface_h * frame_w
        },
        frame_w * surface_h <= surface_w * frame_h ==> {
            &&& r.x_num == frame_w * surface_h
            &&& r.x_den == frame_h * surface_w
            &&& r.y_num == 1
            &&& r.y_den == 1
        },
{
    let fw = frame_w as u64;
    let fh = frame_h as u64;
    let sw = surface_w as u64;
    let sh = surface_h as u64;
    proof {
        assert(fw * sh <= u64::MAX && sw * fh <= u64::MAX && fh * sw <= u64::MAX && sh * fw
            <= u64::MAX) by (nonlinear_arith)
            requires
                fw <= u32::MAX && fh <= u32::MAX && sw <= u32::MAX && sh <= u32::MAX,
        ;
    }
    proof {
        assert(sh * fw > 0 && fh * sw > 0 && sh * fw == fw * sh && fh * sw == sw * fh) by (
        nonlinear_arith)
            requires
                fw > 0 && fh > 0 && sw > 0 && sh > 0,
        ;
    }
    if fw * sh > sw * fh {
        AspectScale { x_num: 1, x_den: 1, y_num: sw * fh, y_den: sh * fw }
    } else {
        AspectScale { x_num: fw * sh, x_den: fh * sw, y_num: 1, y_den: 1 }
    }
}

/// Aspect fit: one axis of the scale vector is exactly one, both axes are
/// at most one, and the smaller axis equals the ratio of the smaller to
/// the larger of the two aspect ratios — stated cross-multiplied, with
/// `w*sh` standing for the frame aspect and `sw*h` for the surface aspect.
pub proof fn lemma_aspect_fit(frame_w: u32, frame_h: u32, surface_w: u32, surface_h: u32, r:
    AspectScale)
    requires
        frame_w > 0,
        frame_h > 0,
        surface_w > 0,
        surface_h > 0,
        frame_w * surface_h > surface_w * frame_h ==> {
            &&& r.x_num == 1
            &&& r.x_den == 1
            &&& r.y_num == surface_w * frame_h
            &&& r.y_den == surface_h * frame_w
        },
        frame_w * surface_h <= surface_w * frame_h ==> {
            &&& r.x_num == frame_w * surface_h
            &&& r.x_den == frame_h * surface_w
            &&& r.y_num == 1
            &&& r.y_den == 1
        },
    ensures
        // max(scale) = 1: one axis is the fraction one, and no axis is above one.
        (r.x_num == r.x_den) || (r.y_num == r.y_den),
        r.x_num <= r.x_den,
        r.y_num <= r.y_den,
        // min(scale) = min(aspect) / max(aspect), as an exact fraction.
        ({
            let fa = frame_w * surface_h;  // frame aspect, scaled by h*sh
            let sa = surface_w * frame_h;  // surface aspect, scaled by h*sh
            let lo = if fa <= sa {
                fa
            } else {
                sa
            };
            let hi = if fa <= sa {
                sa
            } else {
                fa
            };
            let (mn, md) = if r.x_num == r.x_den {
                (r.y_num as int, r.y_den as int)
            } else {
                (r.x_num as int, r.x_den as int)
            };
            mn * hi == lo * md
        }),
{
    let fa = frame_w * surface_h;
    let sa = surface_w * frame_h;
    if fa > sa {
        assert(r.y_num * fa == sa * r.y_den) by (nonlinear_arith)
            requires
                r.y_num == sa && r.y_den == fa,
        ;
    } else {
        assert(r.x_num * sa == fa * r.x_den) by (nonlinear_arith)
            requires
                r.x_num == fa && r.x_den == sa,
        ;
        if r.x_num == r.x_den {
            assert(r.y_num * sa == fa * r.y_den) by (nonlinear_arith)
                requires
                    r.y_num == 1 && r.y_den == 1 && fa == sa,
            ;
        }
    }
}

/// The window size the host asks for: the frame size, shrunk so that the
/// logical height never exceeds 800.
pub fn window_logical_size(frame_w: u32, frame_h: u32) -> (r: (u32, u32))
    requires
        frame_w > 0,
        frame_h > 0,
    ensures
        frame_h <= 800 ==> r == (frame_w, frame_h),
        frame_h > 800 ==> r.0 == frame_w * 800 / (frame_h as int) && r.1 == 800,
        r.0 <= frame_w,
        r.1 <= 800 || r.1 == frame_h,
{
    if frame_h > 800 {
        let w = (frame_w as u64 * 800) / (frame_h as u64);
        proof {
            assert(frame_w as u64 * 800 / (frame_h as int) <= frame_w) by (nonlinear_arith)
                requires
                    frame_h > 800,
            ;
        }
        ((w as u32), 800)
    } else {
        (frame_w, frame_h)
    }
}


/// A swapchain presentation mode, in the host's preference order.
#[derive(Clone, Copy, PartialEq, Eq, Structural, Debug)]
pub enum PresentMode {
    /// Triple-buffered, lowest latency without tearing.
    Mailbox,
    /// Unsynchronised, may tear.
    Immediate,
    /// Vertical sync; always available.
    Fifo,
}

/// Choose the presentation mode: mailbox over immediate over fifo,
/// falling back to whatever is supported.
pub fn choose_present_mode(supports_mailbox: bool, supports_immediate: bool) -> (r: PresentMode)
    ensures
        supports_mailbox ==> r == PresentMode::Mailbox,
        !supports_mailbox && supports_immediate ==> r == PresentMode::Immediate,
        !supports_mailbox && !supports_immediate ==> r == PresentMode::Fifo,
{
    if supports_mailbox {
        PresentMode::Mailbox
    } else if supports_immediate {
        PresentMode::Immediate
    } else {
        PresentMode::Fifo
    }
}

/// Choose the surface format: the first format that is not sRGB, else the
/// first format. Video pixels arrive gamma-encoded, so an sRGB surface
/// would correct them twice. Formats are presented by their sRGB flag, in
/// the order the adapter lists them.
pub fn choose_surface_format(srgb_flags: &Vec<bool>) -> (r: usize)
    requires
        srgb_flags@.len() > 0,
    ensures
        r < srgb_flags@.len(),
        (exists|i: int| 0 <= i < srgb_flags@.len() && !srgb_flags@[i]) ==> !srgb_flags@[r as int]
            && (forall|i: int| 0 <= i < r ==> srgb_flags@[i]),
        (forall|i: int| 0 <= i < srgb_flags@.len() ==> srgb_flags@[i]) ==> r == 0,
{
    let mut i: usize = 0;
    while i < srgb_flags.len()
        invariant
            0 <= i <= srgb_flags@.len(),
            forall|j: int| 0 <= j < i ==> srgb_flags@[j],
        decreases srgb_flags@.len() - i,
    {
        if !srgb_flags[i] {
            return i;
        }
        i = i + 1;
    }
    0
}

/// What the render loop does about a failed swapchain acquire.
#[derive(Clone, Copy, PartialEq, Eq, Structural, Debug)]
pub enum SurfaceErrorKind {
    /// The surface no longer matches the window.
    Outdated,
    /// The surface was lost.
    Lost,
    /// The acquire timed out.
    Timeout,
    /// Any other failure.
    Other,
}

/// The recovery decision for a failed acquire.
#[derive(Clone, Copy, PartialEq, Eq, Structural, Debug)]
pub enum SurfaceErrorAction {
    /// Reconfigure the surface and skip this frame; recoverable.
    ReconfigureAndSkip,
    /// Surface the error to the caller.
    Fail,
}

/// An outdated surface is reconfigured and the frame skipped; a lost or
/// timed-out surface is an error for the caller.
pub fn surface_error_action(e: SurfaceErrorKind) -> (r: SurfaceErrorAction)
    ensures
        r == SurfaceErrorAction::ReconfigureAndSkip <==> e == SurfaceErrorKind::Outdated,
{
    match e {
        SurfaceErrorKind::Outdated => SurfaceErrorAction::ReconfigureAndSkip,
        SurfaceErrorKind::Lost => SurfaceErrorAction::Fail,
        SurfaceErrorKind::Timeout => SurfaceErrorAction::Fail,
        SurfaceErrorKind::Other => SurfaceErrorAction::Fail,
    }
}

} // verus!
