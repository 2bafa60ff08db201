//! Screenshot preparation: sampling the YUV planes per pixel and naming
//! the output file.
//!
//! The colour conversion itself (BT.601 full range, in floating point)
//! and the PNG write happen outside the library; the library gathers, for
//! every pixel, the three samples the conversion reads, and renders the
//! timestamped file name.

use vstd::prelude::*;

use crate::frame::FrameData;
use vstd::string::StringSliceAdditionalSpecFns;

verus! {

/// Pixel (`row`, `col`) of the gathered buffer carries the Y sample of
/// that pixel and the U and V samples of its half-resolution cell.
pub open spec fn gathered_pixel(out: Seq<u8>, f: FrameData, row: int, col: int) -> bool {
    &&& out[3 * (row * f.width + col)] == f.y_plane@[row * f.y_stride + col]
    &&& out[3 * (row * f.width + col) + 1] == f.u_plane@[(row / 2) * f.uv_stride + col / 2]
    &&& out[3 * (row * f.width + col) + 2] == f.v_plane@[(row / 2) * f.uv_stride + col / 2]
}

/// Gather the three YUV samples of every pixel, row by row: the I420
/// upsampling that precedes colour conversion. Refused when the frame is
/// not packed I420 with even dimensions.
pub fn gather_yuv(frame: &FrameData) -> (r: Option<Vec<u8>>)
    ensures
        r is Some <==> frame.well_formed() && frame.width % 2 == 0 && frame.height % 2 == 0 && 3
            * frame.width * frame.height <= usize::MAX,
        r matches Some(v) ==> {
            &&& v@.len() == 3 * frame.width * frame.height
            &&& forall|row: int, col: int|
                0 <= row < frame.height && 0 <= col < frame.width ==> #[trigger] gathered_pixel(
                    v@,
                    *frame,
                    row,
                    col,
                )
        },
{
    let w = frame.width as usize;
    let h = frame.height as usize;
    let ylen = frame.y_plane.len();
    let ulen = frame.u_plane.len();
    let vlen = frame.v_plane.len();
    if !(frame.y_stride == w && frame.uv_stride == w / 2 && frame.width % 2 == 0 && frame.height
        % 2 == 0) {
        return None;
    }
    let wh = match w.checked_mul(h) {
        Some(p) => p,
        None => {
            return None;
        },
    };
    let uv_len = match (w / 2).checked_mul(h / 2) {
        Some(p) => p,
        None => {
            proof {
                assert((w / 2) * (h / 2) <= w * h) by (nonlinear_arith)
                    requires
                        w >= 0 && h >= 0,
                ;
            }
            return None;
        },
    };
    if !(ylen == wh && ulen == uv_len && vlen == uv_len) {
        return None;
    }
    match 3usize.checked_mul(wh) {
        None => {
            proof {
                assert(3 * (w * h) == 3 * frame.width * frame.height) by (nonlinear_arith)
                    requires
                        w == frame.width && h == frame.height,
                ;
            }
            return None;
        },
        Some(_) => {},
    }
    proof {
        assert(3 * (w * h) == 3 * frame.width * frame.height) by (nonlinear_arith)
            requires
                w == frame.width && h == frame.height,
        ;
    }
    let mut out: Vec<u8> = Vec::new();
    let mut row: usize = 0;
    while row < h
        invariant
            0 <= row <= h,
            w == frame.width,
            h == frame.height,
            frame.well_formed(),
            frame.width % 2 == 0,
            frame.height % 2 == 0,
            3 * (w * h) <= usize::MAX,
            wh == w * h,
            uv_len == (w / 2) * (h / 2),
            out@.len() == 3 * (row * w),
            forall|r0: int, c0: int|
                0 <= r0 < row && 0 <= c0 < w ==> #[trigger] gathered_pixel(out@, *frame, r0, c0),
        decreases h - row,
    {
        proof {
            assert(row / 2 <= h / 2 - 1) by (nonlinear_arith)
                requires
                    0 <= row < h && h % 2 == 0,
            ;
            assert((row / 2) * (w / 2) + w / 2 <= (w / 2) * (h / 2)) by (nonlinear_arith)
                requires
                    row / 2 <= h / 2 - 1 && w >= 0,
            ;
            assert(3 * (row * w) + 3 * w <= 3 * (w * h) && row * w + w <= w * h) by (
            nonlinear_arith)
                requires
                    0 <= row < h && w >= 0,
            ;
            assert((w / 2) * (h / 2) <= w * h) by (nonlinear_arith)
                requires
                    w >= 0 && h >= 0,
            ;
        }
        let mut col: usize = 0;
        while col < w
            invariant
                0 <= col <= w,
                0 <= row < h,
                w == frame.width,
                h == frame.height,
                frame.well_formed(),
                frame.width % 2 == 0,
                3 * (w * h) <= usize::MAX,
                wh == w * h,
                uv_len == (w / 2) * (h / 2),
                3 * (row * w) + 3 * w <= 3 * (w * h),
                (row / 2) * (w / 2) + w / 2 <= (w / 2) * (h / 2),
                row * w + w <= w * h,
                out@.len() == 3 * (row * w) + 3 * col,
                forall|r0: int, c0: int|
                    0 <= r0 < row && 0 <= c0 < w ==> #[trigger] gathered_pixel(
                        out@,
                        *frame,
                        r0,
                        c0,
                    ),
                forall|c0: int|
                    0 <= c0 < col ==> #[trigger] gathered_pixel(out@, *frame, row as int, c0),
            decreases w - col,
        {
            let ghost out_prev = out@;
            proof {
                assert(col / 2 < w / 2) by (nonlinear_arith)
                    requires
                        0 <= col < w && w % 2 == 0,
                ;
            }
            let y = frame.y_plane[row * w + col];
            let u = frame.u_plane[(row / 2) * (w / 2) + col / 2];
            let v = frame.v_plane[(row / 2) * (w / 2) + col / 2];
            out.push(y);
            out.push(u);
            out.push(v);
            col = col + 1;
            proof {
                assert(gathered_pixel(out@, *frame, row as int, col - 1));
                assert forall|r0: int, c0: int|
                    0 <= r0 < row && 0 <= c0 < w implies #[trigger] gathered_pixel(
                    out@,
                    *frame,
                    r0,
                    c0,
                ) by {
                    assert(gathered_pixel(out_prev, *frame, r0, c0));
                    assert(3 * (r0 * w + c0) + 2 < out_prev.len()) by (nonlinear_arith)
                        requires
                            0 <= r0 < row && 0 <= c0 < w && col >= 1 && w >= 1 && out_prev.len()
                                == 3 * (row * w) + 3 * (col - 1),
                    ;
                }
                assert forall|c0: int|
                    0 <= c0 < col implies #[trigger] gathered_pixel(
                    out@,
                    *frame,
                    row as int,
                    c0,
                ) by {
                    if c0 < col - 1 {
                        assert(gathered_pixel(out_prev, *frame, row as int, c0));
                        assert(3 * (row * w + c0) + 2 < out_prev.len()) by (nonlinear_arith)
                            requires
                                0 <= c0 < col - 1 && out_prev.len() == 3 * (row * w) + 3 * (col
                                    - 1),
                        ;
                    }
                }
            }
        }
        row = row + 1;
        proof {
            assert(out@.len() == 3 * (row * w)) by (nonlinear_arith)
                requires
                    out@.len() == 3 * ((row - 1) * w) + 3 * w,
            ;
        }
    }
    proof {
        assert(out@.len() == 3 * frame.width * frame.height) by (nonlinear_arith)
            requires
                out@.len() == 3 * (h * w) && w == frame.width && h == frame.height,
        ;
    }
    Some(out)
}

/// The digits of `n`, zero-padded on the left to two places.
pub open spec fn pad2(n: nat) -> Seq<u8>
    recommends
        n < 100,
{
    seq![(48 + n / 10) as u8, (48 + n % 10) as u8]
}

/// The digits of `n`, zero-padded on the left to four places.
pub open spec fn pad4(n: nat) -> Seq<u8>
    recommends
        n < 10000,
{
    seq![
        (48 + n / 1000) as u8,
        (48 + (n / 100) % 10) as u8,
        (48 + (n / 10) % 10) as u8,
        (48 + n % 10) as u8,
    ]
}

/// The screenshot file name for a local timestamp:
/// `screenshot_YYYYMMDD_HHMMSS.png`.
pub open spec fn screenshot_name(year: nat, month: nat, day: nat, hour: nat, minute: nat, second:
    nat) -> Seq<u8> {
    "screenshot_".spec_bytes() + pad4(year) + pad2(month) + pad2(day) + "_".spec_bytes() + pad2(
        hour,
    ) + pad2(minute) + pad2(second) + ".png".spec_bytes()
}

/// Append `n` zero-padded to two places.
fn push_pad2(v: &mut Vec<u8>, n: u32)
    requires
        n < 100,
    ensures
        final(v)@ == old(v)@ + pad2(n as nat),
{
    v.push(48 + (n / 10) as u8);
    v.push(48 + (n % 10) as u8);
    proof {
        assert(v@ =~= old(v)@ + pad2(n as nat));
    }
}

/// Render the screenshot file name for a local timestamp.
pub fn screenshot_filename(year: u32, month: u32, day: u32, hour: u32, minute: u32, second: u32)
    -> (r: Vec<u8>)
    requires
        year < 10000,
        month < 100,
        day < 100,
        hour < 100,
        minute < 100,
        second < 100,
    ensures
        r@ == screenshot_name(
            year as nat,
            month as nat,
            day as nat,
            hour as nat,
            minute as nat,
            second as nat,
        ),
{
    let mut v: Vec<u8> = Vec::new();
    v.extend_from_slice("screenshot_".as_bytes());
    v.push(48 + (year / 1000) as u8);
    v.push(48 + ((year / 100) % 10) as u8);
    v.push(48 + ((year / 10) % 10) as u8);
    v.push(48 + (year % 10) as u8);
    push_pad2(&mut v, month);
    push_pad2(&mut v, day);
    v.extend_from_slice("_".as_bytes());
    push_pad2(&mut v, hour);
    push_pad2(&mut v, minute);
    push_pad2(&mut v, second);
    v.extend_from_slice(".png".as_bytes());
    proof {
        assert(v@ =~= screenshot_name(
            year as nat,
            month as nat,
            day as nat,
            hour as nat,
            minute as nat,
            second as nat,
        ));
    }
    v
}

} // verus!
