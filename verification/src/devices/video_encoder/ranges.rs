//! The ranges a codec declares, and the sizes, crops and rates held to them.
use vstd::arithmetic::div_mod::lemma_fundamental_div_mod;
use vstd::prelude::*;

verus! {

/// The frame rate a session starts at, and what a fraction that is no rate asks for.
pub const DEFAULT_FRAME_RATE: u32 = 30;

/// The smallest bitstream buffer a client may size; a smaller or absent size gets the default.
pub const MIN_BITSTREAM_SIZE: u32 = 0x1_0000;

/// Floor of the default bitstream buffer size.
pub const DEFAULT_BITSTREAM_FLOOR: u32 = 0x4_0000;

/// Floor of the largest bitstream buffer a client may size.
pub const BITSTREAM_CAP_FLOOR: u32 = 0x40_0000;

/// The larger of two numbers.
pub open spec fn max(a: int, b: int) -> int {
    if a >= b {
        a
    } else {
        b
    }
}

/// The smaller of two numbers.
pub open spec fn min(a: int, b: int) -> int {
    if a <= b {
        a
    } else {
        b
    }
}

/// `v` held into `lo ..= hi`.
pub open spec fn held(v: int, lo: int, hi: int) -> int {
    if v < lo {
        lo
    } else if v > hi {
        hi
    } else {
        v
    }
}

/// The smallest multiple of `step` that is at least `v`.
pub open spec fn round_up(v: int, step: int) -> int {
    (v + step - 1) / step * step
}

/// The largest multiple of `step` that is at most `v`.
pub open spec fn round_down(v: int, step: int) -> int {
    v / step * step
}

/// A `[min, max]` range with an alignment `step`, as `ENUM_FRAMESIZES` reports it.
#[derive(Clone, Copy, Debug, PartialEq, Eq, Structural)]
pub struct SizeRange {
    pub min: u32,
    pub max: u32,
    pub step: u32,
}

/// Rounding to a multiple of a positive step, up and down.
proof fn rounding(v: int, step: int)
    requires
        v >= 0,
        step >= 1,
    ensures
        v <= round_up(v, step) < v + step,
        v - step < round_down(v, step) <= v,
        round_down(v, step) >= 0,
        round_up(v, step) % step == 0,
        round_down(v, step) % step == 0,
        v % step == 0 ==> round_up(v, step) == v && round_down(v, step) == v,
        v % step != 0 ==> round_up(v, step) == round_down(v, step) + step,
{
    let q = v / step;
    let r = v % step;
    lemma_fundamental_div_mod(v, step);
    lemma_fundamental_div_mod(v + step - 1, step);
    let p = (v + step - 1) / step;
    assert(q * step == step * q && p * step == step * p) by (nonlinear_arith);
    assert(p * step >= v) by (nonlinear_arith)
        requires
            v + step - 1 == step * p + (v + step - 1) % step,
            (v + step - 1) % step < step,
    ;
    assert(q >= 0) by (nonlinear_arith)
        requires
            v >= 0,
            step >= 1,
            v == step * q + r,
            r < step,
    ;
    assert(q * step >= 0) by (nonlinear_arith)
        requires
            q >= 0,
            step >= 1,
    ;
    assert((q * step) % step == 0) by {
        vstd::arithmetic::div_mod::lemma_mod_multiples_basic(q, step);
    }
    assert((p * step) % step == 0) by {
        vstd::arithmetic::div_mod::lemma_mod_multiples_basic(p, step);
    }
    if r == 0 {
        assert(p == q) by (nonlinear_arith)
            requires
                v == step * q,
                v + step - 1 == step * p + (v + step - 1) % step,
                0 <= (v + step - 1) % step < step,
                step >= 1,
        ;
    } else {
        assert(p == q + 1) by (nonlinear_arith)
            requires
                v == step * q + r,
                0 < r < step,
                v + step - 1 == step * p + (v + step - 1) % step,
                0 <= (v + step - 1) % step < step,
                step >= 1,
        ;
        assert((q + 1) * step == q * step + step) by (nonlinear_arith);
    }
}

/// Two multiples of a step that are less than a step apart are the same.
proof fn multiples_close(a: int, b: int, step: int)
    requires
        step >= 1,
        a % step == 0,
        b % step == 0,
        a - step < b < a + step,
    ensures
        a == b,
{
    lemma_fundamental_div_mod(a, step);
    lemma_fundamental_div_mod(b, step);
    assert(a / step == b / step) by (nonlinear_arith)
        requires
            a == step * (a / step),
            b == step * (b / step),
            a - step < b < a + step,
            step >= 1,
    ;
}

impl SizeRange {
    /// The alignment, at least one.
    pub open spec fn unit(self) -> int {
        max(self.step as int, 1)
    }

    /// The least size, at least one.
    pub open spec fn least(self) -> int {
        max(self.min as int, 1)
    }

    /// The greatest size, never below the least.
    pub open spec fn greatest(self) -> int {
        max(self.max as int, self.least())
    }

    /// `v` held into the range and aligned: up when that stays within the range, down otherwise,
    /// and never below the least size.
    pub open spec fn fitted(self, v: int) -> int {
        let c = held(v, self.least(), self.greatest());
        if round_up(c, self.unit()) <= self.greatest() {
            round_up(c, self.unit())
        } else {
            max(round_down(c, self.unit()), self.least())
        }
    }

    /// Whether `v` is in the range and aligned.
    pub open spec fn takes(self, v: int) -> bool {
        self.min <= v <= self.max && v % self.unit() == 0
    }

    /// A range.
    pub fn new(min: u32, max: u32, step: u32) -> (r: SizeRange)
        ensures
            r == (SizeRange { min, max, step }),
    {
        SizeRange { min, max, step }
    }

    /// `v` held into the range and aligned to the step, rounding up when that stays within the
    /// range (an encoder pads a picture up to its alignment) and down otherwise. Bounds that
    /// contradict each other are taken as the least size alone.
    pub fn fit(&self, v: u32) -> (r: u32)
        ensures
            r == self.fitted(v as int),
    {
        let step: u64 = if self.step >= 1 {
            self.step as u64
        } else {
            1
        };
        let lo: u32 = if self.min >= 1 {
            self.min
        } else {
            1
        };
        let hi: u32 = if self.max >= lo {
            self.max
        } else {
            lo
        };
        let c: u32 = if v < lo {
            lo
        } else if v > hi {
            hi
        } else {
            v
        };
        proof {
            rounding(c as int, step as int);
        }
        let up: u64 = (c as u64 + step - 1) / step * step;
        if up <= hi as u64 {
            up as u32
        } else {
            let down: u64 = c as u64 / step * step;
            if down >= lo as u64 {
                down as u32
            } else {
                lo
            }
        }
    }

    /// Whether `v` is a size in the range and aligned to the step.
    pub fn accepts(&self, v: u32) -> (r: bool)
        ensures
            r == self.takes(v as int),
    {
        let step: u32 = if self.step >= 1 {
            self.step
        } else {
            1
        };
        v >= self.min && v <= self.max && v % step == 0
    }
}

/// A fitted size lies in the range.
pub proof fn fitted_is_in_range(r: SizeRange, v: int)
    ensures
        r.least() <= r.fitted(v) <= r.greatest(),
{
    rounding(held(v, r.least(), r.greatest()), r.unit());
}

/// A size the range accepts is its own fit.
pub proof fn accepted_sizes_fit_themselves(r: SizeRange, v: int)
    requires
        r.takes(v),
        v >= 1,
    ensures
        r.fitted(v) == v,
{
    rounding(v, r.unit());
}

/// In a range that accepts some size, a size is accepted exactly when it is its own fit. Zero is
/// no size, though a range may begin there.
pub proof fn accepts_means_fits_unchanged(r: SizeRange, v: int)
    requires
        exists|m: int| m >= 1 && #[trigger] r.takes(m),
        v != 0 || r.min > 0,
    ensures
        r.takes(v) <==> r.fitted(v) == v,
{
    let m = choose|m: int| m >= 1 && #[trigger] r.takes(m);
    let c = held(v, r.least(), r.greatest());
    let down = round_down(c, r.unit());
    rounding(c, r.unit());
    if c == v && v == r.least() && down < v && round_up(c, r.unit()) > r.greatest() {
        multiples_close(down, m, r.unit());
    }
}

/// Whether a range has a size: between its ends, and a multiple of its step where it has one.
pub open spec fn has_size(r: SizeRange, v: int) -> bool {
    &&& r.min <= v <= r.max
    &&& r.step > 1 ==> v % (r.step as int) == 0
}

/// Whether what a client gets for a size is the nearest the range has: the least of its sizes that
/// is no smaller than asked, or the greatest where all are smaller.
pub open spec fn is_nearest(r: SizeRange, asked: int, got: int) -> bool {
    forall|m: int|
        m >= 1 && #[trigger] has_size(r, m) ==> {
            &&& has_size(r, got)
            &&& m >= asked ==> asked <= got <= m
            &&& m < asked ==> m <= got
        }
}

/// The size a client gets is the nearest the range has, and one the range has is its own nearest.
pub proof fn fits_are_nearest(r: SizeRange, asked: int)
    requires
        asked >= 1,
    ensures
        is_nearest(r, asked, r.fitted(asked)),
        has_size(r, asked) ==> r.fitted(asked) == asked,
        r.fitted(asked) >= 1,
{
    let c = held(asked, r.least(), r.greatest());
    let u = r.unit();
    rounding(c, u);
    assert forall|v: int| #[trigger] has_size(r, v) implies v % u == 0 by {
        if u == 1 {
            assert(v % 1 == 0);
        }
    }
    assert forall|m: int| m >= 1 && #[trigger] has_size(r, m) implies {
        &&& has_size(r, r.fitted(asked))
        &&& m >= asked ==> asked <= r.fitted(asked) <= m
        &&& m < asked ==> m <= r.fitted(asked)
    } by {
        let up = round_up(c, u);
        let down = round_down(c, u);
        assert(m % u == 0);
        if m >= c && m < up {
            multiples_close(up, m, u);
        }
        if m <= c && m > down {
            multiples_close(down, m, u);
        }
        assert(r.fitted(asked) % u == 0);
    }
    if has_size(r, asked) {
        assert(asked % u == 0);
    }
}

/// A range that has no size at all, because its ends contradict each other or no multiple of its
/// step lies between them, stands for its lower end alone.
pub proof fn ranges_without_sizes_are_their_least(r: SizeRange, asked: int)
    requires
        forall|m: int| m >= 1 ==> !#[trigger] has_size(r, m),
    ensures
        r.fitted(asked) == (if r.min >= 1 {
            r.min as int
        } else {
            1
        }),
{
    let c = held(asked, r.least(), r.greatest());
    let u = r.unit();
    rounding(c, u);
    let up = round_up(c, u);
    let down = round_down(c, u);
    if r.max >= r.least() {
        if up <= r.greatest() {
            assert(has_size(r, up));
        }
        if down >= r.least() {
            assert(has_size(r, down));
        }
    }
}

/// Fitting a fitted size changes nothing.
pub proof fn fitting_is_idempotent(r: SizeRange, v: int)
    ensures
        r.fitted(r.fitted(v)) == r.fitted(v),
{
    let c = held(v, r.least(), r.greatest());
    let f = r.fitted(v);
    rounding(c, r.unit());
    rounding(f, r.unit());
    if round_up(c, r.unit()) > r.greatest() && round_down(c, r.unit()) < r.least() {
        let lo = r.least();
        let up = round_up(lo, r.unit());
        rounding(lo, r.unit());
        if up <= r.greatest() {
            multiples_close(round_down(c, r.unit()), up, r.unit());
        }
    }
}

/// No fitted size is below the fit of zero.
pub proof fn least_fit_is_least(r: SizeRange, v: int)
    ensures
        r.fitted(0) <= r.fitted(v),
{
    let lo = r.least();
    let c = held(v, lo, r.greatest());
    rounding(c, r.unit());
    rounding(lo, r.unit());
    let up0 = round_up(lo, r.unit());
    if up0 <= r.greatest() {
        let f = r.fitted(v);
        assert(f >= lo);
        if f < up0 {
            if f % r.unit() == 0 {
                multiples_close(up0, f, r.unit());
            } else {
                multiples_close(round_down(c, r.unit()), up0, r.unit());
            }
        }
    }
}

/// One axis of a crop rectangle held inside a frame: the origin even and far enough from the end
/// to leave room for the least size the codec takes, the extent fitted to what is left.
pub open spec fn crop_axis(range: SizeRange, frame: int, origin: int, extent: int) -> (int, int) {
    let room = min(range.fitted(0), frame);
    let at = round_down(held(origin, 0, frame - room), 2);
    let most = frame - at;
    let asked = if extent == 0 {
        most
    } else {
        min(extent, most)
    };
    let held_range = SizeRange { max: min(range.max as int, most) as u32, ..range };
    (at, held_range.fitted(asked))
}

/// Whether what a client gets for one axis of a crop is the nearest there is: inside the frame, at
/// the even place asked for or just before where a size of the range has room there, or else at the
/// last even place before it where one has; and of the nearest size of the range that has room at
/// that place; the largest where none is asked for.
pub open spec fn is_nearest_crop(
    r: SizeRange,
    frame: int,
    origin: int,
    extent: int,
    at: int,
    len: int,
) -> bool {
    &&& 0 <= at && at % 2 == 0 && len >= 1 && at + len <= frame
    &&& origin <= 0 ==> at == 0
    &&& origin >= 0 ==> at <= origin
    &&& forall|m: int, p: int|
        m >= 1 && #[trigger] has_size(r, m) && 0 <= p <= origin && #[trigger] (p % 2) == 0 && p + m
            <= frame ==> p <= at
    &&& forall|m: int|
        m >= 1 && #[trigger] has_size(r, m) && 0 <= origin && origin + m <= frame ==> at == origin
            - origin % 2
    &&& forall|m: int|
        m >= 1 && #[trigger] has_size(r, m) && at + m <= frame ==> {
            &&& has_size(r, len)
            &&& extent == 0 || m < extent ==> m <= len
            &&& extent >= 1 && m >= extent ==> extent <= len <= m
        }
}

/// One axis of a crop becomes the nearest there is.
pub proof fn crops_are_nearest(r: SizeRange, frame: int, origin: int, extent: int)
    requires
        r.fitted(0) <= frame <= u32::MAX,
        extent >= 0,
    ensures
        ({
            let (at, len) = crop_axis(r, frame, origin, extent);
            is_nearest_crop(r, frame, origin, extent, at, len)
        }),
{
    let (at, len) = crop_axis(r, frame, origin, extent);
    fitted_is_in_range(r, 0);
    crop_stays_in_the_frame(r, frame, origin, extent);
    fits_are_nearest(r, 1);
    assert(r.fitted(0) == r.fitted(1));
    let most = frame - at;
    let asked = if extent == 0 {
        most
    } else {
        min(extent, most)
    };
    let cut = SizeRange { max: min(r.max as int, most) as u32, ..r };
    fits_are_nearest(cut, asked);
    assert forall|m: int|
        m >= 1 && #[trigger] has_size(r, m) && 0 <= origin && origin + m <= frame implies at
        == origin - origin % 2 by {
        assert(r.fitted(1) <= m);
    }
    assert forall|m: int, p: int|
        m >= 1 && #[trigger] has_size(r, m) && 0 <= p <= origin && #[trigger] (p % 2) == 0 && p + m
            <= frame implies p <= at by {
        assert(r.fitted(1) <= m);
        let last = held(origin, 0, frame - min(r.fitted(0), frame));
        rounding(last, 2);
        if p > at {
            multiples_close(at, p, 2);
        }
    }
    assert forall|m: int| m >= 1 && #[trigger] has_size(r, m) && at + m <= frame implies {
        &&& has_size(r, len)
        &&& extent == 0 || m < extent ==> m <= len
        &&& extent >= 1 && m >= extent ==> extent <= len <= m
    } by {
        assert(has_size(cut, m));
        assert(has_size(cut, len));
    }
}

/// One axis of a crop rectangle held inside a frame.
pub fn fit_crop_axis(range: &SizeRange, frame: u32, origin: i32, extent: u32) -> (r: (i32, u32))
    ensures
        (r.0 as int, r.1 as int) == crop_axis(*range, frame as int, origin as int, extent as int),
{
    let least: u32 = range.fit(0);
    let room: u32 = if least <= frame {
        least
    } else {
        frame
    };
    let last: u32 = frame - room;
    let held_at: u32 = if origin < 0 {
        0
    } else if origin as u32 > last {
        last
    } else {
        origin as u32
    };
    assert(held_at == held(origin as int, 0, last as int));
    let at: u32 = held_at / 2 * 2;
    let most: u32 = frame - at;
    let asked: u32 = if extent == 0 || extent > most {
        most
    } else {
        extent
    };
    let held_range: SizeRange = SizeRange {
        min: range.min,
        max: if range.max <= most {
            range.max
        } else {
            most
        },
        step: range.step,
    };
    (at as i32, held_range.fit(asked))
}

/// A crop of a frame no smaller than the least size the codec takes lies inside the frame, starts
/// at an even offset and is not empty.
pub proof fn crop_stays_in_the_frame(range: SizeRange, frame: int, origin: int, extent: int)
    requires
        range.fitted(0) <= frame <= u32::MAX,
        extent >= 0,
    ensures
        ({
            let (at, len) = crop_axis(range, frame, origin, extent);
            at >= 0 && at % 2 == 0 && len >= 1 && at + len <= frame
        }),
{
    fitted_is_in_range(range, 0);
    let at0 = held(origin, 0, frame - range.fitted(0));
    rounding(at0, 2);
    let at = round_down(at0, 2);
    let most = frame - at;
    let asked = if extent == 0 {
        most
    } else {
        min(extent, most)
    };
    let held_range = SizeRange { max: min(range.max as int, most) as u32, ..range };
    fitted_is_in_range(held_range, asked);
}

/// Frames per second an encoder sustains, `[min, max]`.
#[derive(Clone, Copy, Debug, PartialEq, Eq, Structural)]
pub struct FrameRateRange {
    pub min: u32,
    pub max: u32,
}

impl FrameRateRange {
    /// The slowest rate, at least one frame per second.
    pub open spec fn slowest(self) -> int {
        max(self.min as int, 1)
    }

    /// The fastest rate, never below the slowest.
    pub open spec fn fastest(self) -> int {
        max(self.max as int, self.slowest())
    }

    /// The rates that bound the range.
    pub fn bounds(&self) -> (r: (u32, u32))
        ensures
            r.0 == self.slowest(),
            r.1 == self.fastest(),
    {
        let lo: u32 = if self.min >= 1 {
            self.min
        } else {
            1
        };
        (
            lo,
            if self.max >= lo {
                self.max
            } else {
                lo
            },
        )
    }

    /// The default rate held into the range.
    pub open spec fn default_rate(self) -> int {
        held(DEFAULT_FRAME_RATE as int, self.slowest(), self.fastest())
    }

    /// The default rate held into the range.
    pub fn default_fps(&self) -> (r: u32)
        ensures
            r == self.default_rate(),
    {
        let (lo, hi) = self.bounds();
        if DEFAULT_FRAME_RATE < lo {
            lo
        } else if DEFAULT_FRAME_RATE > hi {
            hi
        } else {
            DEFAULT_FRAME_RATE
        }
    }

    /// The frame interval `num / den` seconds becomes: as asked when the range sustains the rate
    /// `den / num`, else one over the nearest end; a fraction that is no rate asks for the
    /// default.
    pub open spec fn interval(self, num: int, den: int) -> (int, int) {
        if num == 0 || den == 0 {
            (1, self.default_rate())
        } else if den > self.fastest() * num {
            (1, self.fastest())
        } else if den < self.slowest() * num {
            (1, self.slowest())
        } else {
            (num, den)
        }
    }

    /// The frame interval a client's fraction becomes.
    pub fn fit_interval(&self, num: u32, den: u32) -> (r: (u32, u32))
        ensures
            (r.0 as int, r.1 as int) == self.interval(num as int, den as int),
    {
        let (lo, hi) = self.bounds();
        if num == 0 || den == 0 {
            (1, self.default_fps())
        } else {
            assert(hi as int * num as int <= u32::MAX * u32::MAX) by (nonlinear_arith)
                requires
                    0 <= hi <= u32::MAX,
                    0 <= num <= u32::MAX,
            ;
            assert(0 <= lo as int * num as int <= hi as int * num as int) by (nonlinear_arith)
                requires
                    0 <= lo <= hi,
                    0 <= num,
            ;
            if den as u64 > hi as u64 * num as u64 {
                (1, hi)
            } else if (den as u64) < lo as u64 * num as u64 {
                (1, lo)
            } else {
                (num, den)
            }
        }
    }
}

/// The interval set from a client's fraction is a rate of the range: never slower than its
/// slowest nor faster than its fastest rate, and never a fraction with a zero in it.
pub proof fn interval_is_sustained(r: FrameRateRange, num: int, den: int)
    requires
        num >= 0,
        den >= 0,
    ensures
        ({
            let (n, d) = r.interval(num, den);
            n >= 1 && d >= 1 && r.slowest() * n <= d <= r.fastest() * n
        }),
{
    assert(r.slowest() * 1 == r.slowest());
    assert(r.fastest() * 1 == r.fastest());
    if num > 0 && den > 0 {
        assert(r.slowest() * num <= r.fastest() * num) by (nonlinear_arith)
            requires
                r.slowest() <= r.fastest(),
                num > 0,
        ;
    }
}

/// An integer control's range and starting value, as `QUERYCTRL` reports them.
#[derive(Clone, Copy, Debug, PartialEq, Eq, Structural)]
pub struct ControlRange {
    pub min: i32,
    pub max: i32,
    pub default: i32,
}

impl ControlRange {
    /// `v` held into the range; the least value where the bounds contradict each other.
    pub open spec fn clamped(self, v: int) -> int {
        min(max(v, self.min as int), max(self.max as int, self.min as int))
    }

    /// A range.
    pub fn new(min: i32, max: i32, default: i32) -> (r: ControlRange)
        ensures
            r == (ControlRange { min, max, default }),
    {
        ControlRange { min, max, default }
    }

    /// `v` held into the range.
    pub fn clamp(&self, v: i32) -> (r: i32)
        ensures
            r == self.clamped(v as int),
    {
        let hi: i32 = if self.max >= self.min {
            self.max
        } else {
            self.min
        };
        let v: i32 = if v >= self.min {
            v
        } else {
            self.min
        };
        if v <= hi {
            v
        } else {
            hi
        }
    }
}

/// The quantiser range a codec accepts for its `MIN_QP` / `MAX_QP` controls.
#[derive(Clone, Copy, Debug, PartialEq, Eq, Structural)]
pub struct QpRange {
    pub min: i32,
    pub max: i32,
}

/// Bytes of one tightly packed NV12 frame, chroma rounded up on odd sizes; `u32::MAX` when that
/// is more than 32 bits hold.
pub open spec fn nv12_bytes(width: int, height: int) -> int {
    min(width * height + 2 * ((width + 1) / 2) * ((height + 1) / 2), u32::MAX as int)
}

/// Bytes of one tightly packed NV12 frame of `width` x `height`. Odd dimensions round the chroma
/// plane up; a size no 32-bit number holds saturates.
pub fn nv12_sizeimage(width: u32, height: u32) -> (r: u32)
    ensures
        r == nv12_bytes(width as int, height as int),
{
    let w: u128 = width as u128;
    let h: u128 = height as u128;
    let cw: u128 = (w + 1) / 2;
    let ch: u128 = (h + 1) / 2;
    assert(0 <= w * h <= 0x1_0000_0000 * 0x1_0000_0000) by (nonlinear_arith)
        requires
            0 <= w <= 0x1_0000_0000,
            0 <= h <= 0x1_0000_0000,
    ;
    assert(0 <= 2 * cw * ch <= 2 * 0x1_0000_0000 * 0x1_0000_0000) by (nonlinear_arith)
        requires
            0 <= cw <= 0x1_0000_0000,
            0 <= ch <= 0x1_0000_0000,
    ;
    let total: u128 = w * h + 2 * cw * ch;
    if total <= u32::MAX as u128 {
        total as u32
    } else {
        u32::MAX
    }
}

/// A larger frame needs no fewer bytes.
pub proof fn nv12_bytes_grow(w1: int, h1: int, w2: int, h2: int)
    requires
        0 <= w1 <= w2,
        0 <= h1 <= h2,
    ensures
        nv12_bytes(w1, h1) <= nv12_bytes(w2, h2),
{
    assert(w1 * h1 <= w2 * h2) by (nonlinear_arith)
        requires
            0 <= w1 <= w2,
            0 <= h1 <= h2,
    ;
    let a1 = (w1 + 1) / 2;
    let b1 = (h1 + 1) / 2;
    let a2 = (w2 + 1) / 2;
    let b2 = (h2 + 1) / 2;
    assert(2 * a1 * b1 <= 2 * a2 * b2) by (nonlinear_arith)
        requires
            0 <= a1 <= a2,
            0 <= b1 <= b2,
    ;
}

/// The size of a frame is one a 32-bit number holds.
pub proof fn nv12_bytes_fit(w: int, h: int)
    requires
        w >= 0,
        h >= 0,
    ensures
        0 <= nv12_bytes(w, h) <= u32::MAX,
{
    assert(w * h >= 0 && 2 * ((w + 1) / 2) * ((h + 1) / 2) >= 0) by (nonlinear_arith)
        requires
            w >= 0,
            h >= 0,
    ;
}

/// A frame with even sides takes a byte and a half per pixel, as far as 32 bits hold that.
pub proof fn even_frames_take_three_halves(w: int, h: int)
    requires
        w >= 0,
        h >= 0,
        w % 2 == 0,
        h % 2 == 0,
    ensures
        nv12_bytes(w, h) == min(w * h * 3 / 2, u32::MAX as int),
{
    let a = w / 2;
    let b = h / 2;
    assert((w + 1) / 2 == a && (h + 1) / 2 == b);
    assert(w * h == 4 * (a * b) && 2 * a * b == 2 * (a * b)) by (nonlinear_arith)
        requires
            w == 2 * a,
            h == 2 * b,
    ;
}

/// The bitstream buffer size picked for a raw size when the client does not.
pub open spec fn default_bitstream(width: int, height: int) -> int {
    max(nv12_bytes(width, height) / 2, DEFAULT_BITSTREAM_FLOOR as int)
}

/// The bitstream buffer size the device picks for a raw size when the client does not.
pub fn default_bitstream_size(width: u32, height: u32) -> (r: u32)
    ensures
        r == default_bitstream(width as int, height as int),
{
    let half: u32 = nv12_sizeimage(width, height) / 2;
    if half >= DEFAULT_BITSTREAM_FLOOR {
        half
    } else {
        DEFAULT_BITSTREAM_FLOOR
    }
}

/// The largest bitstream buffer a client may size for a raw size.
pub open spec fn bitstream_cap(width: int, height: int) -> int {
    max(min(4 * default_bitstream(width, height), u32::MAX as int), BITSTREAM_CAP_FLOOR as int)
}

/// The bitstream buffer size a client's request becomes: the default when it asks for less than
/// the least, its own otherwise, capped at what the raw size can need.
pub open spec fn bitstream_bytes(width: int, height: int, asked: int) -> int {
    if asked >= MIN_BITSTREAM_SIZE {
        min(asked, bitstream_cap(width, height))
    } else {
        default_bitstream(width, height)
    }
}

/// The bitstream buffer size a client's request becomes for a raw size.
pub fn fit_bitstream_size(width: u32, height: u32, asked: u32) -> (r: u32)
    ensures
        r == bitstream_bytes(width as int, height as int, asked as int),
{
    let default: u32 = default_bitstream_size(width, height);
    if asked >= MIN_BITSTREAM_SIZE {
        let four: u64 = 4 * (default as u64);
        let four: u32 = if four <= u32::MAX as u64 {
            four as u32
        } else {
            u32::MAX
        };
        let cap: u32 = if four >= BITSTREAM_CAP_FLOOR {
            four
        } else {
            BITSTREAM_CAP_FLOOR
        };
        if asked <= cap {
            asked
        } else {
            cap
        }
    } else {
        default
    }
}

} // verus!
