use crate::arith::{lemma_mul_le, lemma_round_div_le, round_div};
use vstd::arithmetic::div_mod::{
    lemma_fundamental_div_mod, lemma_fundamental_div_mod_converse, lemma_mod_add_multiples_vanish,
    lemma_mod_pos_bound,
};
use vstd::prelude::*;

verus! {

/// A direct red, green, blue triple.
pub type Rgb = (u8, u8, u8);

/// Gradient stops: a color and its position in ten-thousandths of the way
/// along the row (`0` is the start, [`STOP_SCALE`] the end).
pub type GradientPart = Vec<(Rgb, u16)>;

/// The position that stands for the end of a gradient.
pub const STOP_SCALE: u16 = 10000;

/// Bound on the denominator handed to [`lerp_rgb_color`], so that the weighted
/// sums stay within 128 bits.
pub const LERP_DEN_LIMIT: u128 = 0x10_0000_0000_0000_0000_0000_0000;

/// A color reference: one of the sixteen palette colors, a 256-color index,
/// or a direct RGB triple.
#[derive(Clone, Copy, Debug, PartialEq, Eq, Structural)]
pub enum NamedColor {
    Black,
    Red,
    Green,
    Yellow,
    Blue,
    Magenta,
    Cyan,
    White,
    LightBlack,
    LightRed,
    LightGreen,
    LightYellow,
    LightBlue,
    LightMagenta,
    LightCyan,
    LightWhite,
    Code256(u8),
    FullColor(u8, u8, u8),
}

/// The direct color of an RGB triple.
pub open spec fn full_color(c: Rgb) -> NamedColor {
    NamedColor::FullColor(c.0, c.1, c.2)
}

/// Where the accent color of each segment comes from.
#[derive(Clone, Debug)]
pub enum AccentColor {
    /// The same color everywhere.
    Single(NamedColor),
    /// A hue that turns once around the color wheel along the row, starting
    /// at the given hue in degrees.
    Rainbow(u16),
    /// Linear interpolation between stops. An empty list stands for the
    /// default rainbow gradient.
    Gradient(GradientPart),
}

// ---------------------------------------------------------------- progress

/// The denominator of a progress value, with zero read as one.
pub open spec fn norm_den(den: int) -> int {
    if den <= 0 {
        1
    } else {
        den
    }
}

/// The numerator of a progress value, clamped into `[0, den]`.
pub open spec fn norm_num(num: int, den: int) -> int {
    if num > norm_den(den) {
        norm_den(den)
    } else if num < 0 {
        0
    } else {
        num
    }
}

// ---------------------------------------------------------------- rainbow

/// Color of a hue of `h / d` degrees (`0 <= h < 360 * d`) at full saturation
/// and half lightness, by the six 60-degree sectors, each channel rounded.
pub open spec fn hue_rgb(h: int, d: int) -> Rgb {
    let w = 60 * d;
    let sector = h / w;
    let r = h % w;
    let up = round_div(255 * r, w) as u8;
    let down = round_div(255 * (w - r), w) as u8;
    if sector == 0 {
        (255u8, up, 0u8)
    } else if sector == 1 {
        (down, 255u8, 0u8)
    } else if sector == 2 {
        (0u8, 255u8, up)
    } else if sector == 3 {
        (0u8, down, 255u8)
    } else if sector == 4 {
        (up, 0u8, 255u8)
    } else {
        (255u8, 0u8, down)
    }
}

/// Rainbow color at progress `n / d`: hue `start + 360 * n / d`, modulo 360.
pub open spec fn rainbow_at(start: int, n: int, d: int) -> Rgb {
    hue_rgb((start * d + 360 * n) % (360 * d), d)
}

// ---------------------------------------------------------------- gradient

/// Index of the first stop at or after progress `n / d`, searching from `j`;
/// the length of the list where there is none.
pub open spec fn first_stop_from(stops: Seq<(Rgb, u16)>, n: int, d: int, j: int) -> int
    decreases stops.len() - j,
{
    if j < 0 || j >= stops.len() {
        stops.len() as int
    } else if n * (STOP_SCALE as int) <= stops[j].1 * d {
        j
    } else {
        first_stop_from(stops, n, d, j + 1)
    }
}

/// One channel `t_num / t_den` of the way from `a` to `b`, truncated.
pub open spec fn lerp_channel(a: u8, b: u8, t_num: int, t_den: int) -> u8 {
    ((a * (t_den - t_num) + b * t_num) / t_den) as u8
}

/// The color `t_num / t_den` of the way from `c1` to `c2`.
pub open spec fn lerp_rgb(c1: Rgb, c2: Rgb, t_num: int, t_den: int) -> Rgb {
    (
        lerp_channel(c1.0, c2.0, t_num, t_den),
        lerp_channel(c1.1, c2.1, t_num, t_den),
        lerp_channel(c1.2, c2.2, t_num, t_den),
    )
}

/// Gradient color at progress `n / d` over a non-empty stop list: the first
/// stop's color before it, the last stop's color after it, and in between
/// the interpolation between the two stops that bracket the progress.
pub open spec fn gradient_at(stops: Seq<(Rgb, u16)>, n: int, d: int) -> Rgb {
    let j = first_stop_from(stops, n, d, 0);
    if j == 0 {
        stops[0].0
    } else if j >= stops.len() {
        stops[stops.len() - 1].0
    } else {
        let lo = stops[j - 1].1 * d;
        let hi = stops[j].1 * d;
        lerp_rgb(stops[j - 1].0, stops[j].0, n * (STOP_SCALE as int) - lo, hi - lo)
    }
}

/// The stops of the built-in rainbow gradient.
pub open spec fn default_rainbow_stops() -> Seq<(Rgb, u16)> {
    seq![
        ((255u8, 0u8, 0u8), 0u16),
        ((255u8, 127u8, 0u8), 1600u16),
        ((255u8, 255u8, 0u8), 3200u16),
        ((0u8, 255u8, 0u8), 4800u16),
        ((0u8, 0u8, 255u8), 6400u16),
        ((75u8, 0u8, 130u8), 8000u16),
        ((148u8, 0u8, 211u8), 10000u16),
    ]
}

/// A stop list is valid when it is non-empty, every position lies within
/// `[0, STOP_SCALE]`, and positions never decrease.
pub open spec fn stops_valid(stops: Seq<(Rgb, u16)>) -> bool {
    &&& stops.len() > 0
    &&& forall|i: int| 0 <= i < stops.len() ==> stops[i].1 <= STOP_SCALE
    &&& forall|i: int, k: int| 0 <= i <= k < stops.len() ==> stops[i].1 <= stops[k].1
}

/// The accent color at progress `num / den`, clamped into `[0, 1]`.
pub open spec fn accent_at(a: AccentColor, num: int, den: int) -> NamedColor {
    let d = norm_den(den);
    let n = norm_num(num, den);
    match a {
        AccentColor::Single(c) => c,
        AccentColor::Rainbow(h) => full_color(rainbow_at(h as int, n, d)),
        AccentColor::Gradient(stops) => full_color(
            if stops@.len() == 0 {
                gradient_at(default_rainbow_stops(), n, d)
            } else {
                gradient_at(stops@, n, d)
            },
        ),
    }
}

// ---------------------------------------------------------------- exec

/// The built-in rainbow gradient: red, orange, yellow, green, blue, indigo, violet.
pub fn create_default_rainbow_gradient() -> (r: GradientPart)
    ensures
        r@ == default_rainbow_stops(),
        stops_valid(r@),
{
    let r = vec![
        ((255u8, 0u8, 0u8), 0u16),
        ((255u8, 127u8, 0u8), 1600u16),
        ((255u8, 255u8, 0u8), 3200u16),
        ((0u8, 255u8, 0u8), 4800u16),
        ((0u8, 0u8, 255u8), 6400u16),
        ((75u8, 0u8, 130u8), 8000u16),
        ((148u8, 0u8, 211u8), 10000u16),
    ];
    assert(r@ =~= default_rainbow_stops());
    r
}

fn lerp_u8(a: u8, b: u8, t_num: u128, t_den: u128) -> (r: u8)
    requires
        0 < t_den <= LERP_DEN_LIMIT,
        t_num <= t_den,
    ensures
        r == lerp_channel(a, b, t_num as int, t_den as int),
{
    let rest = t_den - t_num;
    proof {
        lemma_mul_le(a as int, rest as int, 255, LERP_DEN_LIMIT as int);
        lemma_mul_le(b as int, t_num as int, 255, LERP_DEN_LIMIT as int);
    }
    let sum = a as u128 * rest + b as u128 * t_num;
    proof {
        lemma_lerp_between(a, b, t_num as int, t_den as int);
    }
    (sum / t_den) as u8
}

/// The color `t_num / t_den` of the way from `rgb1` to `rgb2`, each channel
/// truncated.
pub fn lerp_rgb_color(rgb1: Rgb, rgb2: Rgb, t_num: u128, t_den: u128) -> (r: Rgb)
    requires
        0 < t_den <= LERP_DEN_LIMIT,
        t_num <= t_den,
    ensures
        r == lerp_rgb(rgb1, rgb2, t_num as int, t_den as int),
        rgb1 == rgb2 ==> r == rgb1,
{
    proof {
        lemma_lerp_same_color(rgb1, t_num as int, t_den as int);
    }
    (
        lerp_u8(rgb1.0, rgb2.0, t_num, t_den),
        lerp_u8(rgb1.1, rgb2.1, t_num, t_den),
        lerp_u8(rgb1.2, rgb2.2, t_num, t_den),
    )
}

/// Color of hue `h / d` degrees at full saturation and half lightness; the
/// hue is taken modulo 360 degrees.
pub fn hsl_to_rgb(h: u128, d: u64) -> (r: Rgb)
    requires
        d > 0,
    ensures
        r == hue_rgb((h as int) % (360 * (d as int)), d as int),
{
    let h = h % (360 * d as u128);
    let w: u128 = 60 * d as u128;
    let sector = h / w;
    let rem = h % w;
    proof {
        lemma_round_div_le(255 * rem as int, w as int, 255);
        lemma_round_div_le(255 * (w - rem) as int, w as int, 255);
    }
    let up = ((2 * (255 * rem) + w) / (2 * w)) as u8;
    let down = ((2 * (255 * (w - rem)) + w) / (2 * w)) as u8;
    if sector == 0 {
        (255u8, up, 0u8)
    } else if sector == 1 {
        (down, 255u8, 0u8)
    } else if sector == 2 {
        (0u8, 255u8, up)
    } else if sector == 3 {
        (0u8, down, 255u8)
    } else if sector == 4 {
        (up, 0u8, 255u8)
    } else {
        (255u8, 0u8, down)
    }
}

/// Rainbow color at progress `num / den` (clamped into `[0, 1]`), starting
/// at hue `start_hue` degrees.
pub fn rainbow_rgb(start_hue: u16, num: u64, den: u64) -> (r: Rgb)
    ensures
        r == rainbow_at(start_hue as int, norm_num(num as int, den as int), norm_den(den as int)),
{
    let d: u64 = if den == 0 {
        1
    } else {
        den
    };
    let n: u64 = if num > d {
        d
    } else {
        num
    };
    proof {
        lemma_mul_le(start_hue as int, d as int, 65535, u64::MAX as int);
    }
    let h = start_hue as u128 * d as u128 + 360 * n as u128;
    hsl_to_rgb(h, d)
}

fn stop_reached(pos: u16, scaled: u128, den: u64) -> (r: bool)
    ensures
        r == (scaled <= pos * den),
{
    proof {
        lemma_mul_le(pos as int, den as int, 65535, u64::MAX as int);
    }
    scaled <= pos as u128 * den as u128
}

/// Gradient color at progress `num / den` over a non-empty stop list.
pub fn gradient_rgb(stops: &GradientPart, num: u64, den: u64) -> (r: Rgb)
    requires
        stops@.len() > 0,
        den > 0,
        num <= den,
    ensures
        r == gradient_at(stops@, num as int, den as int),
{
    let scaled: u128 = num as u128 * STOP_SCALE as u128;
    let mut j: usize = 0;
    while j < stops.len() && !stop_reached(stops[j].1, scaled, den)
        invariant
            j <= stops@.len(),
            scaled == num * (STOP_SCALE as int),
            forall|i: int| 0 <= i < j ==> !(scaled <= stops@[i].1 * den),
            first_stop_from(stops@, num as int, den as int, 0) == first_stop_from(
                stops@,
                num as int,
                den as int,
                j as int,
            ),
        decreases stops@.len() - j,
    {
        j = j + 1;
    }
    if j == 0 {
        stops[0].0
    } else if j >= stops.len() {
        stops[stops.len() - 1].0
    } else {
        proof {
            lemma_mul_le(stops@[j - 1].1 as int, den as int, 65535, u64::MAX as int);
            lemma_mul_le(stops@[j as int].1 as int, den as int, 65535, u64::MAX as int);
        }
        let lo: u128 = stops[j - 1].1 as u128 * den as u128;
        let hi: u128 = stops[j].1 as u128 * den as u128;
        assert(lo < scaled <= hi);
        assert(hi <= 65535 * u64::MAX);
        lerp_rgb_color(stops[j - 1].0, stops[j].0, scaled - lo, hi - lo)
    }
}

/// Whether a stop list is valid: non-empty, positions within
/// `[0, STOP_SCALE]` and never decreasing.
pub fn check_stops(stops: &GradientPart) -> (r: bool)
    ensures
        r == stops_valid(stops@),
{
    let n = stops.len();
    if n == 0 {
        return false;
    }
    let mut i: usize = 0;
    while i < n
        invariant
            n == stops@.len(),
            0 < n,
            i <= n,
            forall|k: int| 0 <= k < i ==> stops@[k].1 <= STOP_SCALE,
            forall|j: int, k: int| 0 <= j <= k < i ==> stops@[j].1 <= stops@[k].1,
        decreases n - i,
    {
        if stops[i].1 > STOP_SCALE {
            return false;
        }
        if i > 0 && stops[i - 1].1 > stops[i].1 {
            return false;
        }
        i = i + 1;
    }
    true
}

impl AccentColor {
    /// The accent color at progress `num / den`. A zero denominator counts
    /// as one and a numerator beyond the denominator is clamped to it.
    pub fn get(&self, num: u64, den: u64) -> (r: NamedColor)
        ensures
            r == accent_at(*self, num as int, den as int),
    {
        let d: u64 = if den == 0 {
            1
        } else {
            den
        };
        let n: u64 = if num > d {
            d
        } else {
            num
        };
        match self {
            AccentColor::Single(c) => *c,
            AccentColor::Rainbow(h) => {
                let c = rainbow_rgb(*h, num, den);
                NamedColor::FullColor(c.0, c.1, c.2)
            },
            AccentColor::Gradient(stops) => {
                if stops.len() == 0 {
                    let fallback = create_default_rainbow_gradient();
                    let c = gradient_rgb(&fallback, n, d);
                    NamedColor::FullColor(c.0, c.1, c.2)
                } else {
                    let c = gradient_rgb(stops, n, d);
                    NamedColor::FullColor(c.0, c.1, c.2)
                }
            },
        }
    }
}

// ---------------------------------------------------------------- laws

/// A single accent color is the same at every progress value.
pub proof fn lemma_single_accent_constant(c: NamedColor, num: int, den: int)
    ensures
        accent_at(AccentColor::Single(c), num, den) == c,
{
}

/// An interpolated channel lies between its two ends (so within `[0, 255]`
/// before it is stored as a byte), and interpolating a channel with itself
/// gives it back.
pub proof fn lemma_lerp_between(a: u8, b: u8, t_num: int, t_den: int)
    requires
        0 <= t_num <= t_den,
        0 < t_den,
    ensures
        ({
            let v = (a * (t_den - t_num) + b * t_num) / t_den;
            &&& (a <= b ==> a <= v <= b)
            &&& (b <= a ==> b <= v <= a)
            &&& 0 <= v <= 255
            &&& (a == b ==> v == a)
        }),
{
    let s = a * (t_den - t_num) + b * t_num;
    let lo = if a <= b { a as int } else { b as int };
    let hi = if a <= b { b as int } else { a as int };
    assert(lo * t_den <= s <= hi * t_den) by (nonlinear_arith)
        requires
            s == a * (t_den - t_num) + b * t_num,
            0 <= t_num <= t_den,
            lo <= a <= hi,
            lo <= b <= hi,
    ;
    lemma_fundamental_div_mod(s, t_den);
    lemma_mod_pos_bound(s, t_den);
    let q = s / t_den;
    assert(lo <= q <= hi) by (nonlinear_arith)
        requires
            s == t_den * q + s % t_den,
            0 <= s % t_den < t_den,
            lo * t_den <= s <= hi * t_den,
            0 < t_den,
    ;
}

/// Every channel that the rainbow computes lies in `[0, 255]` before it is
/// stored as a byte, so no channel is ever cut.
pub proof fn lemma_channels_in_range(h: int, d: int)
    requires
        0 <= h,
        0 < d,
    ensures
        0 <= round_div(255 * (h % (60 * d)), 60 * d) <= 255,
        0 <= round_div(255 * (60 * d - h % (60 * d)), 60 * d) <= 255,
{
    let w = 60 * d;
    let r = h % w;
    assert(0 <= r < w) by {
        vstd::arithmetic::div_mod::lemma_mod_pos_bound(h, w);
    }
    lemma_round_div_le(255 * r, w, 255);
    lemma_round_div_le(255 * (w - r), w, 255);
}

/// A hue and the same hue a full turn later give the same color.
pub proof fn lemma_hue_wraps(h: int, d: int)
    requires
        0 < d,
    ensures
        hue_rgb((h + 360 * d) % (360 * d), d) == hue_rgb(h % (360 * d), d),
{
    assert(h + 360 * d == 360 * d + h);
    lemma_mod_add_multiples_vanish(h, 360 * d);
}

/// A gradient whose stops all share one color gives that color at every
/// progress value.
pub proof fn lemma_lerp_same_color(c: Rgb, t_num: int, t_den: int)
    requires
        0 <= t_num <= t_den,
        0 < t_den,
    ensures
        lerp_rgb(c, c, t_num, t_den) == c,
{
    lemma_lerp_between(c.0, c.0, t_num, t_den);
    lemma_lerp_between(c.1, c.1, t_num, t_den);
    lemma_lerp_between(c.2, c.2, t_num, t_den);
}

proof fn lemma_first_stop_bounds(stops: Seq<(Rgb, u16)>, n: int, d: int, j: int)
    requires
        0 <= j <= stops.len(),
    ensures
        j <= first_stop_from(stops, n, d, j) <= stops.len(),
        first_stop_from(stops, n, d, j) < stops.len() ==> n * (STOP_SCALE as int) <= stops[first_stop_from(
            stops,
            n,
            d,
            j,
        )].1 * d,
        forall|i: int|
            j <= i < first_stop_from(stops, n, d, j) ==> !(n * (STOP_SCALE as int) <= #[trigger] stops[i].1
                * d),
    decreases stops.len() - j,
{
    if j < stops.len() && !(n * (STOP_SCALE as int) <= stops[j].1 * d) {
        lemma_first_stop_bounds(stops, n, d, j + 1);
    }
}

/// A gradient whose stops all have one color gives that color at every
/// progress value.
pub proof fn lemma_one_color_gradient(stops: GradientPart, c: Rgb, num: int, den: int)
    requires
        stops@.len() > 0,
        forall|i: int| 0 <= i < stops@.len() ==> #[trigger] stops@[i].0 == c,
    ensures
        accent_at(AccentColor::Gradient(stops), num, den) == full_color(c),
{
    let s = stops@;
    let d = norm_den(den);
    let n = norm_num(num, den);
    lemma_first_stop_bounds(s, n, d, 0);
    let j = first_stop_from(s, n, d, 0);
    if 0 < j < s.len() {
        let lo = s[j - 1].1 * d;
        let hi = s[j].1 * d;
        assert(lo < n * (STOP_SCALE as int) <= hi);
        lemma_lerp_same_color(c, n * (STOP_SCALE as int) - lo, hi - lo);
        assert(s[j - 1].0 == c && s[j].0 == c);
    }
}

proof fn lemma_first_stop_is(stops: Seq<(Rgb, u16)>, n: int, d: int, j: int, k: int)
    requires
        0 <= j <= k < stops.len(),
        n * (STOP_SCALE as int) <= stops[k].1 * d,
        forall|i: int| j <= i < k ==> !(n * (STOP_SCALE as int) <= stops[i].1 * d),
    ensures
        first_stop_from(stops, n, d, j) == k,
    decreases k - j,
{
    if j < k {
        lemma_first_stop_is(stops, n, d, j + 1, k);
    }
}

/// On a valid gradient, the color at the exact position of a stop is that
/// stop's color, for every stop that is the first at its position.
pub proof fn lemma_gradient_exact_at_stops(stops: GradientPart, k: int)
    requires
        stops_valid(stops@),
        0 <= k < stops@.len(),
        k == 0 || stops@[k - 1].1 < stops@[k].1,
    ensures
        accent_at(AccentColor::Gradient(stops), stops@[k].1 as int, STOP_SCALE as int) == full_color(
            stops@[k].0,
        ),
{
    let s = stops@;
    let n = s[k].1 as int;
    let d = STOP_SCALE as int;
    assert(norm_num(n, d) == n);
    assert forall|i: int| 0 <= i < k implies !(n * (STOP_SCALE as int) <= s[i].1 * d) by {
        assert(s[i].1 <= s[k - 1].1);
    }
    lemma_first_stop_is(s, n, d, 0, k);
    if k > 0 {
        let lo = s[k - 1].1 * d;
        let hi = s[k].1 * d;
        assert(lo < hi);
        let t = hi - lo;
        assert(n * d - lo == t);
        let c1 = s[k - 1].0;
        let c2 = s[k].0;
        assert forall|a: u8, b: u8| #[trigger] lerp_channel(a, b, t, t) == b by {
            assert(a * (t - t) + b * t == b * t) by (nonlinear_arith);
            lemma_fundamental_div_mod_converse(b * t, t, b as int, 0);
        }
        assert(lerp_channel(c1.0, c2.0, t, t) == c2.0);
        assert(lerp_channel(c1.1, c2.1, t, t) == c2.1);
        assert(lerp_channel(c1.2, c2.2, t, t) == c2.2);
    }
}

} // verus!
