//! Target resolutions, their textual form, and the aspect-preserving scale
//! that fits a photo to a resolution's pixel budget.

use vstd::prelude::*;
use vstd::string::StrSliceExecFns;
use vstd::string::StringExecFns;

verus! {

/// The largest side length an image can have.
pub const SIDE_MAX: u32 = 0xffff_ffff;

/// `out` is `sqrt(area * side / other)` rounded to the nearest integer
/// (halves round up), then clamped into `1 ..= SIDE_MAX`.
///
/// The rounded value `n` is the one with
/// `(n - 1/2)^2 <= area * side / other < (n + 1/2)^2`;
/// multiplied out by `4 * other` this needs no fractions.
pub open spec fn scaled_side(out: int, area: int, side: int, other: int) -> bool {
    &&& 1 <= out <= SIDE_MAX
    &&& (out == 1 || (2 * out - 1) * (2 * out - 1) * other <= 4 * area * side)
    &&& (out == SIDE_MAX || 4 * area * side < (2 * out + 1) * (2 * out + 1) * other)
}

/// A target resolution; both sides are positive.
#[derive(Debug, Clone, Copy)]
pub struct Resolution {
    width: u32,
    height: u32,
}

impl View for Resolution {
    type V = (u32, u32);

    closed spec fn view(&self) -> (u32, u32) {
        (self.width, self.height)
    }
}

impl Resolution {
    #[verifier::type_invariant]
    spec fn sides_positive(&self) -> bool {
        self.width > 0 && self.height > 0
    }

    /// The pixel count of the resolution.
    pub open spec fn area(&self) -> int {
        self@.0 * self@.1
    }

    pub fn new(width: u32, height: u32) -> (r: Self)
        requires
            width > 0,
            height > 0,
        ensures
            r@ == (width, height),
    {
        Resolution { width, height }
    }

    pub fn width(&self) -> (r: u32)
        ensures
            r == self@.0,
            r > 0,
    {
        proof {
            use_type_invariant(self);
        }
        self.width
    }

    pub fn height(&self) -> (r: u32)
        ensures
            r == self@.1,
            r > 0,
    {
        proof {
            use_type_invariant(self);
        }
        self.height
    }

    /// Output size for a `width` x `height` source: each side is multiplied by
    /// `sqrt(area / (width * height))` and rounded, so the shape of the source
    /// is kept and its pixel count approaches this resolution's.
    /// A source with an empty side has no such size.
    pub fn scaled_size(&self, width: u32, height: u32) -> (r: Option<(u32, u32)>)
        ensures
            r is None <==> (width == 0 || height == 0),
            r matches Some((w, h)) ==> {
                &&& scaled_side(w as int, self.area(), width as int, height as int)
                &&& scaled_side(h as int, self.area(), height as int, width as int)
            },
    {
        proof {
            use_type_invariant(self);
        }
        if width == 0 || height == 0 {
            return None;
        }
        assert(self.width as int * self.height as int <= 0xffff_ffff_ffff_ffff) by (nonlinear_arith)
            requires
                self.width <= SIDE_MAX,
                self.height <= SIDE_MAX,
        ;
        let area: u64 = self.width as u64 * self.height as u64;
        let w = nearest_side(area, width, height);
        let h = nearest_side(area, height, width);
        Some((w, h))
    }
}

/// `c` is the lower-case ASCII letter `l`, in either case.
pub open spec fn folds_to(c: char, l: char) -> bool {
    c == l || ('A' <= c && c <= 'Z' && c as u32 + 32 == l as u32)
}

/// `s` spells the lower-case word `word`, ignoring ASCII case.
pub open spec fn spells(s: Seq<char>, word: Seq<char>) -> bool {
    s.len() == word.len() && forall|i: int| 0 <= i < s.len() ==> folds_to(#[trigger] s[i], word[i])
}

/// The named resolutions.
#[derive(Debug, Clone, Copy, PartialEq, Eq)]
pub enum PresetResolution {
    /// 320 x 240
    QVGA,
    /// 640 x 480
    VGA,
    /// 800 x 600
    SVGA,
    /// 1280 x 720
    HD,
    /// 1280 x 960
    QuadVGA,
    /// 1920 x 1080
    FullHD,
}

/// The preset that `s` names, if any; names are matched without regard to
/// ASCII case.
pub open spec fn preset_named(s: Seq<char>) -> Option<PresetResolution> {
    if spells(s, seq!['q', 'v', 'g', 'a']) {
        Some(PresetResolution::QVGA)
    } else if spells(s, seq!['v', 'g', 'a']) {
        Some(PresetResolution::VGA)
    } else if spells(s, seq!['s', 'v', 'g', 'a']) {
        Some(PresetResolution::SVGA)
    } else if spells(s, seq!['h', 'd']) {
        Some(PresetResolution::HD)
    } else if spells(s, seq!['q', 'u', 'a', 'd', 'v', 'g', 'a']) {
        Some(PresetResolution::QuadVGA)
    } else if spells(s, seq!['f', 'u', 'l', 'l', 'h', 'd']) {
        Some(PresetResolution::FullHD)
    } else {
        None
    }
}

/// Whether the text `s` spells `word` (lower-case ASCII), ignoring case.
pub(crate) fn spells_word(s: &str, word: &Vec<char>) -> (r: bool)
    ensures
        r == spells(s@, word@),
{
    let n = s.unicode_len();
    if n != word.len() {
        return false;
    }
    let mut i: usize = 0;
    while i < n
        invariant
            n == s@.len(),
            n == word@.len(),
            i <= n,
            forall|j: int| 0 <= j < i ==> folds_to(#[trigger] s@[j], word@[j]),
        decreases n - i,
    {
        let c = s.get_char(i);
        let l = word[i];
        if !(c == l || ('A' <= c && c <= 'Z' && c as u32 + 32 == l as u32)) {
            return false;
        }
        i = i + 1;
    }
    true
}

impl PresetResolution {
    /// The size of the preset.
    pub open spec fn size(self) -> (u32, u32) {
        match self {
            PresetResolution::QVGA => (320, 240),
            PresetResolution::VGA => (640, 480),
            PresetResolution::SVGA => (800, 600),
            PresetResolution::HD => (1280, 720),
            PresetResolution::QuadVGA => (1280, 960),
            PresetResolution::FullHD => (1920, 1080),
        }
    }

    /// The preset named by `s`, matched without regard to ASCII case; where
    /// `s` names none, the error holds `s`.
    pub fn from_str(s: &str) -> (r: Result<PresetResolution, String>)
        ensures
            match r {
                Ok(p) => preset_named(s@) == Some(p),
                Err(t) => preset_named(s@) is None && t@ == s@,
            },
    {
        if spells_word(s, &vec!['q', 'v', 'g', 'a']) {
            Ok(PresetResolution::QVGA)
        } else if spells_word(s, &vec!['v', 'g', 'a']) {
            Ok(PresetResolution::VGA)
        } else if spells_word(s, &vec!['s', 'v', 'g', 'a']) {
            Ok(PresetResolution::SVGA)
        } else if spells_word(s, &vec!['h', 'd']) {
            Ok(PresetResolution::HD)
        } else if spells_word(s, &vec!['q', 'u', 'a', 'd', 'v', 'g', 'a']) {
            Ok(PresetResolution::QuadVGA)
        } else if spells_word(s, &vec!['f', 'u', 'l', 'l', 'h', 'd']) {
            Ok(PresetResolution::FullHD)
        } else {
            Err(String::from_str(s))
        }
    }

    /// The resolution of the preset.
    pub fn resolution(self) -> (r: Resolution)
        ensures
            r@ == self.size(),
    {
        match self {
            PresetResolution::QVGA => Resolution::new(320, 240),
            PresetResolution::VGA => Resolution::new(640, 480),
            PresetResolution::SVGA => Resolution::new(800, 600),
            PresetResolution::HD => Resolution::new(1280, 720),
            PresetResolution::QuadVGA => Resolution::new(1280, 960),
            PresetResolution::FullHD => Resolution::new(1920, 1080),
        }
    }
}

pub open spec fn is_digit(c: char) -> bool {
    '0' <= c && c <= '9'
}

/// The number that the decimal digits `d` write.
pub open spec fn digits_value(d: Seq<char>) -> int
    decreases d.len(),
{
    if d.len() == 0 {
        0
    } else {
        digits_value(d.drop_last()) * 10 + (d.last() as u32 - '0' as u32)
    }
}

/// `t` without one leading `+`, if it has one.
pub open spec fn unsigned_part(t: Seq<char>) -> Seq<char> {
    if t.len() > 0 && t[0] == '+' {
        t.drop_first()
    } else {
        t
    }
}

/// The side length that `t` writes: an optional `+`, then one or more
/// decimal digits, of a value from 1 to `SIDE_MAX`.
pub open spec fn side_named(t: Seq<char>) -> Option<u32> {
    let d = unsigned_part(t);
    if d.len() > 0 && (forall|i: int| 0 <= i < d.len() ==> is_digit(#[trigger] d[i])) && 0
        < digits_value(d) <= SIDE_MAX {
        Some(digits_value(d) as u32)
    } else {
        None
    }
}

/// Reads a side length written as `side_named` describes.
fn parse_side(t: &str) -> (r: Option<u32>)
    ensures
        r == side_named(t@),
{
    let n = t.unicode_len();
    let start: usize = if n > 0 && t.get_char(0) == '+' { 1 } else { 0 };
    let ghost d = unsigned_part(t@);
    assert(d == t@.subrange(start as int, n as int));
    if start == n {
        assert(d.len() == 0);
        return None;
    }
    // the value read so far, held at `SIDE_MAX + 1` once it exceeds `SIDE_MAX`
    let mut value: u64 = 0;
    let mut i: usize = start;
    while i < n
        invariant
            n == t@.len(),
            start <= i <= n,
            d == unsigned_part(t@),
            d == t@.subrange(start as int, n as int),
            forall|j: int| 0 <= j < i - start ==> is_digit(#[trigger] d[j]),
            value as int == if digits_value(d.subrange(0, i - start)) <= SIDE_MAX {
                digits_value(d.subrange(0, i - start))
            } else {
                SIDE_MAX + 1
            },
        decreases n - i,
    {
        let c = t.get_char(i);
        if !('0' <= c && c <= '9') {
            assert(d[i - start] == c);
            return None;
        }
        let ghost prev = d.subrange(0, i - start);
        let ghost next = d.subrange(0, i - start + 1);
        assert(next.drop_last() == prev);
        assert(next.last() == c);
        let digit: u64 = (c as u32 - '0' as u32) as u64;
        value = value * 10 + digit;
        if value > SIDE_MAX as u64 {
            value = SIDE_MAX as u64 + 1;
        }
        i = i + 1;
    }
    assert(d.subrange(0, n - start) == d);
    if value == 0 || value > SIDE_MAX as u64 {
        None
    } else {
        Some(value as u32)
    }
}

/// The place of the only `x` in `s`, if `s` holds exactly one.
pub open spec fn sole_x(s: Seq<char>) -> Option<int> {
    if exists|i: int| 0 <= i < s.len() && s[i] == 'x' && (forall|j: int| 0 <= j < s.len() && j != i ==> s[j] != 'x') {
        Some(choose|i: int| 0 <= i < s.len() && s[i] == 'x' && (forall|j: int| 0 <= j < s.len() && j != i ==> s[j] != 'x'))
    } else {
        None
    }
}

/// Finds the only `x` in `s`.
fn find_sole_x(s: &str) -> (r: Option<usize>)
    ensures
        r matches Some(i) ==> sole_x(s@) == Some(i as int),
        r is None ==> sole_x(s@) is None,
{
    let n = s.unicode_len();
    let mut found: Option<usize> = None;
    let mut i: usize = 0;
    while i < n
        invariant
            n == s@.len(),
            i <= n,
            found matches Some(k) ==> k < i && s@[k as int] == 'x' && forall|j: int| 0 <= j < i && j != k ==> s@[j] != 'x',
            found is None ==> forall|j: int| 0 <= j < i ==> s@[j] != 'x',
        decreases n - i,
    {
        if s.get_char(i) == 'x' {
            if let Some(k) = found {
                assert(s@[k as int] == 'x' && s@[i as int] == 'x');
                assert forall|m: int| 0 <= m < s@.len() && s@[m] == 'x' implies !(forall|j: int| 0 <= j < s@.len() && j != m ==> s@[j] != 'x') by {
                    if m == k {
                        assert(s@[i as int] == 'x');
                    } else {
                        assert(s@[k as int] == 'x');
                    }
                }
                return None;
            }
            found = Some(i);
        }
        i = i + 1;
    }
    match found {
        Some(k) => {
            assert(0 <= k < s@.len() && s@[k as int] == 'x' && (forall|j: int| 0 <= j < s@.len() && j != k ==> s@[j] != 'x'));
            let ghost c = choose|i: int| 0 <= i < s@.len() && s@[i] == 'x' && (forall|j: int| 0 <= j < s@.len() && j != i ==> s@[j] != 'x');
            assert(c == k);
            Some(k)
        },
        None => None,
    }
}

/// Why a resolution could not be read; each case holds the text at fault.
#[derive(Debug, PartialEq, Eq)]
pub enum ResolutionError {
    /// Neither a preset name nor two sides around a single `x`.
    Shape(String),
    /// The text before the `x` is not a positive side length.
    Width(String),
    /// The text after the `x` is not a positive side length.
    Height(String),
}

/// What a `ResolutionError` says: its case and the text at fault.
pub enum ResolutionFault {
    Shape(Seq<char>),
    Width(Seq<char>),
    Height(Seq<char>),
}

impl View for ResolutionError {
    type V = ResolutionFault;

    open spec fn view(&self) -> ResolutionFault {
        match self {
            ResolutionError::Shape(t) => ResolutionFault::Shape(t@),
            ResolutionError::Width(t) => ResolutionFault::Width(t@),
            ResolutionError::Height(t) => ResolutionFault::Height(t@),
        }
    }
}

/// The size that the text `s` names, or what is wrong with it.
pub open spec fn resolution_named(s: Seq<char>) -> Result<(u32, u32), ResolutionFault> {
    match preset_named(s) {
        Some(p) => Ok(p.size()),
        None => match sole_x(s) {
            None => Err(ResolutionFault::Shape(s)),
            Some(i) => {
                let w = s.subrange(0, i);
                let h = s.subrange(i + 1, s.len() as int);
                match (side_named(w), side_named(h)) {
                    (None, _) => Err(ResolutionFault::Width(w)),
                    (Some(_), None) => Err(ResolutionFault::Height(h)),
                    (Some(a), Some(b)) => Ok((a, b)),
                }
            },
        },
    }
}

impl ResolutionError {
    /// The offending text.
    pub fn token(&self) -> (r: &String)
        ensures
            r == match self {
                ResolutionError::Shape(t) => t,
                ResolutionError::Width(t) => t,
                ResolutionError::Height(t) => t,
            },
    {
        match self {
            ResolutionError::Shape(t) => t,
            ResolutionError::Width(t) => t,
            ResolutionError::Height(t) => t,
        }
    }
}

impl Resolution {
    /// Reads a resolution: a preset name (any ASCII case) first, else
    /// `<width>x<height>` with one lower-case `x` between two positive side
    /// lengths.
    pub fn from_str(s: &str) -> (r: Result<Resolution, ResolutionError>)
        ensures
            match r {
                Ok(v) => resolution_named(s@) == Ok::<(u32, u32), ResolutionFault>(v@),
                Err(e) => resolution_named(s@) == Err::<(u32, u32), ResolutionFault>(e@),
            },
    {
        if let Ok(p) = PresetResolution::from_str(s) {
            return Ok(p.resolution());
        }
        let n = s.unicode_len();
        match find_sole_x(s) {
            None => Err(ResolutionError::Shape(String::from_str(s))),
            Some(i) => {
                let w = s.substring_char(0, i);
                let h = s.substring_char(i + 1, n);
                match parse_side(w) {
                    None => Err(ResolutionError::Width(String::from_str(w))),
                    Some(a) => match parse_side(h) {
                        None => Err(ResolutionError::Height(String::from_str(h))),
                        Some(b) => Ok(Resolution::new(a, b)),
                    },
                }
            },
        }
    }
}

/// Bounds the square of an odd number below `2^33` times a side length.
proof fn lemma_square_fits(t: int, other: int)
    requires
        0 <= t < 0x2_0000_0000,
        0 <= other <= SIDE_MAX,
    ensures
        t * t <= 0x4_0000_0000_0000_0000,
        t * t * other < 0x1_0000_0000_0000_0000_0000_0000_0,
{
    assert(t * t <= 0x4_0000_0000_0000_0000) by (nonlinear_arith)
        requires
            0 <= t < 0x2_0000_0000,
    ;
    assert(t * t * other < 0x1_0000_0000_0000_0000_0000_0000_0) by (nonlinear_arith)
        requires
            0 <= t * t <= 0x4_0000_0000_0000_0000,
            0 <= other <= SIDE_MAX,
    ;
}

/// Whether `(2n - 1)^2 * other <= goal`, in exact arithmetic.
fn below_goal(n: u32, other: u32, goal: u128) -> (r: bool)
    requires
        n >= 1,
    ensures
        r == ((2 * n - 1) * (2 * n - 1) * other <= goal),
{
    let t: u128 = 2 * (n as u128) - 1;
    proof {
        lemma_square_fits(t as int, other as int);
    }
    t * t * (other as u128) <= goal
}

/// The side that `scaled_side` describes, found by bisection.
fn nearest_side(area: u64, side: u32, other: u32) -> (r: u32)
    requires
        other > 0,
    ensures
        scaled_side(r as int, area as int, side as int, other as int),
{
    assert(4 * (area as int) * (side as int) < 0x1_0000_0000_0000_0000_0000_0000_0) by (nonlinear_arith)
        requires
            0 <= area < 0x1_0000_0000_0000_0000,
            0 <= side <= SIDE_MAX,
    ;
    let goal: u128 = 4 * (area as u128) * (side as u128);
    let mut lo: u32 = 1;
    let mut hi: u32 = SIDE_MAX;
    while lo < hi
        invariant
            1 <= lo <= hi <= SIDE_MAX,
            goal == 4 * area * side,
            lo == 1 || (2 * lo - 1) * (2 * lo - 1) * other <= goal,
            hi == SIDE_MAX || goal < (2 * hi + 1) * (2 * hi + 1) * other,
        decreases hi - lo,
    {
        let mid: u32 = lo + (hi - lo + 1) / 2;
        if below_goal(mid, other, goal) {
            lo = mid;
        } else {
            hi = mid - 1;
            assert(2 * hi + 1 == 2 * mid - 1);
        }
    }
    lo
}

proof fn lemma_mul_le_both(x: int, xx: int, y: int, yy: int)
    requires
        0 <= x <= xx,
        0 <= y <= yy,
    ensures
        x * y <= xx * yy,
{
    assert(x * y <= xx * yy) by (nonlinear_arith)
        requires
            0 <= x <= xx,
            0 <= y <= yy,
    ;
}

proof fn lemma_mul_lt_both(x: int, xx: int, y: int, yy: int)
    requires
        0 <= x < xx,
        0 <= y < yy,
    ensures
        x * y < xx * yy,
{
    assert(x * y < xx * yy) by (nonlinear_arith)
        requires
            0 <= x < xx,
            0 <= y < yy,
    ;
}

/// From `p^2 * k <= q^2 * k` with `k > 0` and `p, q >= 0`: `p <= q`.
proof fn lemma_root_le(p: int, q: int, k: int)
    requires
        p >= 0,
        q >= 0,
        k > 0,
        p * p * k <= q * q * k,
    ensures
        p <= q,
{
    if p > q {
        assert(q * q * k < p * p * k) by (nonlinear_arith)
            requires
                0 <= q < p,
                k > 0,
        ;
    }
}

/// From `p^2 * k < q^2 * k` with `k > 0` and `p, q >= 0`: `p < q`.
proof fn lemma_root_lt(p: int, q: int, k: int)
    requires
        p >= 0,
        q >= 0,
        k > 0,
        p * p * k < q * q * k,
    ensures
        p < q,
{
    if p >= q {
        assert(q * q * k <= p * p * k) by (nonlinear_arith)
            requires
                0 <= q <= p,
                k > 0,
        ;
    }
}

/// The rounding that `scaled_side` describes has a single result: two
/// computations of a scaled side from the same values agree.
pub proof fn lemma_scaled_side_unique(a: int, b: int, area: int, side: int, other: int)
    requires
        other >= 0,
        scaled_side(a, area, side, other),
        scaled_side(b, area, side, other),
    ensures
        a == b,
{
    if a < b {
        assert((2 * a + 1) * (2 * a + 1) * other <= (2 * b - 1) * (2 * b - 1) * other)
            by (nonlinear_arith)
            requires
                0 <= 2 * a + 1 <= 2 * b - 1,
                other >= 0,
        ;
    } else if b < a {
        assert((2 * b + 1) * (2 * b + 1) * other <= (2 * a - 1) * (2 * a - 1) * other)
            by (nonlinear_arith)
            requires
                0 <= 2 * b + 1 <= 2 * a - 1,
                other >= 0,
        ;
    }
}

/// Scaling the same source to the same target twice gives the same size.
pub proof fn lemma_scaled_size_repeatable(
    target: Resolution,
    width: u32,
    height: u32,
    first: (u32, u32),
    second: (u32, u32),
)
    requires
        scaled_side(first.0 as int, target.area(), width as int, height as int),
        scaled_side(first.1 as int, target.area(), height as int, width as int),
        scaled_side(second.0 as int, target.area(), width as int, height as int),
        scaled_side(second.1 as int, target.area(), height as int, width as int),
    ensures
        first == second,
{
    lemma_scaled_side_unique(first.0 as int, second.0 as int, target.area(), width as int, height as int);
    lemma_scaled_side_unique(first.1 as int, second.1 as int, target.area(), height as int, width as int);
}

/// A scaled size keeps the source's shape and the target's pixel count, up
/// to the rounding of each side by at most one half:
/// `(w' - 1/2)(h' - 1/2) <= area < (w' + 1/2)(h' + 1/2)` and
/// `(w' - 1/2) / (h' + 1/2) < width / height < (w' + 1/2) / (h' - 1/2)`.
/// It holds wherever neither side had to be clamped into `1 ..= SIDE_MAX`.
pub proof fn lemma_scaled_size_keeps_shape(target: Resolution, width: u32, height: u32, w: int, h: int)
    requires
        target@.0 > 0,
        target@.1 > 0,
        width > 0,
        height > 0,
        scaled_side(w, target.area(), width as int, height as int),
        scaled_side(h, target.area(), height as int, width as int),
        height <= 4 * target.area() * width,
        width <= 4 * target.area() * height,
        4 * target.area() * width < (2 * SIDE_MAX + 1) * (2 * SIDE_MAX + 1) * height,
        4 * target.area() * height < (2 * SIDE_MAX + 1) * (2 * SIDE_MAX + 1) * width,
    ensures
        (2 * w - 1) * (2 * h - 1) <= 4 * target.area(),
        4 * target.area() < (2 * w + 1) * (2 * h + 1),
        (2 * w - 1) * height < (2 * h + 1) * width,
        (2 * h - 1) * width < (2 * w + 1) * height,
{
    let big_a = 4 * target.area();
    let sw = width as int;
    let sh = height as int;
    let a = 2 * w - 1;
    let b = 2 * w + 1;
    let c = 2 * h - 1;
    let d = 2 * h + 1;
    assert(target.area() > 0) by (nonlinear_arith)
        requires
            target@.0 > 0,
            target@.1 > 0,
            target.area() == target@.0 * target@.1,
    ;
    assert(big_a * sw > 0 && big_a * sh > 0 && sw * sh > 0) by (nonlinear_arith)
        requires
            big_a > 0,
            sw > 0,
            sh > 0,
    ;
    // the four bounds of the two roundings, with the clamped ends excluded
    if w == 1 {
        assert(a * a * sh == sh) by (nonlinear_arith)
            requires
                a == 1,
        ;
    }
    if h == 1 {
        assert(c * c * sw == sw) by (nonlinear_arith)
            requires
                c == 1,
        ;
    }
    assert(a * a * sh <= big_a * sw);
    assert(big_a * sw < b * b * sh);
    assert(c * c * sw <= big_a * sh);
    assert(big_a * sh < d * d * sw);
    assert(a * a * sh >= 0 && c * c * sw >= 0) by (nonlinear_arith)
        requires
            sh > 0,
            sw > 0,
    ;
    // pixel count
    lemma_mul_le_both(a * a * sh, big_a * sw, c * c * sw, big_a * sh);
    assert(a * a * sh * (c * c * sw) == (a * c) * (a * c) * (sw * sh)) by (nonlinear_arith);
    assert(big_a * sw * (big_a * sh) == big_a * big_a * (sw * sh)) by (nonlinear_arith);
    assert(a * c >= 0) by (nonlinear_arith)
        requires
            a >= 1,
            c >= 1,
    ;
    lemma_root_le(a * c, big_a, sw * sh);
    lemma_mul_lt_both(big_a * sw, b * b * sh, big_a * sh, d * d * sw);
    assert(b * b * sh * (d * d * sw) == (b * d) * (b * d) * (sw * sh)) by (nonlinear_arith);
    assert(b * d >= 0) by (nonlinear_arith)
        requires
            b >= 3,
            d >= 3,
    ;
    lemma_root_lt(big_a, b * d, sw * sh);
    // shape
    lemma_mul_le_both(a * a * sh, big_a * sw, big_a * sh, big_a * sh);
    lemma_mul_lt_both(big_a * sw, big_a * sw + 1, big_a * sh, d * d * sw);
    assert(big_a * sw * (big_a * sh) < big_a * sw * (d * d * sw)) by (nonlinear_arith)
        requires
            big_a * sw > 0,
            big_a * sh < d * d * sw,
    ;
    assert(a * a * sh * (big_a * sh) == (a * sh) * (a * sh) * big_a) by (nonlinear_arith);
    assert(big_a * sw * (d * d * sw) == (d * sw) * (d * sw) * big_a) by (nonlinear_arith);
    assert(a * sh >= 0 && d * sw >= 0) by (nonlinear_arith)
        requires
            a >= 1,
            d >= 3,
            sh > 0,
            sw > 0,
    ;
    lemma_root_lt(a * sh, d * sw, big_a);
    lemma_mul_le_both(c * c * sw, big_a * sh, big_a * sw, big_a * sw);
    assert(big_a * sh * (big_a * sw) < big_a * sh * (b * b * sh)) by (nonlinear_arith)
        requires
            big_a * sh > 0,
            big_a * sw < b * b * sh,
    ;
    assert(c * c * sw * (big_a * sw) == (c * sw) * (c * sw) * big_a) by (nonlinear_arith);
    assert(big_a * sh * (b * b * sh) == (b * sh) * (b * sh) * big_a) by (nonlinear_arith);
    assert(big_a * sh * (big_a * sw) == big_a * sw * (big_a * sh)) by (nonlinear_arith);
    assert(c * sw >= 0 && b * sh >= 0) by (nonlinear_arith)
        requires
            c >= 1,
            b >= 3,
            sh > 0,
            sw > 0,
    ;
    lemma_root_lt(c * sw, b * sh, big_a);
}

} // verus!
