//! Fixed-point arithmetic of the arena.
//!
//! Every quantity is an integer. Lengths and coordinates count thousandths of
//! an arena unit, durations count milliseconds, and angles count thousandths
//! of a degree. A direction is a vector whose components count millionths, so
//! that `(1_000_000, 0)` points along the positive x axis.

use vstd::prelude::*;

verus! {

/// Thousandths in one arena unit, one second or one degree.
pub const UNIT: i32 = 1000;

/// The length of a unit direction vector.
pub const DIRECTION_SCALE: i32 = 1_000_000;

/// A quarter turn in thousandths of a degree.
pub const QUARTER_TURN: i32 = 90_000;

/// A full turn in thousandths of a degree.
pub const FULL_TURN: i32 = 360_000;

/// The nearest coordinate to `v` that an `i32` can hold.
pub open spec fn clamp_coord(v: int) -> int {
    if v < i32::MIN {
        i32::MIN as int
    } else if v > i32::MAX {
        i32::MAX as int
    } else {
        v
    }
}

/// Division that rounds toward zero, for a positive divisor.
pub open spec fn div_toward_zero(a: int, b: int) -> int {
    if a >= 0 {
        a / b
    } else {
        -((-a) / b)
    }
}

/// The part of a step of length `dist` that falls on an axis on which the
/// direction has the given component.
pub open spec fn along(component: int, dist: int) -> int {
    div_toward_zero(component * dist, DIRECTION_SCALE as int)
}

/// The sine of a whole number of degrees between 0 and 90, in millionths.
#[verifier::opaque]
pub open spec fn sine_of_degree(d: int) -> int {
    match d as u32 {
        0 => 0,
        1 => 17452,
        2 => 34899,
        3 => 52336,
        4 => 69756,
        5 => 87156,
        6 => 104528,
        7 => 121869,
        8 => 139173,
        9 => 156434,
        10 => 173648,
        11 => 190809,
        12 => 207912,
        13 => 224951,
        14 => 241922,
        15 => 258819,
        16 => 275637,
        17 => 292372,
        18 => 309017,
        19 => 325568,
        20 => 342020,
        21 => 358368,
        22 => 374607,
        23 => 390731,
        24 => 406737,
        25 => 422618,
        26 => 438371,
        27 => 453990,
        28 => 469472,
        29 => 484810,
        30 => 500000,
        31 => 515038,
        32 => 529919,
        33 => 544639,
        34 => 559193,
        35 => 573576,
        36 => 587785,
        37 => 601815,
        38 => 615661,
        39 => 629320,
        40 => 642788,
        41 => 656059,
        42 => 669131,
        43 => 681998,
        44 => 694658,
        45 => 707107,
        46 => 719340,
        47 => 731354,
        48 => 743145,
        49 => 754710,
        50 => 766044,
        51 => 777146,
        52 => 788011,
        53 => 798636,
        54 => 809017,
        55 => 819152,
        56 => 829038,
        57 => 838671,
        58 => 848048,
        59 => 857167,
        60 => 866025,
        61 => 874620,
        62 => 882948,
        63 => 891007,
        64 => 898794,
        65 => 906308,
        66 => 913545,
        67 => 920505,
        68 => 927184,
        69 => 933580,
        70 => 939693,
        71 => 945519,
        72 => 951057,
        73 => 956305,
        74 => 961262,
        75 => 965926,
        76 => 970296,
        77 => 974370,
        78 => 978148,
        79 => 981627,
        80 => 984808,
        81 => 987688,
        82 => 990268,
        83 => 992546,
        84 => 994522,
        85 => 996195,
        86 => 997564,
        87 => 998630,
        88 => 999391,
        89 => 999848,
        _ => 1000000,
    }
}

/// The sine of an angle between 0 and a quarter turn, in millionths. Between
/// two whole degrees the value is interpolated linearly and rounded down.
pub open spec fn sine_of(angle: int) -> int {
    let d = angle / (UNIT as int);
    let f = angle % (UNIT as int);
    if f == 0 {
        sine_of_degree(d)
    } else {
        sine_of_degree(d) + (sine_of_degree(d + 1) - sine_of_degree(d)) * f / (UNIT as int)
    }
}

/// The heading in `[0, FULL_TURN)` that points the same way as `heading`.
pub open spec fn normalized(heading: int) -> int {
    heading % (FULL_TURN as int)
}

/// The unit vector along a heading. Heading 0 points along the positive x
/// axis, and a quarter turn points along the positive y axis.
pub open spec fn direction_of(heading: int) -> Direction {
    direction_within_turn(normalized(heading))
}

/// The unit vector along a heading in `[0, FULL_TURN)`: the sine and cosine
/// of the angle past the last quarter turn, placed by quadrant.
pub open spec fn direction_within_turn(h: int) -> Direction {
    let q = h / (QUARTER_TURN as int);
    let r = h % (QUARTER_TURN as int);
    let s = sine_of(r);
    let c = sine_of(QUARTER_TURN - r);
    if q == 0 {
        Direction { x: c as i32, y: s as i32 }
    } else if q == 1 {
        Direction { x: (-s) as i32, y: c as i32 }
    } else if q == 2 {
        Direction { x: (-c) as i32, y: (-s) as i32 }
    } else {
        Direction { x: s as i32, y: (-c) as i32 }
    }
}

/// A point of the arena, or an offset between two points.
#[derive(Clone, Copy, Debug, PartialEq, Eq, Structural)]
pub struct Vector2 {
    pub x: i32,
    pub y: i32,
}

/// A direction of travel, in millionths per unit of distance.
#[derive(Clone, Copy, Debug, PartialEq, Eq, Structural)]
pub struct Direction {
    pub x: i32,
    pub y: i32,
}

impl Vector2 {
    pub open spec fn origin() -> Vector2 {
        Vector2 { x: 0, y: 0 }
    }

    /// The point reached from `self` by the offset `(dx, dy)`, held back at
    /// the edge of what a coordinate can represent.
    pub open spec fn shifted(self, dx: int, dy: int) -> Vector2 {
        Vector2 { x: clamp_coord(self.x + dx) as i32, y: clamp_coord(self.y + dy) as i32 }
    }

    /// The point reached from `self` by travelling `dist` along `dir`.
    pub open spec fn moved(self, dir: Direction, dist: int) -> Vector2 {
        self.shifted(along(dir.x as int, dist), along(dir.y as int, dist))
    }

    pub fn new(x: i32, y: i32) -> (v: Vector2)
        ensures
            v == (Vector2 { x, y }),
    {
        Vector2 { x, y }
    }

    pub fn zero() -> (v: Vector2)
        ensures
            v == Vector2::origin(),
    {
        Vector2 { x: 0, y: 0 }
    }

    /// Travels `dist` along `dir`. A negative `dist` travels backwards.
    pub fn advance(self, dir: Direction, dist: i64) -> (v: Vector2)
        ensures
            v == self.moved(dir, dist as int),
    {
        let dx = scale_component(dir.x, dist);
        let dy = scale_component(dir.y, dist);
        Vector2 { x: saturate(self.x as i128 + dx), y: saturate(self.y as i128 + dy) }
    }
}

/// Rounds a wide value to the nearest representable coordinate.
pub fn saturate(v: i128) -> (r: i32)
    ensures
        r == clamp_coord(v as int),
{
    if v < -0x8000_0000 {
        -0x8000_0000
    } else if v > 0x7fff_ffff {
        0x7fff_ffff
    } else {
        v as i32
    }
}

/// Computes [`along`] without overflow.
pub fn scale_component(component: i32, dist: i64) -> (r: i128)
    ensures
        r == along(component as int, dist as int),
        -0x4000_0000_0000_0000_0000_0000 <= r <= 0x4000_0000_0000_0000_0000_0000,
{
    let c: i128 = component as i128;
    let d: i128 = dist as i128;
    assert(-0x8000_0000 * 0x8000_0000_0000_0000 <= c * d <= 0x8000_0000 * 0x8000_0000_0000_0000)
        by (nonlinear_arith)
        requires
            -0x8000_0000 <= c <= 0x8000_0000,
            -0x8000_0000_0000_0000 <= d <= 0x8000_0000_0000_0000,
    ;
    let product: i128 = c * d;
    product / 1_000_000
}

/// Reads the sine table.
pub fn sine_table(d: u32) -> (s: i32)
    requires
        d <= 90,
    ensures
        s == sine_of_degree(d as int),
{
    reveal(sine_of_degree);
    match d {
        0 => 0,
        1 => 17452,
        2 => 34899,
        3 => 52336,
        4 => 69756,
        5 => 87156,
        6 => 104528,
        7 => 121869,
        8 => 139173,
        9 => 156434,
        10 => 173648,
        11 => 190809,
        12 => 207912,
        13 => 224951,
        14 => 241922,
        15 => 258819,
        16 => 275637,
        17 => 292372,
        18 => 309017,
        19 => 325568,
        20 => 342020,
        21 => 358368,
        22 => 374607,
        23 => 390731,
        24 => 406737,
        25 => 422618,
        26 => 438371,
        27 => 453990,
        28 => 469472,
        29 => 484810,
        30 => 500000,
        31 => 515038,
        32 => 529919,
        33 => 544639,
        34 => 559193,
        35 => 573576,
        36 => 587785,
        37 => 601815,
        38 => 615661,
        39 => 629320,
        40 => 642788,
        41 => 656059,
        42 => 669131,
        43 => 681998,
        44 => 694658,
        45 => 707107,
        46 => 719340,
        47 => 731354,
        48 => 743145,
        49 => 754710,
        50 => 766044,
        51 => 777146,
        52 => 788011,
        53 => 798636,
        54 => 809017,
        55 => 819152,
        56 => 829038,
        57 => 838671,
        58 => 848048,
        59 => 857167,
        60 => 866025,
        61 => 874620,
        62 => 882948,
        63 => 891007,
        64 => 898794,
        65 => 906308,
        66 => 913545,
        67 => 920505,
        68 => 927184,
        69 => 933580,
        70 => 939693,
        71 => 945519,
        72 => 951057,
        73 => 956305,
        74 => 961262,
        75 => 965926,
        76 => 970296,
        77 => 974370,
        78 => 978148,
        79 => 981627,
        80 => 984808,
        81 => 987688,
        82 => 990268,
        83 => 992546,
        84 => 994522,
        85 => 996195,
        86 => 997564,
        87 => 998630,
        88 => 999391,
        89 => 999848,
        _ => 1000000,
    }
}

/// The table rises from 0 to the full scale.
pub proof fn lemma_sine_table_rises(d: int)
    requires
        0 <= d < 90,
    ensures
        0 <= sine_of_degree(d) <= sine_of_degree(d + 1) <= DIRECTION_SCALE,
{
    reveal(sine_of_degree);
}

/// An interpolated sine stays between 0 and the full scale.
pub proof fn lemma_sine_bounds(angle: int)
    requires
        0 <= angle <= QUARTER_TURN,
    ensures
        0 <= sine_of(angle) <= DIRECTION_SCALE,
{
    let d = angle / (UNIT as int);
    let f = angle % (UNIT as int);
    if f == 0 {
        if d < 90 {
            lemma_sine_table_rises(d);
        } else {
            lemma_sine_table_rises(89);
        }
    } else {
        lemma_sine_table_rises(d);
        let rise = sine_of_degree(d + 1) - sine_of_degree(d);
        assert(0 <= rise * f <= rise * 1000) by (nonlinear_arith)
            requires
                0 <= rise,
                0 <= f < 1000,
        ;
    }
}

/// Interpolates the sine of an angle between 0 and a quarter turn.
pub fn sine(angle: i32) -> (s: i32)
    requires
        0 <= angle <= QUARTER_TURN,
    ensures
        s == sine_of(angle as int),
        0 <= s <= DIRECTION_SCALE,
{
    proof {
        lemma_sine_bounds(angle as int);
    }
    let d: u32 = (angle / UNIT) as u32;
    let f: i32 = angle % UNIT;
    if f == 0 {
        sine_table(d)
    } else {
        proof {
            lemma_sine_table_rises(d as int);
        }
        let low: i32 = sine_table(d);
        let high: i32 = sine_table(d + 1);
        let rise: i64 = (high - low) as i64;
        assert(0 <= rise * f <= rise * 1000) by (nonlinear_arith)
            requires
                0 <= rise,
                0 <= f < 1000,
        ;
        low + ((rise * (f as i64)) / 1000) as i32
    }
}

/// Brings a heading into `[0, FULL_TURN)`.
pub fn normalize(heading: i64) -> (h: i32)
    ensures
        h == normalized(heading as int),
        0 <= h < FULL_TURN,
{
    let r: i64 = heading % 360_000;
    if r < 0 {
        (r + 360_000) as i32
    } else {
        r as i32
    }
}

/// The unit vector along a heading given in thousandths of a degree.
pub fn direction(heading: i32) -> (dir: Direction)
    ensures
        dir == direction_of(heading as int),
        -DIRECTION_SCALE <= dir.x <= DIRECTION_SCALE,
        -DIRECTION_SCALE <= dir.y <= DIRECTION_SCALE,
{
    let h: i32 = normalize(heading as i64);
    let q: i32 = h / QUARTER_TURN;
    let r: i32 = h % QUARTER_TURN;
    let s: i32 = sine(r);
    let c: i32 = sine(QUARTER_TURN - r);
    if q == 0 {
        Direction { x: c, y: s }
    } else if q == 1 {
        Direction { x: -s, y: c }
    } else if q == 2 {
        Direction { x: -c, y: -s }
    } else {
        Direction { x: s, y: -c }
    }
}

/// The four axis headings give exact axis directions.
pub proof fn lemma_axis_directions()
    ensures
        direction_of(0) == (Direction { x: 1_000_000, y: 0 }),
        direction_of(90_000) == (Direction { x: 0, y: 1_000_000 }),
        direction_of(180_000) == (Direction { x: -1_000_000i32, y: 0 }),
        direction_of(270_000) == (Direction { x: 0, y: -1_000_000i32 }),
{
    reveal(sine_of_degree);
}

/// Headings a full turn apart point the same way.
pub proof fn lemma_direction_is_periodic(heading: int)
    ensures
        direction_of(heading + FULL_TURN) == direction_of(heading),
        direction_of(normalized(heading)) == direction_of(heading),
{
    assert(normalized(heading + FULL_TURN) == normalized(heading));
    assert(normalized(normalized(heading)) == normalized(heading));
}

/// Along an axis direction a step keeps its whole length.
pub proof fn lemma_along_full_scale(dist: int)
    ensures
        along(DIRECTION_SCALE as int, dist) == dist,
        along(0, dist) == 0,
        along(-(DIRECTION_SCALE as int), dist) == -dist,
{
    assert(along(DIRECTION_SCALE as int, dist) == dist) by (nonlinear_arith);
    assert(along(-(DIRECTION_SCALE as int), dist) == -dist) by (nonlinear_arith);
    assert(0 * dist == 0);
}

/// The square of the length of a direction.
pub open spec fn length_squared(dir: Direction) -> int {
    dir.x * dir.x + dir.y * dir.y
}

/// The points `a` and `b` lie in the first quadrant, `b` above and to the
/// left of `a`, both close to the circle of radius [`DIRECTION_SCALE`] and
/// close to each other.
spec fn points_are_close(ax: int, ay: int, bx: int, by: int) -> bool {
    &&& 0 <= bx <= ax <= 1_000_000
    &&& 0 <= ay <= by <= 1_000_000
    &&& 999_999_000_000 <= ax * ax + ay * ay <= 1_000_002_000_000
    &&& 999_999_000_000 <= bx * bx + by * by <= 1_000_002_000_000
    &&& (bx - ax) * (bx - ax) + (by - ay) * (by - ay) <= 305_000_000
}

/// Two neighbouring entries of the table, read as the points of the circle
/// at `d` and at `d + 1` degrees, are close in the sense of
/// [`points_are_close`].
proof fn lemma_table_points(d: int)
    requires
        0 <= d < 90,
    ensures
        points_are_close(
            sine_of_degree(90 - d),
            sine_of_degree(d),
            sine_of_degree(89 - d),
            sine_of_degree(d + 1),
        ),
{
    reveal(sine_of_degree);
    if d == 0 { assert(points_are_close(1000000, 0, 999848, 17452)); }
    if d == 1 { assert(points_are_close(999848, 17452, 999391, 34899)); }
    if d == 2 { assert(points_are_close(999391, 34899, 998630, 52336)); }
    if d == 3 { assert(points_are_close(998630, 52336, 997564, 69756)); }
    if d == 4 { assert(points_are_close(997564, 69756, 996195, 87156)); }
    if d == 5 { assert(points_are_close(996195, 87156, 994522, 104528)); }
    if d == 6 { assert(points_are_close(994522, 104528, 992546, 121869)); }
    if d == 7 { assert(points_are_close(992546, 121869, 990268, 139173)); }
    if d == 8 { assert(points_are_close(990268, 139173, 987688, 156434)); }
    if d == 9 { assert(points_are_close(987688, 156434, 984808, 173648)); }
    if d == 10 { assert(points_are_close(984808, 173648, 981627, 190809)); }
    if d == 11 { assert(points_are_close(981627, 190809, 978148, 207912)); }
    if d == 12 { assert(points_are_close(978148, 207912, 974370, 224951)); }
    if d == 13 { assert(points_are_close(974370, 224951, 970296, 241922)); }
    if d == 14 { assert(points_are_close(970296, 241922, 965926, 258819)); }
    if d == 15 { assert(points_are_close(965926, 258819, 961262, 275637)); }
    if d == 16 { assert(points_are_close(961262, 275637, 956305, 292372)); }
    if d == 17 { assert(points_are_close(956305, 292372, 951057, 309017)); }
    if d == 18 { assert(points_are_close(951057, 309017, 945519, 325568)); }
    if d == 19 { assert(points_are_close(945519, 325568, 939693, 342020)); }
    if d == 20 { assert(points_are_close(939693, 342020, 933580, 358368)); }
    if d == 21 { assert(points_are_close(933580, 358368, 927184, 374607)); }
    if d == 22 { assert(points_are_close(927184, 374607, 920505, 390731)); }
    if d == 23 { assert(points_are_close(920505, 390731, 913545, 406737)); }
    if d == 24 { assert(points_are_close(913545, 406737, 906308, 422618)); }
    if d == 25 { assert(points_are_close(906308, 422618, 898794, 438371)); }
    if d == 26 { assert(points_are_close(898794, 438371, 891007, 453990)); }
    if d == 27 { assert(points_are_close(891007, 453990, 882948, 469472)); }
    if d == 28 { assert(points_are_close(882948, 469472, 874620, 484810)); }
    if d == 29 { assert(points_are_close(874620, 484810, 866025, 500000)); }
    if d == 30 { assert(points_are_close(866025, 500000, 857167, 515038)); }
    if d == 31 { assert(points_are_close(857167, 515038, 848048, 529919)); }
    if d == 32 { assert(points_are_close(848048, 529919, 838671, 544639)); }
    if d == 33 { assert(points_are_close(838671, 544639, 829038, 559193)); }
    if d == 34 { assert(points_are_close(829038, 559193, 819152, 573576)); }
    if d == 35 { assert(points_are_close(819152, 573576, 809017, 587785)); }
    if d == 36 { assert(points_are_close(809017, 587785, 798636, 601815)); }
    if d == 37 { assert(points_are_close(798636, 601815, 788011, 615661)); }
    if d == 38 { assert(points_are_close(788011, 615661, 777146, 629320)); }
    if d == 39 { assert(points_are_close(777146, 629320, 766044, 642788)); }
    if d == 40 { assert(points_are_close(766044, 642788, 754710, 656059)); }
    if d == 41 { assert(points_are_close(754710, 656059, 743145, 669131)); }
    if d == 42 { assert(points_are_close(743145, 669131, 731354, 681998)); }
    if d == 43 { assert(points_are_close(731354, 681998, 719340, 694658)); }
    if d == 44 { assert(points_are_close(719340, 694658, 707107, 707107)); }
    if d == 45 { assert(points_are_close(707107, 707107, 694658, 719340)); }
    if d == 46 { assert(points_are_close(694658, 719340, 681998, 731354)); }
    if d == 47 { assert(points_are_close(681998, 731354, 669131, 743145)); }
    if d == 48 { assert(points_are_close(669131, 743145, 656059, 754710)); }
    if d == 49 { assert(points_are_close(656059, 754710, 642788, 766044)); }
    if d == 50 { assert(points_are_close(642788, 766044, 629320, 777146)); }
    if d == 51 { assert(points_are_close(629320, 777146, 615661, 788011)); }
    if d == 52 { assert(points_are_close(615661, 788011, 601815, 798636)); }
    if d == 53 { assert(points_are_close(601815, 798636, 587785, 809017)); }
    if d == 54 { assert(points_are_close(587785, 809017, 573576, 819152)); }
    if d == 55 { assert(points_are_close(573576, 819152, 559193, 829038)); }
    if d == 56 { assert(points_are_close(559193, 829038, 544639, 838671)); }
    if d == 57 { assert(points_are_close(544639, 838671, 529919, 848048)); }
    if d == 58 { assert(points_are_close(529919, 848048, 515038, 857167)); }
    if d == 59 { assert(points_are_close(515038, 857167, 500000, 866025)); }
    if d == 60 { assert(points_are_close(500000, 866025, 484810, 874620)); }
    if d == 61 { assert(points_are_close(484810, 874620, 469472, 882948)); }
    if d == 62 { assert(points_are_close(469472, 882948, 453990, 891007)); }
    if d == 63 { assert(points_are_close(453990, 891007, 438371, 898794)); }
    if d == 64 { assert(points_are_close(438371, 898794, 422618, 906308)); }
    if d == 65 { assert(points_are_close(422618, 906308, 406737, 913545)); }
    if d == 66 { assert(points_are_close(406737, 913545, 390731, 920505)); }
    if d == 67 { assert(points_are_close(390731, 920505, 374607, 927184)); }
    if d == 68 { assert(points_are_close(374607, 927184, 358368, 933580)); }
    if d == 69 { assert(points_are_close(358368, 933580, 342020, 939693)); }
    if d == 70 { assert(points_are_close(342020, 939693, 325568, 945519)); }
    if d == 71 { assert(points_are_close(325568, 945519, 309017, 951057)); }
    if d == 72 { assert(points_are_close(309017, 951057, 292372, 956305)); }
    if d == 73 { assert(points_are_close(292372, 956305, 275637, 961262)); }
    if d == 74 { assert(points_are_close(275637, 961262, 258819, 965926)); }
    if d == 75 { assert(points_are_close(258819, 965926, 241922, 970296)); }
    if d == 76 { assert(points_are_close(241922, 970296, 224951, 974370)); }
    if d == 77 { assert(points_are_close(224951, 974370, 207912, 978148)); }
    if d == 78 { assert(points_are_close(207912, 978148, 190809, 981627)); }
    if d == 79 { assert(points_are_close(190809, 981627, 173648, 984808)); }
    if d == 80 { assert(points_are_close(173648, 984808, 156434, 987688)); }
    if d == 81 { assert(points_are_close(156434, 987688, 139173, 990268)); }
    if d == 82 { assert(points_are_close(139173, 990268, 121869, 992546)); }
    if d == 83 { assert(points_are_close(121869, 992546, 104528, 994522)); }
    if d == 84 { assert(points_are_close(104528, 994522, 87156, 996195)); }
    if d == 85 { assert(points_are_close(87156, 996195, 69756, 997564)); }
    if d == 86 { assert(points_are_close(69756, 997564, 52336, 998630)); }
    if d == 87 { assert(points_are_close(52336, 998630, 34899, 999391)); }
    if d == 88 { assert(points_are_close(34899, 999391, 17452, 999848)); }
    if d == 89 { assert(points_are_close(17452, 999848, 0, 1000000)); }
}

/// The square of a sum of two products.
proof fn lemma_square_of_blend(u: int, a: int, f: int, b: int)
    ensures
        (u * a + f * b) * (u * a + f * b) == (u * u) * (a * a) + 2 * ((u * f) * (a * b)) + (f * f)
            * (b * b),
{
    let p = u * a;
    let q = f * b;
    assert((p + q) * (p + q) == p * p + 2 * (p * q) + q * q) by (nonlinear_arith);
    assert(p * p == (u * u) * (a * a)) by (nonlinear_arith)
        requires
            p == u * a,
    ;
    assert(p * q == (u * f) * (a * b)) by (nonlinear_arith)
        requires
            p == u * a,
            q == f * b,
    ;
    assert(q * q == (f * f) * (b * b)) by (nonlinear_arith)
        requires
            q == f * b,
    ;
}

/// A point of the chord between two close points is itself close to the
/// circle. The point is given a thousand times enlarged: `1000 - f` parts
/// of `a` and `f` parts of `b`.
proof fn lemma_chord_point(ax: int, ay: int, bx: int, by: int, f: int)
    requires
        0 <= f < 1000,
        points_are_close(ax, ay, bx, by),
    ensures
        ({
            let x = (1000 - f) * ax + f * bx;
            let y = (1000 - f) * ay + f * by;
            999_922_000_000_000_000 <= x * x + y * y <= 1_000_002_000_000_000_000
        }),
{
    let u = 1000 - f;
    let x = u * ax + f * bx;
    let y = u * ay + f * by;
    let na = ax * ax + ay * ay;
    let nb = bx * bx + by * by;
    let dot = ax * bx + ay * by;
    let gap = (bx - ax) * (bx - ax) + (by - ay) * (by - ay);
    let uu = u * u;
    let uf = u * f;
    let ff = f * f;
    lemma_square_of_blend(u, ax, f, bx);
    lemma_square_of_blend(u, ay, f, by);
    assert(x * x + y * y == uu * na + 2 * (uf * dot) + ff * nb) by (nonlinear_arith)
        requires
            x * x == uu * (ax * ax) + 2 * (uf * (ax * bx)) + ff * (bx * bx),
            y * y == uu * (ay * ay) + 2 * (uf * (ay * by)) + ff * (by * by),
            na == ax * ax + ay * ay,
            nb == bx * bx + by * by,
            dot == ax * bx + ay * by,
    ;
    assert(gap == na + nb - 2 * dot) by (nonlinear_arith)
        requires
            na == ax * ax + ay * ay,
            nb == bx * bx + by * by,
            dot == ax * bx + ay * by,
            gap == (bx - ax) * (bx - ax) + (by - ay) * (by - ay),
    ;
    assert(uu * na + 2 * (uf * dot) + ff * nb == (uu + uf) * na + (uf + ff) * nb - uf * gap)
        by (nonlinear_arith)
        requires
            gap == na + nb - 2 * dot,
    ;
    assert(uu + uf == 1000 * u && uf + ff == 1000 * f) by (nonlinear_arith)
        requires
            uu == u * u,
            uf == u * f,
            ff == f * f,
            u + f == 1000,
    ;
    assert(0 <= uf <= 250_000) by (nonlinear_arith)
        requires
            uf == u * f,
            u + f == 1000,
            0 <= f < 1000,
    ;
    assert(gap >= 0) by (nonlinear_arith)
        requires
            gap == (bx - ax) * (bx - ax) + (by - ay) * (by - ay),
    ;
    assert(0 <= uf * gap <= 250_000 * 305_000_000) by (nonlinear_arith)
        requires
            0 <= uf <= 250_000,
            0 <= gap <= 305_000_000,
    ;
    assert((1000 * u) * 999_999_000_000 <= (1000 * u) * na <= (1000 * u) * 1_000_002_000_000)
        by (nonlinear_arith)
        requires
            0 < u <= 1000,
            999_999_000_000 <= na <= 1_000_002_000_000,
    ;
    assert((1000 * f) * 999_999_000_000 <= (1000 * f) * nb <= (1000 * f) * 1_000_002_000_000)
        by (nonlinear_arith)
        requires
            0 <= f < 1000,
            999_999_000_000 <= nb <= 1_000_002_000_000,
    ;
}

/// Rounding the enlarged point down to whole millionths keeps it close to
/// the circle.
proof fn lemma_rounded_point(x: int, y: int, c: int, s: int)
    requires
        0 <= c <= 1_000_000,
        0 <= s <= 1_000_000,
        1000 * c <= x < 1000 * c + 1000,
        1000 * s <= y < 1000 * s + 1000,
        999_922_000_000_000_000 <= x * x + y * y <= 1_000_002_000_000_000_000,
    ensures
        999_950 * 999_950 <= c * c + s * s <= 1_000_001 * 1_000_001,
{
    let low_x = 1000 * c;
    let low_y = 1000 * s;
    assert(low_x * low_x <= x * x <= (low_x + 1000) * (low_x + 1000)) by (nonlinear_arith)
        requires
            0 <= low_x <= x <= low_x + 1000,
    ;
    assert(low_y * low_y <= y * y <= (low_y + 1000) * (low_y + 1000)) by (nonlinear_arith)
        requires
            0 <= low_y <= y <= low_y + 1000,
    ;
    assert(low_x * low_x == 1_000_000 * (c * c) && (low_x + 1000) * (low_x + 1000) == 1_000_000 * (
    c * c) + 2_000_000 * c + 1_000_000) by (nonlinear_arith)
        requires
            low_x == 1000 * c,
    ;
    assert(low_y * low_y == 1_000_000 * (s * s) && (low_y + 1000) * (low_y + 1000) == 1_000_000 * (
    s * s) + 2_000_000 * s + 1_000_000) by (nonlinear_arith)
        requires
            low_y == 1000 * s,
    ;
}

/// The sine and the cosine that the table gives for an angle within a
/// quarter turn are the coordinates of a point close to the circle.
proof fn lemma_quarter_is_near_unit(angle: int)
    requires
        0 <= angle < QUARTER_TURN,
    ensures
        ({
            let s = sine_of(angle);
            let c = sine_of(QUARTER_TURN - angle);
            &&& 0 <= s <= DIRECTION_SCALE
            &&& 0 <= c <= DIRECTION_SCALE
            &&& 999_950 * 999_950 <= c * c + s * s <= 1_000_001 * 1_000_001
        }),
{
    let d = angle / 1000;
    let f = angle % 1000;
    let s = sine_of(angle);
    let c = sine_of(QUARTER_TURN - angle);
    lemma_sine_bounds(angle);
    lemma_sine_bounds(QUARTER_TURN - angle);
    lemma_table_points(d);
    let ax = sine_of_degree(90 - d);
    let ay = sine_of_degree(d);
    let bx = sine_of_degree(89 - d);
    let by = sine_of_degree(d + 1);
    lemma_chord_point(ax, ay, bx, by, f);
    let x = (1000 - f) * ax + f * bx;
    let y = (1000 - f) * ay + f * by;
    if f == 0 {
        assert((QUARTER_TURN - angle) / 1000 == 90 - d);
        assert((QUARTER_TURN - angle) % 1000 == 0);
        assert(s == ay);
        assert(c == ax);
        assert(x == 1000 * ax && y == 1000 * ay) by (nonlinear_arith)
            requires
                f == 0,
                x == (1000 - f) * ax + f * bx,
                y == (1000 - f) * ay + f * by,
        ;
    } else {
        assert((QUARTER_TURN - angle) / 1000 == 89 - d);
        assert((QUARTER_TURN - angle) % 1000 == 1000 - f);
        let rise = (by - ay) * f;
        let run = (ax - bx) * (1000 - f);
        assert(s == ay + rise / 1000);
        assert(c == bx + run / 1000);
        assert(y == 1000 * ay + rise) by (nonlinear_arith)
            requires
                y == (1000 - f) * ay + f * by,
                rise == (by - ay) * f,
        ;
        assert(x == 1000 * bx + run) by (nonlinear_arith)
            requires
                x == (1000 - f) * ax + f * bx,
                run == (ax - bx) * (1000 - f),
        ;
        assert(1000 * (rise / 1000) <= rise < 1000 * (rise / 1000) + 1000);
        assert(1000 * (run / 1000) <= run < 1000 * (run / 1000) + 1000);
    }
    lemma_rounded_point(x, y, c, s);
}

/// Every direction that a heading gives is a unit vector to within one part
/// in twenty thousand: its length lies between 0.99995 and 1.000001.
pub proof fn lemma_direction_is_near_unit(heading: int)
    ensures
        999_950 * 999_950 <= length_squared(direction_of(heading)) <= 1_000_001 * 1_000_001,
{
    let h = normalized(heading);
    let r = h % (QUARTER_TURN as int);
    lemma_quarter_is_near_unit(r);
    let s = sine_of(r);
    let c = sine_of(QUARTER_TURN - r);
    assert((-s) * (-s) == s * s) by (nonlinear_arith);
    assert((-c) * (-c) == c * c) by (nonlinear_arith);
}

} // verus!
