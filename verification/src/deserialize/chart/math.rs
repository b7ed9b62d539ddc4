//! Circular arithmetic on the ring of button positions.
//!
//! Positions on a ring of `total_length` places are numbered `1..=total_length`.
//! The functions here compute in `i8`, as the chart format's reference code does:
//! each `u8` argument is reinterpreted as a signed byte, every intermediate step
//! is a checked `i8` operation and `%` is Rust's remainder (its sign follows the
//! dividend). The exact contracts follow that arithmetic; each function also
//! states the plain modular meaning on rings of at most 127 places.
use vstd::arithmetic::div_mod::{lemma_mod_add_multiples_vanish, lemma_small_mod};
use vstd::prelude::*;

verus! {

/// A direction of travel around the ring.
#[derive(Debug, Clone, Copy, PartialEq, Eq, Structural)]
pub enum Clockwise {
    Cw,
    Ccw,
}

/// `true` for clockwise.
pub open spec fn is_cw(c: Clockwise) -> bool {
    c is Cw
}

/// The direction that `true` (clockwise) or `false` stands for.
pub open spec fn clockwise_of(b: bool) -> Clockwise {
    if b {
        Clockwise::Cw
    } else {
        Clockwise::Ccw
    }
}

impl Clockwise {
    /// The opposite direction.
    pub fn reversed(self) -> (r: Self)
        ensures
            r == clockwise_of(!is_cw(self)),
    {
        clockwise_of_bool(!bool_of_clockwise(self))
    }
}

/// `true` for [`Clockwise::Cw`], `false` for [`Clockwise::Ccw`].
pub fn bool_of_clockwise(value: Clockwise) -> (r: bool)
    ensures
        r == is_cw(value),
{
    match value {
        Clockwise::Cw => true,
        Clockwise::Ccw => false,
    }
}

/// [`Clockwise::Cw`] for `true`, [`Clockwise::Ccw`] for `false`.
pub fn clockwise_of_bool(value: bool) -> (r: Clockwise)
    ensures
        r == clockwise_of(value),
{
    if value {
        Clockwise::Cw
    } else {
        Clockwise::Ccw
    }
}

impl From<Clockwise> for bool {
    fn from(value: Clockwise) -> (r: bool) {
        bool_of_clockwise(value)
    }
}

impl vstd::std_specs::convert::FromSpecImpl<Clockwise> for bool {
    open spec fn obeys_from_spec() -> bool {
        true
    }

    open spec fn from_spec(v: Clockwise) -> bool {
        is_cw(v)
    }
}

impl From<bool> for Clockwise {
    fn from(value: bool) -> (r: Clockwise) {
        clockwise_of_bool(value)
    }
}

impl vstd::std_specs::convert::FromSpecImpl<bool> for Clockwise {
    open spec fn obeys_from_spec() -> bool {
        true
    }

    open spec fn from_spec(v: bool) -> Clockwise {
        clockwise_of(v)
    }
}

// ---------------------------------------------------------------------------
// Signed-byte arithmetic
// ---------------------------------------------------------------------------

/// The value of a byte reinterpreted as a signed byte (`u8::cast_signed`).
pub open spec fn si(x: u8) -> int {
    if x < 128 {
        x as int
    } else {
        x - 256
    }
}

/// Whether `x` is the value of some `i8`.
pub open spec fn fits_i8(x: int) -> bool {
    -128 <= x <= 127
}

/// Rust's remainder `x % m` on signed integers: its sign is that of `x`.
pub open spec fn rem_t(x: int, m: int) -> int {
    let am = if m < 0 {
        -m
    } else {
        m
    };
    if x < 0 {
        -((-x) % am)
    } else {
        x % am
    }
}

/// Whether `x % m` is defined on `i8` values (no division by zero, no overflow).
pub open spec fn rem_ok(x: int, m: int) -> bool {
    m != 0 && !(x == -128 && m == -1)
}

/// The byte that a signed byte of value `x` reinterprets to (`i8::cast_unsigned`).
pub open spec fn to_u8(x: int) -> u8 {
    if x < 0 {
        (x + 256) as u8
    } else {
        x as u8
    }
}

/// Whether `a` is a position on a ring of `n` places.
pub open spec fn on_ring(a: u8, n: u8) -> bool {
    1 <= a <= n
}

fn signed(x: u8) -> (r: i16)
    ensures
        r == si(x),
{
    if x < 128 {
        x as i16
    } else {
        x as i16 - 256
    }
}

fn unsigned(x: i16) -> (r: u8)
    requires
        fits_i8(x as int),
    ensures
        r == to_u8(x as int),
{
    if x < 0 {
        (x + 256) as u8
    } else {
        x as u8
    }
}

fn rem_toward_zero(x: i16, m: i16) -> (r: i16)
    requires
        fits_i8(x as int),
        fits_i8(m as int),
        rem_ok(x as int, m as int),
    ensures
        r == rem_t(x as int, m as int),
        fits_i8(r as int),
{
    let am: u16 = if m < 0 {
        (-m) as u16
    } else {
        m as u16
    };
    if x < 0 {
        let ax: u16 = (-x) as u16;
        let r: u16 = ax % am;
        -(r as i16)
    } else {
        let ax: u16 = x as u16;
        let r: u16 = ax % am;
        r as i16
    }
}

// ---------------------------------------------------------------------------
// Directed distance
// ---------------------------------------------------------------------------

/// The signed sum whose remainder is the directed distance.
pub open spec fn directed_sum(a: u8, b: u8, n: u8, clockwise: Clockwise) -> int {
    if is_cw(clockwise) {
        si(b) - si(a) + si(n)
    } else {
        si(a) - si(b) + si(n)
    }
}

/// The inputs on which [`get_circular_distance_with_direction`] does not overflow.
pub open spec fn directed_distance_defined(a: u8, b: u8, n: u8, clockwise: Clockwise) -> bool {
    (on_ring(a, n) && on_ring(b, n) && a != b) ==> {
        let d = if is_cw(clockwise) {
            si(b) - si(a)
        } else {
            si(a) - si(b)
        };
        &&& fits_i8(d)
        &&& fits_i8(directed_sum(a, b, n, clockwise))
        &&& rem_ok(directed_sum(a, b, n, clockwise), si(n))
    }
}

/// What [`get_circular_distance_with_direction`] returns.
pub open spec fn directed_distance(a: u8, b: u8, n: u8, clockwise: Clockwise) -> u8 {
    if !(on_ring(a, n) && on_ring(b, n)) {
        0
    } else if a == b {
        n
    } else {
        to_u8(rem_t(directed_sum(a, b, n, clockwise), si(n)))
    }
}

/// Steps from `a` to `b` going in the given direction, on a ring of `n` places.
pub open spec fn ring_steps(a: int, b: int, n: int, clockwise: Clockwise) -> int {
    if is_cw(clockwise) {
        (b - a + n) % n
    } else {
        (a - b + n) % n
    }
}

/// The number of steps from `a` to `b` around a ring of `total_length` places in the
/// given direction; `total_length` when `a == b`, and `0` when either is not on the ring.
pub fn get_circular_distance_with_direction(
    a: u8,
    b: u8,
    total_length: u8,
    clockwise: Clockwise,
) -> (r: u8)
    requires
        directed_distance_defined(a, b, total_length, clockwise),
    ensures
        r == directed_distance(a, b, total_length, clockwise),
        on_ring(a, total_length) && on_ring(b, total_length) && a != b && total_length <= 64
            ==> r == ring_steps(a as int, b as int, total_length as int, clockwise),
{
    if a < 1 || a > total_length || b < 1 || b > total_length {
        return 0;
    }
    if a == b {
        return total_length;
    }
    let sa = signed(a);
    let sb = signed(b);
    let w = signed(total_length);
    let r = match clockwise {
        Clockwise::Cw => {
            let d = sb - sa;
            unsigned(rem_toward_zero(d + w, w))
        },
        Clockwise::Ccw => {
            let d = sa - sb;
            unsigned(rem_toward_zero(d + w, w))
        },
    };
    proof {
        if total_length <= 64 {
            lemma_directed_distance_plain(a, b, total_length, clockwise);
        }
    }
    r
}

/// On rings of at most 64 places the signed-byte computation is plain modular arithmetic.
proof fn lemma_directed_distance_plain(a: u8, b: u8, n: u8, clockwise: Clockwise)
    requires
        on_ring(a, n),
        on_ring(b, n),
        a != b,
        n <= 64,
    ensures
        directed_distance_defined(a, b, n, clockwise),
        directed_distance(a, b, n, clockwise) == ring_steps(a as int, b as int, n as int, clockwise),
        1 <= ring_steps(a as int, b as int, n as int, clockwise) < n,
{
    let x = directed_sum(a, b, n, clockwise);
    assert(0 < x < 2 * n);
    assert(x % (n as int) == ring_steps(a as int, b as int, n as int, clockwise));
    if x < n {
        lemma_small_mod(x as nat, n as nat);
    } else {
        lemma_small_mod((x - n) as nat, n as nat);
        lemma_mod_add_multiples_vanish(x - n, n as int);
    }
}

// ---------------------------------------------------------------------------
// Nearest distance
// ---------------------------------------------------------------------------

/// The clockwise offset from `a` to `b`, normalised to be non-negative.
pub open spec fn nearest_offset(a: u8, b: u8, n: u8) -> int {
    let t = rem_t(si(b) - si(a), si(n));
    if t < 0 {
        t + si(n)
    } else {
        t
    }
}

/// The inputs on which [`get_nearest_circular_distance`] does not overflow.
pub open spec fn nearest_distance_defined(a: u8, b: u8, n: u8) -> bool {
    (on_ring(a, n) && on_ring(b, n)) ==> {
        let t = rem_t(si(b) - si(a), si(n));
        &&& fits_i8(si(b) - si(a))
        &&& rem_ok(si(b) - si(a), si(n))
        &&& (t < 0 ==> fits_i8(t + si(n)))
        &&& fits_i8(si(n) - nearest_offset(a, b, n))
    }
}

/// What [`get_nearest_circular_distance`] returns.
pub open spec fn nearest_distance(a: u8, b: u8, n: u8) -> (u8, Clockwise) {
    if !(on_ring(a, n) && on_ring(b, n)) {
        (0, Clockwise::Cw)
    } else {
        let t = nearest_offset(a, b, n);
        let cw_steps = t;
        let ccw_steps = si(n) - t;
        if t == 0 {
            (0, Clockwise::Cw)
        } else if cw_steps < ccw_steps {
            (to_u8(cw_steps), Clockwise::Cw)
        } else if ccw_steps < cw_steps {
            (to_u8(ccw_steps), Clockwise::Ccw)
        } else {
            (to_u8(cw_steps), Clockwise::Cw)
        }
    }
}

/// The shorter way from `a` to `b` on a ring of `n` places: its length and direction,
/// clockwise on a tie, `(0, Cw)` when `a == b`.
pub open spec fn ring_nearest(a: int, b: int, n: int) -> (int, Clockwise) {
    let d = (b - a + n) % n;
    if d == 0 {
        (0, Clockwise::Cw)
    } else if d < n - d {
        (d, Clockwise::Cw)
    } else if n - d < d {
        (n - d, Clockwise::Ccw)
    } else {
        (d, Clockwise::Cw)
    }
}

/// The length and direction of the shorter way from `a` to `b` around a ring of
/// `total_length` places (clockwise on a tie); `(0, Cw)` when `a == b` or when either
/// is not on the ring.
pub fn get_nearest_circular_distance(a: u8, b: u8, total_length: u8) -> (r: (u8, Clockwise))
    requires
        nearest_distance_defined(a, b, total_length),
    ensures
        r == nearest_distance(a, b, total_length),
        on_ring(a, total_length) && on_ring(b, total_length) && total_length <= 127 ==> r.0
            == ring_nearest(a as int, b as int, total_length as int).0 && r.1 == ring_nearest(
            a as int,
            b as int,
            total_length as int,
        ).1,
{
    if a < 1 || a > total_length || b < 1 || b > total_length {
        return (0, Clockwise::Cw);
    }
    let sa = signed(a);
    let sb = signed(b);
    let w = signed(total_length);
    let t = rem_toward_zero(sb - sa, w);
    let t = if t < 0 {
        t + w
    } else {
        t
    };
    let cw_steps = t;
    let ccw_steps = w - t;
    let r = if t == 0 {
        (0, Clockwise::Cw)
    } else if cw_steps < ccw_steps {
        (unsigned(cw_steps), Clockwise::Cw)
    } else if ccw_steps < cw_steps {
        (unsigned(ccw_steps), Clockwise::Ccw)
    } else {
        (unsigned(cw_steps), Clockwise::Cw)
    };
    proof {
        if total_length <= 127 {
            lemma_nearest_offset_plain(a, b, total_length);
        }
    }
    r
}

/// On rings of at most 127 places the offset is the plain clockwise distance.
proof fn lemma_nearest_offset_plain(a: u8, b: u8, n: u8)
    requires
        on_ring(a, n),
        on_ring(b, n),
        n <= 127,
    ensures
        nearest_distance_defined(a, b, n),
        nearest_offset(a, b, n) == (b - a + n) % (n as int),
        0 <= nearest_offset(a, b, n) < n,
{
    let x = b - a;
    if x >= 0 {
        lemma_small_mod(x as nat, n as nat);
        lemma_mod_add_multiples_vanish(x, n as int);
    } else {
        lemma_small_mod((-x) as nat, n as nat);
        lemma_small_mod((x + n) as nat, n as nat);
    }
}

// ---------------------------------------------------------------------------
// Moving around the ring
// ---------------------------------------------------------------------------

/// The signed sum whose remainder, plus one, is the position reached.
pub open spec fn move_sum(a: u8, b: u8, n: u8, clockwise: Clockwise) -> int {
    if is_cw(clockwise) {
        si(a) + si(b) - 1
    } else {
        si(a) - si(b) + (si(n) - 1)
    }
}

/// The inputs on which [`move_circular`] does not overflow or divide by zero.
pub open spec fn move_defined(a: u8, b: u8, n: u8, clockwise: Clockwise) -> bool {
    let x = move_sum(a, b, n, clockwise);
    &&& if is_cw(clockwise) {
        fits_i8(si(a) + si(b))
    } else {
        fits_i8(si(n) - 1) && fits_i8(si(a) - si(b))
    }
    &&& fits_i8(x)
    &&& rem_ok(x, si(n))
    &&& fits_i8(rem_t(x, si(n)) + 1)
}

/// What [`move_circular`] returns.
pub open spec fn moved(a: u8, b: u8, n: u8, clockwise: Clockwise) -> u8 {
    to_u8(rem_t(move_sum(a, b, n, clockwise), si(n)) + 1)
}

/// The position reached from `a` after `b` steps in the given direction, on a ring of `n`.
pub open spec fn ring_move(a: int, b: int, n: int, clockwise: Clockwise) -> int {
    if is_cw(clockwise) {
        (a - 1 + b) % n + 1
    } else {
        (a - 1 - b + n) % n + 1
    }
}

/// The bounds within which [`move_circular`] is plain modular arithmetic.
pub open spec fn move_plain(a: u8, b: u8, n: u8, clockwise: Clockwise) -> bool {
    &&& on_ring(a, n)
    &&& n <= 64
    &&& if is_cw(clockwise) {
        a + b <= 127
    } else {
        b <= a + n - 1
    }
}

/// The position reached from `a` after `b` steps around a ring of `total_length` places.
pub fn move_circular(a: u8, b: u8, total_length: u8, clockwise: Clockwise) -> (r: u8)
    requires
        move_defined(a, b, total_length, clockwise),
    ensures
        r == moved(a, b, total_length, clockwise),
        move_plain(a, b, total_length, clockwise) ==> r == ring_move(
            a as int,
            b as int,
            total_length as int,
            clockwise,
        ),
{
    let sa = signed(a);
    let sb = signed(b);
    let w = signed(total_length);
    let r = if bool_of_clockwise(clockwise) {
        let s = sa + sb;
        unsigned(rem_toward_zero(s - 1, w) + 1)
    } else {
        let w1 = w - 1;
        let d = sa - sb;
        unsigned(rem_toward_zero(d + w1, w) + 1)
    };
    proof {
        if move_plain(a, b, total_length, clockwise) {
            lemma_move_plain(a, b, total_length, clockwise);
        }
    }
    r
}

proof fn lemma_move_plain(a: u8, b: u8, n: u8, clockwise: Clockwise)
    requires
        move_plain(a, b, n, clockwise),
    ensures
        move_defined(a, b, n, clockwise),
        moved(a, b, n, clockwise) == ring_move(a as int, b as int, n as int, clockwise),
        1 <= ring_move(a as int, b as int, n as int, clockwise) <= n,
{
    let x = move_sum(a, b, n, clockwise);
    assert(x >= 0);
    assert(0 <= x % (n as int) < n) by {
        vstd::arithmetic::div_mod::lemma_mod_bound(x, n as int);
    }
}

/// Whether going the given way from tap position `index` turns clockwise: for a slide that
/// bends to the right, the positions 7, 8, 1 and 2 turn clockwise; to the left, the others do.
pub open spec fn turns_clockwise(index: u8, right: bool) -> bool {
    let upper = index == 7 || index == 8 || index == 1 || index == 2;
    if right {
        upper
    } else {
        !upper
    }
}

fn in_upper_half(index: u8) -> (r: bool)
    ensures
        r == (index == 7 || index == 8 || index == 1 || index == 2),
{
    let right_clockwise: [u8; 4] = [7, 8, 1, 2];
    let mut i: usize = 0;
    while i < 4
        invariant
            0 <= i <= 4,
            right_clockwise@ == seq![7u8, 8u8, 1u8, 2u8],
            forall|j: int| 0 <= j < i ==> right_clockwise@[j] != index,
        decreases 4 - i,
    {
        if right_clockwise[i] == index {
            return true;
        }
        i = i + 1;
    }
    false
}

/// The turning direction of a side arc that starts at `location` and bends right or left.
pub fn determine_clockwise(location: &crate::deserialize::element::notes::Location, right: bool) -> (r:
    Clockwise)
    ensures
        r == clockwise_of(turns_clockwise(location.index, right)),
{
    let upper = in_upper_half(location.index);
    if right {
        clockwise_of_bool(upper)
    } else {
        clockwise_of_bool(!upper)
    }
}

// ---------------------------------------------------------------------------
// Laws of the ring
// ---------------------------------------------------------------------------

/// `x % n` for `0 <= x < 2n`: either `x` or `x - n`.
proof fn lemma_mod_once(x: int, n: int)
    requires
        n > 0,
        0 <= x < 2 * n,
    ensures
        x % n == if x < n {
            x
        } else {
            x - n
        },
{
    if x < n {
        lemma_small_mod(x as nat, n as nat);
    } else {
        lemma_small_mod((x - n) as nat, n as nat);
        lemma_mod_add_multiples_vanish(x - n, n);
    }
}

/// Reversing a direction twice gives the direction back, and converting a direction to
/// `bool` and back gives it back.
pub proof fn law_reversed_involutive(c: Clockwise)
    ensures
        clockwise_of(!is_cw(clockwise_of(!is_cw(c)))) == c,
        clockwise_of(is_cw(c)) == c,
        clockwise_of(!is_cw(c)) != c,
{
}

/// Going clockwise and going counter-clockwise between two distinct positions together
/// take one full turn of the ring.
pub proof fn law_directed_distances_complement(a: u8, b: u8, n: u8)
    requires
        on_ring(a, n),
        on_ring(b, n),
        a != b,
        n <= 64,
    ensures
        directed_distance(a, b, n, Clockwise::Cw) + directed_distance(a, b, n, Clockwise::Ccw)
            == n,
{
    lemma_directed_distance_plain(a, b, n, Clockwise::Cw);
    lemma_directed_distance_plain(a, b, n, Clockwise::Ccw);
    lemma_mod_once(b - a + n, n as int);
    lemma_mod_once(a - b + n, n as int);
}

/// Moving `d` steps (`1 <= d <= n`) from a position and then measuring the way back to the
/// start of the move in the same direction gives `d`.
pub proof fn law_move_then_measure(a: u8, d: u8, n: u8, clockwise: Clockwise)
    requires
        on_ring(a, n),
        1 <= d <= n,
        n <= 64,
        n + d <= 127,
    ensures
        move_defined(a, d, n, clockwise),
        on_ring(moved(a, d, n, clockwise), n),
        directed_distance_defined(a, moved(a, d, n, clockwise), n, clockwise),
        directed_distance(a, moved(a, d, n, clockwise), n, clockwise) == d,
{
    lemma_move_plain(a, d, n, clockwise);
    let m = moved(a, d, n, clockwise);
    if is_cw(clockwise) {
        lemma_mod_once(a - 1 + d, n as int);
    } else {
        lemma_mod_once(a - 1 - d + n, n as int);
    }
    if m != a {
        lemma_directed_distance_plain(a, m, n, clockwise);
        if is_cw(clockwise) {
            lemma_mod_once(m - a + n, n as int);
        } else {
            lemma_mod_once(a - m + n, n as int);
        }
    }
}

/// Moving `d` steps one way and then `d` steps the other way returns to the start.
pub proof fn law_move_round_trip(a: u8, d: u8, n: u8, clockwise: Clockwise)
    requires
        on_ring(a, n),
        d <= n,
        n <= 64,
        n + d <= 127,
    ensures
        move_defined(a, d, n, clockwise),
        move_defined(moved(a, d, n, clockwise), d, n, clockwise_of(!is_cw(clockwise))),
        moved(moved(a, d, n, clockwise), d, n, clockwise_of(!is_cw(clockwise))) == a,
{
    lemma_move_plain(a, d, n, clockwise);
    let m = moved(a, d, n, clockwise);
    if is_cw(clockwise) {
        lemma_mod_once(a - 1 + d, n as int);
    } else {
        lemma_mod_once(a - 1 - d + n, n as int);
    }
    lemma_move_plain(m, d, n, clockwise_of(!is_cw(clockwise)));
    if is_cw(clockwise) {
        lemma_mod_once(m - 1 - d + n, n as int);
    } else {
        lemma_mod_once(m - 1 + d, n as int);
    }
}

/// The nearest distance between two distinct positions is the directed distance in the
/// direction it names, is no longer than the way the other direction, and is at most half
/// the ring.
pub proof fn law_nearest_is_shortest(a: u8, b: u8, n: u8)
    requires
        on_ring(a, n),
        on_ring(b, n),
        a != b,
        n <= 64,
    ensures
        nearest_distance(a, b, n).0 == directed_distance(a, b, n, nearest_distance(a, b, n).1),
        nearest_distance(a, b, n).0 <= directed_distance(
            a,
            b,
            n,
            clockwise_of(!is_cw(nearest_distance(a, b, n).1)),
        ),
        2 * nearest_distance(a, b, n).0 <= n,
        nearest_distance(a, b, n).0 >= 1,
{
    lemma_nearest_offset_plain(a, b, n);
    lemma_directed_distance_plain(a, b, n, Clockwise::Cw);
    lemma_directed_distance_plain(a, b, n, Clockwise::Ccw);
    lemma_mod_once(b - a + n, n as int);
    lemma_mod_once(a - b + n, n as int);
}

/// One step clockwise goes to the next number up (after `n` comes 1); one step
/// counter-clockwise goes to the next number down (before 1 comes `n`).
pub proof fn law_one_step(a: u8, n: u8)
    requires
        on_ring(a, n),
        n <= 64,
    ensures
        moved(a, 1, n, Clockwise::Cw) == if a == n {
            1int
        } else {
            a + 1
        },
        moved(a, 1, n, Clockwise::Ccw) == if a == 1 {
            n as int
        } else {
            a - 1
        },
{
    lemma_move_plain(a, 1, n, Clockwise::Cw);
    lemma_move_plain(a, 1, n, Clockwise::Ccw);
    lemma_mod_once(a - 1 + 1, n as int);
    lemma_mod_once(a - 1 - 1 + n, n as int);
}

/// Clockwise the way from `a` to another position `b` counts up: `b - a` steps when `b` is
/// above `a`, `b - a + n` when it is below; counter-clockwise it counts down. From a
/// position to itself either way is one full turn.
pub proof fn law_directed_steps(a: u8, b: u8, n: u8)
    requires
        on_ring(a, n),
        on_ring(b, n),
        n <= 64,
    ensures
        directed_distance(a, a, n, Clockwise::Cw) == n,
        directed_distance(a, a, n, Clockwise::Ccw) == n,
        a != b ==> directed_distance(a, b, n, Clockwise::Cw) == if b > a {
            b - a
        } else {
            b - a + n
        },
        a != b ==> directed_distance(a, b, n, Clockwise::Ccw) == if a > b {
            a - b
        } else {
            a - b + n
        },
{
    if a != b {
        lemma_directed_distance_plain(a, b, n, Clockwise::Cw);
        lemma_directed_distance_plain(a, b, n, Clockwise::Ccw);
        lemma_mod_once(b - a + n, n as int);
        lemma_mod_once(a - b + n, n as int);
    }
}

/// The nearest way between two distinct positions is clockwise, of `c` steps, when the
/// clockwise way `c` is at most half the ring (so clockwise on a tie), and otherwise
/// counter-clockwise, of `n - c` steps; from a position to itself it is no steps, clockwise.
pub proof fn law_nearest_direction(a: u8, b: u8, n: u8)
    requires
        on_ring(a, n),
        on_ring(b, n),
        n <= 64,
    ensures
        a == b ==> nearest_distance(a, b, n) == (0u8, Clockwise::Cw),
        a != b ==> {
            let c: int = if b > a {
                b - a
            } else {
                b - a + n
            };
            nearest_distance(a, b, n) == if 2 * c <= n {
                (c as u8, Clockwise::Cw)
            } else {
                ((n - c) as u8, Clockwise::Ccw)
            }
        },
{
    lemma_nearest_offset_plain(a, b, n);
    lemma_mod_once(b - a + n, n as int);
}

/// A side arc that bends right from a button in the upper half (7, 8, 1 or 2) turns
/// clockwise, and from any other button counter-clockwise; bending left turns the other way.
pub proof fn law_turn_sides(index: u8)
    ensures
        turns_clockwise(index, true) == (index == 7 || index == 8 || index == 1 || index == 2),
        turns_clockwise(index, false) == !turns_clockwise(index, true),
{
}

/// The nearest distance from `a` to `b` equals the nearest distance from `b` to `a`.
pub proof fn law_nearest_symmetric(a: u8, b: u8, n: u8)
    requires
        on_ring(a, n),
        on_ring(b, n),
        n <= 127,
    ensures
        nearest_distance(a, b, n).0 == nearest_distance(b, a, n).0,
{
    lemma_nearest_offset_plain(a, b, n);
    lemma_nearest_offset_plain(b, a, n);
    lemma_mod_once(b - a + n, n as int);
    lemma_mod_once(a - b + n, n as int);
}

} // verus!
