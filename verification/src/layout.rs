//! The layout solver: one-dimensional constraint partitioning of a
//! rectangle.
//!
//! `split_layout` cuts an area along one axis into as many rectangles as
//! there are constraints. The policy, stated by `spec_split`:
//!
//! 1. Every constraint is given a base size: `Length(n)`, `Min(n)` and
//!    `Max(n)` ask for `n`, `Percentage(p)` for `p` percent of the axis
//!    (`p` clamped to 100), `Ratio(num, den)` for `num/den` of the axis,
//!    and `Fill(_)` for nothing. Fractions round half up.
//! 2. Base sizes are granted left to right, each capped by the space that
//!    is still free.
//! 3. Space left after that goes to the `Fill(weight)` constraints in
//!    proportion to their weights, allocated by cumulative rounding so the
//!    pieces differ by at most one cell and sum exactly to the leftover.
//! 4. Space left after the fills is placed by the flex mode: `Legacy`
//!    stretches the last piece of the least firm constraint class
//!    present (fills before ratios, percentages, lengths, maxima and
//!    minima, in that order), `Start` leaves the space trailing, `End`
//!    leads with it, `Center` splits it evenly around the row, and the
//!    three spacing modes spread it between (and for `SpaceAround` /
//!    `SpaceEvenly` also outside) the pieces, again by cumulative
//!    rounding. `SpaceBetween` with a single piece stretches it.
//!
//! The solver is a pure function: the rectangles are fixed by the inputs
//! alone, so a host can call it again for hit testing and get the very
//! geometry the render pass used.

use vstd::arithmetic::div_mod::{lemma_div_is_ordered, lemma_div_multiples_vanish_fancy};
use vstd::arithmetic::mul::lemma_mul_inequality;
use vstd::prelude::*;

use crate::geometry::Rect;

verus! {

/// A sizing rule for one piece of a split area.
#[derive(Clone, Copy, Debug, PartialEq, Eq, Structural)]
pub enum Constraint {
    /// Exactly this many cells.
    Length(u16),
    /// This percentage of the axis, rounded half up; values over 100 count
    /// as 100.
    Percentage(u16),
    /// At least this many cells.
    Min(u16),
    /// At most this many cells.
    Max(u16),
    /// A share of the space left once the sized constraints are satisfied,
    /// in proportion to the weight.
    Fill(u16),
    /// `num/den` of the axis, rounded half up; a zero denominator asks for
    /// nothing.
    Ratio(u32, u32),
}

/// The axis along which an area is cut.
#[derive(Clone, Copy, Debug, PartialEq, Eq, Structural)]
pub enum Direction {
    Horizontal,
    Vertical,
}

/// What happens to space that no constraint claimed.
#[derive(Clone, Copy, Debug, PartialEq, Eq, Structural)]
pub enum Flex {
    /// Stretch the last piece over the excess.
    Legacy,
    /// Pack the pieces at the start; the excess trails.
    Start,
    /// Pack the pieces at the end.
    End,
    /// Centre the run of pieces.
    Center,
    /// Excess goes between the pieces only.
    SpaceBetween,
    /// Every piece gets equal space at both of its sides.
    SpaceAround,
    /// Equal gaps between the pieces and at both edges.
    SpaceEvenly,
}

pub open spec fn min_int(a: int, b: int) -> int {
    if a <= b {
        a
    } else {
        b
    }
}

/// `num / den`, rounded half up (denominator must be positive).
pub open spec fn rhu(num: int, den: int) -> int {
    (2 * num + den) / (2 * den)
}

pub proof fn lemma_rhu_monotone(a: int, b: int, den: int)
    requires
        a <= b,
        0 < den,
    ensures
        rhu(a, den) <= rhu(b, den),
{
    lemma_div_is_ordered(2 * a + den, 2 * b + den, 2 * den);
}

pub proof fn lemma_rhu_exact(l: int, den: int)
    requires
        0 < den,
    ensures
        rhu(l * den, den) == l,
{
    assert(2 * (l * den) + den == (2 * den) * l + den) by (nonlinear_arith);
    lemma_div_multiples_vanish_fancy(l, den, 2 * den);
}

pub proof fn lemma_rhu_nonneg(a: int, den: int)
    requires
        0 <= a,
        0 < den,
    ensures
        0 <= rhu(a, den),
{
    assert(0int == 0int / (2 * den)) by (nonlinear_arith)
        requires
            0 < den,
    ;
    lemma_div_is_ordered(0, 2 * a + den, 2 * den);
}

/// `rhu(l * k, den) <= l` whenever `k <= den`.
pub proof fn lemma_rhu_share_le(l: int, k: int, den: int)
    requires
        0 <= l,
        0 <= k <= den,
        0 < den,
    ensures
        0 <= rhu(l * k, den) <= l,
{
    lemma_mul_inequality(k, den, l);
    assert(k * l == l * k && den * l == l * den) by (nonlinear_arith);
    lemma_rhu_monotone(l * k, l * den, den);
    lemma_rhu_exact(l, den);
    lemma_mul_inequality(0, k, l);
    assert(0 * l == 0) by (nonlinear_arith);
    lemma_rhu_nonneg(l * k, den);
}

/// The size a constraint asks for before any capping, on an axis of
/// `total` cells.
pub open spec fn spec_base_size(c: Constraint, total: int) -> int {
    match c {
        Constraint::Length(n) => n as int,
        Constraint::Percentage(p) => rhu(total * min_int(p as int, 100), 100),
        Constraint::Min(n) => n as int,
        Constraint::Max(n) => n as int,
        Constraint::Fill(_) => 0,
        Constraint::Ratio(num, den) => if den == 0 {
            0
        } else {
            min_int(total, rhu(total * num, den as int))
        },
    }
}

pub proof fn lemma_base_size_bounds(c: Constraint, total: int)
    requires
        0 <= total,
    ensures
        0 <= spec_base_size(c, total),
        spec_base_size(c, total) <= 0xffff || spec_base_size(c, total) <= total,
{
    match c {
        Constraint::Percentage(p) => {
            lemma_rhu_share_le(total, min_int(p as int, 100), 100);
        },
        Constraint::Ratio(num, den) => {
            if den != 0 {
                if num as int <= den as int {
                    lemma_rhu_share_le(total, num as int, den as int);
                } else {
                    lemma_mul_inequality(0, num as int, total);
                    assert(0 * total == 0 && (num as int) * total == total * (num as int))
                        by (nonlinear_arith);
                    lemma_rhu_nonneg(total * num, den as int);
                }
            }
        },
        _ => {},
    }
}

/// Free space on the axis after the first `i` constraints took their
/// (capped) base sizes.
pub open spec fn spec_remaining(cs: Seq<Constraint>, total: int, i: int) -> int
    decreases i,
{
    if i <= 0 {
        total
    } else {
        let before = spec_remaining(cs, total, i - 1);
        before - min_int(spec_base_size(cs[i - 1], total), before)
    }
}

/// The capped base size granted to constraint `i`.
pub open spec fn spec_clamped_size(cs: Seq<Constraint>, total: int, i: int) -> int {
    min_int(spec_base_size(cs[i], total), spec_remaining(cs, total, i))
}

pub proof fn lemma_remaining_bounds(cs: Seq<Constraint>, total: int, i: int)
    requires
        0 <= total,
        0 <= i,
    ensures
        0 <= spec_remaining(cs, total, i) <= total,
    decreases i,
{
    if i > 0 {
        lemma_remaining_bounds(cs, total, i - 1);
        lemma_base_size_bounds(cs[i - 1], total);
    }
}

/// The fill weight a constraint contributes.
pub open spec fn spec_weight(c: Constraint) -> int {
    match c {
        Constraint::Fill(w) => w as int,
        _ => 0,
    }
}

/// Sum of the fill weights of the first `i` constraints.
pub open spec fn spec_cum_weight(cs: Seq<Constraint>, i: int) -> int
    decreases i,
{
    if i <= 0 {
        0
    } else {
        spec_cum_weight(cs, i - 1) + spec_weight(cs[i - 1])
    }
}

pub proof fn lemma_cum_weight_nonneg(cs: Seq<Constraint>, i: int)
    ensures
        0 <= spec_cum_weight(cs, i),
    decreases i,
{
    if i > 0 {
        lemma_cum_weight_nonneg(cs, i - 1);
    }
}

pub proof fn lemma_cum_weight_mono(cs: Seq<Constraint>, i: int, j: int)
    requires
        0 <= i <= j,
    ensures
        0 <= spec_cum_weight(cs, i) <= spec_cum_weight(cs, j),
    decreases j,
{
    lemma_cum_weight_nonneg(cs, i);
    if i < j {
        lemma_cum_weight_mono(cs, i, j - 1);
    }
}

/// Total fill weight over all constraints.
pub open spec fn spec_total_weight(cs: Seq<Constraint>) -> int {
    spec_cum_weight(cs, cs.len() as int)
}

/// Space still free after every constraint took its capped base size.
pub open spec fn spec_slack(cs: Seq<Constraint>, total: int) -> int {
    spec_remaining(cs, total, cs.len() as int)
}

/// How much of the slack the fills up to and including constraint `i - 1`
/// have been granted (cumulative rounding).
pub open spec fn spec_fill_bound(cs: Seq<Constraint>, total: int, i: int) -> int {
    rhu(spec_slack(cs, total) * spec_cum_weight(cs, i), spec_total_weight(cs))
}

/// The size of piece `i` after fill distribution.
pub open spec fn spec_filled_size(cs: Seq<Constraint>, total: int, i: int) -> int {
    if spec_total_weight(cs) > 0 {
        spec_clamped_size(cs, total, i) + spec_fill_bound(cs, total, i + 1) - spec_fill_bound(
            cs,
            total,
            i,
        )
    } else {
        spec_clamped_size(cs, total, i)
    }
}

/// Space that even the fills left unclaimed; only this is placed by the
/// flex mode.
pub open spec fn spec_leftover(cs: Seq<Constraint>, total: int) -> int {
    if spec_total_weight(cs) > 0 {
        0
    } else {
        spec_slack(cs, total)
    }
}

/// How firmly a constraint holds its size, the firmest first: minima,
/// then maxima, lengths, percentages, ratios, and fills last. Under the
/// legacy flex the excess goes to the least firm class present.
pub open spec fn spec_priority(c: Constraint) -> int {
    match c {
        Constraint::Min(_) => 1,
        Constraint::Max(_) => 2,
        Constraint::Length(_) => 3,
        Constraint::Percentage(_) => 4,
        Constraint::Ratio(_, _) => 5,
        Constraint::Fill(_) => 6,
    }
}

/// The index, among the first `i` constraints, of the last one of the
/// least firm class.
pub open spec fn spec_target_upto(cs: Seq<Constraint>, i: int) -> int
    decreases i,
{
    if i <= 1 {
        0
    } else {
        let r = spec_target_upto(cs, i - 1);
        if spec_priority(cs[i - 1]) >= spec_priority(cs[r]) {
            i - 1
        } else {
            r
        }
    }
}

/// The piece the legacy flex stretches over the excess.
pub open spec fn spec_stretch_target(cs: Seq<Constraint>) -> int {
    spec_target_upto(cs, cs.len() as int)
}

pub proof fn lemma_target_upto_range(cs: Seq<Constraint>, i: int)
    requires
        1 <= i,
    ensures
        0 <= spec_target_upto(cs, i) < i,
    decreases i,
{
    if i > 1 {
        lemma_target_upto_range(cs, i - 1);
    }
}

/// Does flex stretch piece `i` over the leftover instead of moving it?
pub open spec fn spec_is_stretched(flex: Flex, cs: Seq<Constraint>, i: int) -> bool {
    ||| (flex == Flex::Legacy && cs.len() >= 1 && i == spec_stretch_target(cs))
    ||| (flex == Flex::SpaceBetween && cs.len() == 1 && i == 0)
}

/// The final size of piece `i`.
pub open spec fn spec_piece_size(cs: Seq<Constraint>, total: int, flex: Flex, i: int) -> int {
    if spec_is_stretched(flex, cs, i) {
        spec_filled_size(cs, total, i) + spec_leftover(cs, total)
    } else {
        spec_filled_size(cs, total, i)
    }
}

/// Sum of the final sizes of the pieces before piece `i`.
pub open spec fn spec_prefix_size(cs: Seq<Constraint>, total: int, flex: Flex, i: int) -> int
    decreases i,
{
    if i <= 0 {
        0
    } else {
        spec_prefix_size(cs, total, flex, i - 1) + spec_piece_size(cs, total, flex, i - 1)
    }
}

/// The flex gap inserted before piece `i`, beyond the pieces themselves.
pub open spec fn spec_gap_shift(flex: Flex, leftover: int, n: int, i: int) -> int {
    match flex {
        Flex::Legacy => 0,
        Flex::Start => 0,
        Flex::End => leftover,
        Flex::Center => leftover / 2,
        Flex::SpaceBetween => if n >= 2 {
            rhu(leftover * i, n - 1)
        } else {
            0
        },
        Flex::SpaceAround => rhu(leftover * (2 * i + 1), 2 * n),
        Flex::SpaceEvenly => rhu(leftover * (i + 1), n + 1),
    }
}

/// Offset of piece `i` from the start of the axis.
pub open spec fn spec_piece_pos(cs: Seq<Constraint>, total: int, flex: Flex, i: int) -> int {
    spec_prefix_size(cs, total, flex, i) + spec_gap_shift(
        flex,
        spec_leftover(cs, total),
        cs.len() as int,
        i,
    )
}

/// The area actually partitioned: the given area, clipped so that its far
/// edges stay inside the `u16` coordinate space.
pub open spec fn spec_clip_area(area: Rect) -> Rect {
    Rect {
        x: area.x,
        y: area.y,
        width: min_int(area.width as int, 0xffff - area.x) as u16,
        height: min_int(area.height as int, 0xffff - area.y) as u16,
    }
}

/// The rectangle of piece `i` of a split.
pub open spec fn spec_piece_rect(
    area: Rect,
    direction: Direction,
    flex: Flex,
    cs: Seq<Constraint>,
    i: int,
) -> Rect {
    let clipped = spec_clip_area(area);
    let total = match direction {
        Direction::Horizontal => clipped.width as int,
        Direction::Vertical => clipped.height as int,
    };
    let pos = spec_piece_pos(cs, total, flex, i);
    let size = spec_piece_size(cs, total, flex, i);
    match direction {
        Direction::Horizontal => Rect {
            x: (clipped.x + pos) as u16,
            y: clipped.y,
            width: size as u16,
            height: clipped.height,
        },
        Direction::Vertical => Rect {
            x: clipped.x,
            y: (clipped.y + pos) as u16,
            width: clipped.width,
            height: size as u16,
        },
    }
}

/// The whole split: one rectangle per constraint, in order.
pub open spec fn spec_split(
    area: Rect,
    direction: Direction,
    flex: Flex,
    cs: Seq<Constraint>,
) -> Seq<Rect> {
    Seq::new(cs.len(), |i: int| spec_piece_rect(area, direction, flex, cs, i))
}

/// How many stretched pieces lie before piece `i` (0 or 1, scaled later by
/// the leftover).
pub open spec fn spec_stretch_before(flex: Flex, cs: Seq<Constraint>, i: int) -> int {
    if flex == Flex::Legacy && cs.len() >= 1 && i > spec_stretch_target(cs) {
        1
    } else if flex == Flex::SpaceBetween && cs.len() == 1 && i >= 1 {
        1
    } else {
        0
    }
}

pub proof fn lemma_fill_bound_zero(cs: Seq<Constraint>, total: int)
    requires
        0 <= total,
        spec_total_weight(cs) > 0,
    ensures
        spec_fill_bound(cs, total, 0) == 0,
{
    let w = spec_total_weight(cs);
    lemma_remaining_bounds(cs, total, cs.len() as int);
    assert(spec_slack(cs, total) * 0 == 0) by (nonlinear_arith);
    assert((2 * 0 + w) / (2 * w) == 0) by (nonlinear_arith)
        requires
            0 < w,
    ;
}

pub proof fn lemma_fill_bound_mono(cs: Seq<Constraint>, total: int, i: int, j: int)
    requires
        0 <= total,
        0 <= i <= j,
        spec_total_weight(cs) > 0,
    ensures
        spec_fill_bound(cs, total, i) <= spec_fill_bound(cs, total, j),
{
    let s = spec_slack(cs, total);
    lemma_remaining_bounds(cs, total, cs.len() as int);
    lemma_cum_weight_mono(cs, i, j);
    lemma_mul_inequality(spec_cum_weight(cs, i), spec_cum_weight(cs, j), s);
    assert(spec_cum_weight(cs, i) * s == s * spec_cum_weight(cs, i) && spec_cum_weight(cs, j) * s
        == s * spec_cum_weight(cs, j)) by (nonlinear_arith);
    lemma_rhu_monotone(s * spec_cum_weight(cs, i), s * spec_cum_weight(cs, j), spec_total_weight(cs));
}

pub proof fn lemma_fill_bound_le_slack(cs: Seq<Constraint>, total: int, i: int)
    requires
        0 <= total,
        0 <= i <= cs.len(),
        spec_total_weight(cs) > 0,
    ensures
        0 <= spec_fill_bound(cs, total, i) <= spec_slack(cs, total),
{
    lemma_remaining_bounds(cs, total, cs.len() as int);
    lemma_cum_weight_mono(cs, i, cs.len() as int);
    lemma_rhu_share_le(spec_slack(cs, total), spec_cum_weight(cs, i), spec_total_weight(cs));
}

pub proof fn lemma_fill_bound_full(cs: Seq<Constraint>, total: int)
    requires
        0 <= total,
        spec_total_weight(cs) > 0,
    ensures
        spec_fill_bound(cs, total, cs.len() as int) == spec_slack(cs, total),
{
    lemma_remaining_bounds(cs, total, cs.len() as int);
    lemma_rhu_exact(spec_slack(cs, total), spec_total_weight(cs));
}

pub proof fn lemma_piece_size_nonneg(cs: Seq<Constraint>, total: int, flex: Flex, i: int)
    requires
        0 <= total,
        0 <= i < cs.len(),
    ensures
        0 <= spec_piece_size(cs, total, flex, i),
        0 <= spec_filled_size(cs, total, i),
{
    lemma_base_size_bounds(cs[i], total);
    lemma_remaining_bounds(cs, total, i);
    lemma_remaining_bounds(cs, total, cs.len() as int);
    if spec_total_weight(cs) > 0 {
        lemma_fill_bound_mono(cs, total, i, i + 1);
    }
}

/// Closed form for the prefix sums: the pieces before `i` cover exactly
/// the space handed out so far.
pub proof fn lemma_prefix_closed(cs: Seq<Constraint>, total: int, flex: Flex, i: int)
    requires
        0 <= total,
        0 <= i <= cs.len(),
    ensures
        spec_prefix_size(cs, total, flex, i) == (total - spec_remaining(cs, total, i)) + (
        if spec_total_weight(cs) > 0 {
            spec_fill_bound(cs, total, i)
        } else {
            0
        }) + spec_stretch_before(flex, cs, i) * spec_leftover(cs, total),
    decreases i,
{
    if cs.len() >= 1 {
        lemma_target_upto_range(cs, cs.len() as int);
    }
    if i == 0 {
        if spec_total_weight(cs) > 0 {
            lemma_fill_bound_zero(cs, total);
        }
    } else {
        lemma_prefix_closed(cs, total, flex, i - 1);
        assert(spec_stretch_before(flex, cs, i - 1) * spec_leftover(cs, total) + (
        if spec_is_stretched(flex, cs, i - 1) {
            spec_leftover(cs, total)
        } else {
            0
        }) == spec_stretch_before(flex, cs, i) * spec_leftover(cs, total)) by (nonlinear_arith)
            requires
                spec_stretch_before(flex, cs, i - 1) == 0 || spec_stretch_before(flex, cs, i - 1)
                    == 1,
                spec_stretch_before(flex, cs, i) == 0 || spec_stretch_before(flex, cs, i) == 1,
                spec_is_stretched(flex, cs, i - 1) ==> spec_stretch_before(flex, cs, i) == 1
                    && spec_stretch_before(flex, cs, i - 1) == 0,
                !spec_is_stretched(flex, cs, i - 1) ==> spec_stretch_before(flex, cs, i)
                    == spec_stretch_before(flex, cs, i - 1),
        ;
    }
}

pub proof fn lemma_prefix_mono(cs: Seq<Constraint>, total: int, flex: Flex, i: int, j: int)
    requires
        0 <= total,
        0 <= i <= j <= cs.len(),
    ensures
        spec_prefix_size(cs, total, flex, i) <= spec_prefix_size(cs, total, flex, j),
    decreases j,
{
    if i < j {
        lemma_prefix_mono(cs, total, flex, i, j - 1);
        lemma_piece_size_nonneg(cs, total, flex, j - 1);
    }
}

/// The master fitting lemma: every piece lies inside the axis.
pub proof fn lemma_split_fits(cs: Seq<Constraint>, total: int, flex: Flex, i: int)
    requires
        0 <= total,
        0 <= i < cs.len(),
    ensures
        0 <= spec_piece_pos(cs, total, flex, i),
        0 <= spec_piece_size(cs, total, flex, i),
        spec_piece_pos(cs, total, flex, i) + spec_piece_size(cs, total, flex, i) <= total,
{
    let n = cs.len() as int;
    let leftover = spec_leftover(cs, total);
    let w = spec_total_weight(cs);
    lemma_remaining_bounds(cs, total, n);
    lemma_piece_size_nonneg(cs, total, flex, i);
    lemma_prefix_mono(cs, total, flex, 0, i);
    lemma_prefix_mono(cs, total, flex, i + 1, n);
    lemma_prefix_closed(cs, total, flex, n);
    if w > 0 {
        lemma_fill_bound_full(cs, total);
    }
    // prefix(n) == total - leftover + stretch_before(n) * leftover
    if n >= 1 {
        lemma_target_upto_range(cs, n);
    }
    let sb = spec_stretch_before(flex, cs, n);
    assert(sb == 0 || sb == 1);
    assert(sb * leftover == if sb == 1 {
        leftover
    } else {
        0
    }) by (nonlinear_arith)
        requires
            sb == 0 || sb == 1,
    ;
    // gap bounds
    let gap = spec_gap_shift(flex, leftover, n, i);
    match flex {
        Flex::Legacy => {},
        Flex::Start => {},
        Flex::End => {},
        Flex::Center => {
            assert(0 <= leftover / 2 <= leftover);
        },
        Flex::SpaceBetween => {
            if n >= 2 {
                lemma_rhu_share_le(leftover, i, n - 1);
            }
        },
        Flex::SpaceAround => {
            lemma_rhu_share_le(leftover, 2 * i + 1, 2 * n);
        },
        Flex::SpaceEvenly => {
            lemma_rhu_share_le(leftover, i + 1, n + 1);
        },
    }
    assert(spec_prefix_size(cs, total, flex, i) + spec_piece_size(cs, total, flex, i)
        == spec_prefix_size(cs, total, flex, i + 1));
}

/// What a constraint descriptor parses to. The sized kinds take one
/// value that must fit in a cell count; `ratio` takes a pair. A `ratio`
/// without exactly two values, or an unknown kind, falls back to
/// `Length(0)`, the silent degradation the sizing policy uses for
/// malformed constraints.
pub open spec fn spec_parse_constraint(kind: Seq<char>, values: Seq<u32>) -> Result<
    Constraint,
    crate::error::BridgeError,
> {
    if kind == "ratio"@ {
        if values.len() == 2 {
            Result::Ok(Constraint::Ratio(values[0], values[1]))
        } else {
            Result::Ok(Constraint::Length(0))
        }
    } else if kind == "length"@ || kind == "percentage"@ || kind == "min"@ || kind == "max"@
        || kind == "fill"@ {
        if values.len() == 0 {
            Result::Err(crate::error::BridgeError::MissingField(crate::error::Field::Value))
        } else if values[0] > 0xffff {
            Result::Err(crate::error::BridgeError::ValueOutOfRange)
        } else {
            let v = values[0] as u16;
            if kind == "length"@ {
                Result::Ok(Constraint::Length(v))
            } else if kind == "percentage"@ {
                Result::Ok(Constraint::Percentage(v))
            } else if kind == "min"@ {
                Result::Ok(Constraint::Min(v))
            } else if kind == "max"@ {
                Result::Ok(Constraint::Max(v))
            } else {
                Result::Ok(Constraint::Fill(v))
            }
        }
    } else {
        Result::Ok(Constraint::Length(0))
    }
}

/// Parses one constraint descriptor: a kind token and its values.
pub fn parse_constraint(kind: &str, values: &Vec<u32>) -> (r: Result<
    Constraint,
    crate::error::BridgeError,
>)
    ensures
        r == spec_parse_constraint(kind@, values@),
{
    if crate::strutil::str_eq(kind, "ratio") {
        if values.len() == 2 {
            Result::Ok(Constraint::Ratio(values[0], values[1]))
        } else {
            Result::Ok(Constraint::Length(0))
        }
    } else {
        let known = crate::strutil::str_eq(kind, "length") || crate::strutil::str_eq(
            kind,
            "percentage",
        ) || crate::strutil::str_eq(kind, "min") || crate::strutil::str_eq(kind, "max")
            || crate::strutil::str_eq(kind, "fill");
        if !known {
            Result::Ok(Constraint::Length(0))
        } else if values.len() == 0 {
            Result::Err(crate::error::BridgeError::MissingField(crate::error::Field::Value))
        } else if values[0] > 0xffff {
            Result::Err(crate::error::BridgeError::ValueOutOfRange)
        } else {
            let v = values[0] as u16;
            if crate::strutil::str_eq(kind, "length") {
                Result::Ok(Constraint::Length(v))
            } else if crate::strutil::str_eq(kind, "percentage") {
                Result::Ok(Constraint::Percentage(v))
            } else if crate::strutil::str_eq(kind, "min") {
                Result::Ok(Constraint::Min(v))
            } else if crate::strutil::str_eq(kind, "max") {
                Result::Ok(Constraint::Max(v))
            } else {
                Result::Ok(Constraint::Fill(v))
            }
        }
    }
}

/// The flex mode a token names; anything unrecognised is the legacy
/// mode.
pub open spec fn spec_flex_of(t: Seq<char>) -> Flex {
    if t == "start"@ {
        Flex::Start
    } else if t == "center"@ {
        Flex::Center
    } else if t == "end"@ {
        Flex::End
    } else if t == "space_between"@ {
        Flex::SpaceBetween
    } else if t == "space_around"@ {
        Flex::SpaceAround
    } else if t == "space_evenly"@ {
        Flex::SpaceEvenly
    } else {
        Flex::Legacy
    }
}

/// Parses a flex token.
pub fn parse_flex(t: &str) -> (r: Flex)
    ensures
        r == spec_flex_of(t@),
{
    if crate::strutil::str_eq(t, "start") {
        Flex::Start
    } else if crate::strutil::str_eq(t, "center") {
        Flex::Center
    } else if crate::strutil::str_eq(t, "end") {
        Flex::End
    } else if crate::strutil::str_eq(t, "space_between") {
        Flex::SpaceBetween
    } else if crate::strutil::str_eq(t, "space_around") {
        Flex::SpaceAround
    } else if crate::strutil::str_eq(t, "space_evenly") {
        Flex::SpaceEvenly
    } else {
        Flex::Legacy
    }
}

/// The direction a token names: `vertical`, or horizontal for any
/// other token.
pub open spec fn spec_direction_of(t: Seq<char>) -> Direction {
    if t == "vertical"@ {
        Direction::Vertical
    } else {
        Direction::Horizontal
    }
}

/// Parses a direction token.
pub fn parse_direction(t: &str) -> (r: Direction)
    ensures
        r == spec_direction_of(t@),
{
    if crate::strutil::str_eq(t, "vertical") {
        Direction::Vertical
    } else {
        Direction::Horizontal
    }
}

/// Computes `spec_priority`.
fn constraint_priority(c: &Constraint) -> (r: u8)
    ensures
        r as int == spec_priority(*c),
{
    match c {
        Constraint::Min(_) => 1,
        Constraint::Max(_) => 2,
        Constraint::Length(_) => 3,
        Constraint::Percentage(_) => 4,
        Constraint::Ratio(_, _) => 5,
        Constraint::Fill(_) => 6,
    }
}

/// Clipping only shrinks: the clipped area lies within the original.
pub proof fn lemma_clip_within(area: Rect)
    ensures
        spec_clip_area(area).spec_within(area),
{
}

/// Layout purity: the solver's result is a function of its inputs alone,
/// so any two results computed for identical inputs are identical
/// rectangle sequences.
pub proof fn lemma_split_layout_pure(
    r1: Seq<Rect>,
    r2: Seq<Rect>,
    area: Rect,
    direction: Direction,
    flex: Flex,
    cs: Seq<Constraint>,
)
    requires
        r1 == spec_split(area, direction, flex, cs),
        r2 == spec_split(area, direction, flex, cs),
    ensures
        r1 == r2,
{
}

impl Rect {
    /// The given area, clipped so that `x + width` and `y + height` stay
    /// representable.
    pub fn clip_to_coordinate_space(self) -> (r: Rect)
        ensures
            r == spec_clip_area(self),
    {
        let max_w: u16 = 0xffffu16 - self.x;
        let max_h: u16 = 0xffffu16 - self.y;
        Rect {
            x: self.x,
            y: self.y,
            width: if self.width <= max_w {
                self.width
            } else {
                max_w
            },
            height: if self.height <= max_h {
                self.height
            } else {
                max_h
            },
        }
    }
}

/// Cuts `area` along `direction` into one rectangle per constraint, in
/// order, following the policy described at the top of this module.
///
/// The result is a pure function of the arguments (`spec_split`), so a
/// second call with the same inputs returns the same rectangles, and every
/// rectangle lies inside the (clipped) area.
pub fn split_layout(area: Rect, direction: Direction, constraints: &Vec<Constraint>, flex: Flex) -> (r:
    Vec<Rect>)
    ensures
        r@ == spec_split(area, direction, flex, constraints@),
        forall|i: int|
            0 <= i < r@.len() ==> #[trigger] r@[i].spec_within(spec_clip_area(area)),
{
    let cs = constraints;
    let ghost csv = constraints@;
    let clipped = area.clip_to_coordinate_space();
    let total: u16 = match direction {
        Direction::Horizontal => clipped.width,
        Direction::Vertical => clipped.height,
    };
    let axis_start: u16 = match direction {
        Direction::Horizontal => clipped.x,
        Direction::Vertical => clipped.y,
    };
    let n = cs.len();

    // Base sizes, granted left to right while space lasts.
    let mut sizes: Vec<u16> = Vec::new();
    let mut remaining: u16 = total;
    let mut weight: u128 = 0;
    let mut i: usize = 0;
    while i < n
        invariant
            n == csv.len(),
            i <= n,
            cs@ == csv,
            sizes@.len() == i,
            remaining == spec_remaining(csv, total as int, i as int),
            weight == spec_cum_weight(csv, i as int),
            weight <= 0xffff * (i as int),
            forall|j: int|
                0 <= j < i ==> sizes@[j] == spec_clamped_size(csv, total as int, j),
        decreases n - i,
    {
        let c = cs[i];
        proof {
            lemma_base_size_bounds(c, total as int);
            lemma_remaining_bounds(csv, total as int, i as int);
        }
        let base: u16 = match c {
            Constraint::Length(v) => v,
            Constraint::Min(v) => v,
            Constraint::Max(v) => v,
            Constraint::Fill(_) => 0,
            Constraint::Percentage(p) => {
                let pc: u64 = if p > 100 {
                    100
                } else {
                    p as u64
                };
                proof {
                    lemma_rhu_share_le(total as int, pc as int, 100);
                    assert((total as int) * (pc as int) <= 6553500) by (nonlinear_arith)
                        requires
                            total <= 0xffff,
                            pc <= 100,
                    ;
                }
                let prod: u64 = (total as u64) * pc;
                let q: u64 = (2 * prod + 100) / 200;
                q as u16
            },
            Constraint::Ratio(num, den) => {
                if den == 0 {
                    0
                } else {
                    proof {
                        assert((total as int) * (num as int) <= 0xffff * 0xffffffff)
                            by (nonlinear_arith)
                            requires
                                total <= 0xffff,
                                num <= 0xffffffffu32,
                        ;
                    }
                    let prod: u64 = (total as u64) * (num as u64);
                    let q: u64 = (2 * prod + (den as u64)) / (2 * (den as u64));
                    if q >= total as u64 {
                        total
                    } else {
                        q as u16
                    }
                }
            },
        };
        assert(base == min_int(spec_base_size(c, total as int), 0xffff));
        let sz: u16 = if base <= remaining {
            base
        } else {
            remaining
        };
        assert(sz == spec_clamped_size(csv, total as int, i as int));
        sizes.push(sz);
        remaining = remaining - sz;
        let w_add: u128 = match c {
            Constraint::Fill(w) => w as u128,
            _ => 0,
        };
        weight = weight + w_add;
        i = i + 1;
    }

    // Distribute the slack over the fills, by cumulative rounding.
    let slack: u16 = remaining;
    if weight > 0 {
        let mut prev_b: u16 = 0;
        let mut cumw: u128 = 0;
        let mut i: usize = 0;
        proof {
            lemma_fill_bound_zero(csv, total as int);
            lemma_remaining_bounds(csv, total as int, n as int);
        }
        while i < n
            invariant
                n == csv.len(),
                i <= n,
                cs@ == csv,
                sizes@.len() == n,
                total <= 0xffff,
                slack == spec_slack(csv, total as int),
                0 <= slack <= total,
                weight == spec_total_weight(csv),
                weight > 0,
                weight <= 0xffff * (n as int),
                cumw == spec_cum_weight(csv, i as int),
                prev_b == spec_fill_bound(csv, total as int, i as int),
                forall|j: int|
                    0 <= j < i ==> sizes@[j] == spec_filled_size(csv, total as int, j),
                forall|j: int|
                    i <= j < n ==> sizes@[j] == spec_clamped_size(csv, total as int, j),
            decreases n - i,
        {
            let c = cs[i];
            proof {
                lemma_cum_weight_mono(csv, i as int + 1, n as int);
                lemma_fill_bound_mono(csv, total as int, i as int, i as int + 1);
                lemma_fill_bound_le_slack(csv, total as int, i as int + 1);
                lemma_piece_size_nonneg(csv, total as int, flex, i as int);
                lemma_split_fits(csv, total as int, flex, i as int);
            }
            match c {
                Constraint::Fill(w) => {
                    if w > 0 {
                        cumw = cumw + w as u128;
                        proof {
                            assert((slack as int) * (cumw as int) <= 0xffff * weight)
                                by (nonlinear_arith)
                                requires
                                    slack <= 0xffff,
                                    0 <= cumw <= weight,
                            ;
                            assert(0xffff * weight <= 0xffff * (0xffff * 0xffffffffffffffffint))
                                by (nonlinear_arith)
                                requires
                                    weight <= 0xffff * 0xffffffffffffffffint,
                            ;
                        }
                        let prod: u128 = (slack as u128) * cumw;
                        let b128: u128 = (2 * prod + weight) / (2 * weight);
                        let b: u16 = b128 as u16;
                        let inc: u16 = b - prev_b;
                        let old_sz = sizes[i];
                        sizes.set(i, old_sz + inc);
                        prev_b = b;
                    } else {
                        // A zero weight takes no share; the bound is unchanged.
                        let old_sz = sizes[i];
                        sizes.set(i, old_sz);
                    }
                },
                _ => {},
            }
            i = i + 1;
        }
        proof {
            lemma_fill_bound_full(csv, total as int);
        }
    }

    // Stretch under the flex modes that grow a piece instead of moving it.
    let leftover: u16 = if weight > 0 {
        0
    } else {
        slack
    };
    assert(leftover == spec_leftover(csv, total as int));
    if n > 0 {
        let stretch_at: Option<usize> = match flex {
            Flex::Legacy => {
                let mut best: usize = 0;
                let mut j: usize = 1;
                while j < n
                    invariant
                        n == csv.len(),
                        cs@ == csv,
                        1 <= j <= n,
                        best < j,
                        best == spec_target_upto(csv, j as int),
                    decreases n - j,
                {
                    let pj = constraint_priority(&cs[j]);
                    let pb = constraint_priority(&cs[best]);
                    if pj >= pb {
                        best = j;
                    }
                    j = j + 1;
                }
                Some(best)
            },
            Flex::SpaceBetween => if n == 1 {
                Some(0)
            } else {
                None
            },
            _ => None,
        };
        if let Some(k) = stretch_at {
            proof {
                lemma_split_fits(csv, total as int, flex, k as int);
            }
            let old_sz = sizes[k];
            sizes.set(k, old_sz + leftover);
        }
    }
    assert(forall|j: int|
        0 <= j < n ==> sizes@[j] == spec_piece_size(csv, total as int, flex, j));

    // Lay the pieces out along the axis.
    let mut out: Vec<Rect> = Vec::new();
    let mut prefix: u32 = 0;
    let mut i: usize = 0;
    while i < n
        invariant
            n == csv.len(),
            i <= n,
            cs@ == csv,
            sizes@.len() == n,
            total <= 0xffff,
            axis_start as int + total as int <= 0xffff,
            clipped == spec_clip_area(area),
            total == (match direction {
                Direction::Horizontal => clipped.width,
                Direction::Vertical => clipped.height,
            }),
            axis_start == (match direction {
                Direction::Horizontal => clipped.x,
                Direction::Vertical => clipped.y,
            }),
            leftover == spec_leftover(csv, total as int),
            forall|j: int|
                0 <= j < n ==> sizes@[j] == spec_piece_size(csv, total as int, flex, j),
            out@.len() == i,
            prefix == spec_prefix_size(csv, total as int, flex, i as int),
            forall|j: int|
                0 <= j < i ==> out@[j] == spec_piece_rect(area, direction, flex, csv, j),
            forall|j: int|
                0 <= j < i ==> #[trigger] out@[j].spec_within(spec_clip_area(area)),
        decreases n - i,
    {
        proof {
            lemma_split_fits(csv, total as int, flex, i as int);
        }
        proof {
            assert((leftover as int) * (i as int) <= 0xffff * 0xffffffffffffffffint)
                by (nonlinear_arith)
                requires
                    leftover <= 0xffff,
                    i <= 0xffffffffffffffffint,
            ;
            assert((leftover as int) * (2 * (i as int) + 1) <= 0xffff * (3
                * 0xffffffffffffffffint)) by (nonlinear_arith)
                requires
                    leftover <= 0xffff,
                    0 <= i <= 0xffffffffffffffffint,
            ;
            assert((leftover as int) * ((i as int) + 1) <= 0xffff * (2 * 0xffffffffffffffffint))
                by (nonlinear_arith)
                requires
                    leftover <= 0xffff,
                    0 <= i <= 0xffffffffffffffffint,
            ;
        }
        let gap128: u128 = match flex {
            Flex::Legacy => 0,
            Flex::Start => 0,
            Flex::End => leftover as u128,
            Flex::Center => (leftover / 2) as u128,
            Flex::SpaceBetween => if n >= 2 {
                let prod: u128 = (leftover as u128) * (i as u128);
                (2 * prod + ((n - 1) as u128)) / (2 * ((n - 1) as u128))
            } else {
                0
            },
            Flex::SpaceAround => {
                let prod: u128 = (leftover as u128) * (2 * (i as u128) + 1);
                (2 * prod + 2 * (n as u128)) / (4 * (n as u128))
            },
            Flex::SpaceEvenly => {
                let prod: u128 = (leftover as u128) * ((i as u128) + 1);
                (2 * prod + ((n as u128) + 1)) / (2 * ((n as u128) + 1))
            },
        };
        assert(gap128 == spec_gap_shift(
            flex,
            spec_leftover(csv, total as int),
            n as int,
            i as int,
        ));
        let gap: u16 = gap128 as u16;
        let sz: u16 = sizes[i];
        let pos32: u32 = axis_start as u32 + prefix + gap as u32;
        let rect = match direction {
            Direction::Horizontal => Rect {
                x: pos32 as u16,
                y: clipped.y,
                width: sz,
                height: clipped.height,
            },
            Direction::Vertical => Rect {
                x: clipped.x,
                y: pos32 as u16,
                width: clipped.width,
                height: sz,
            },
        };
        assert(rect == spec_piece_rect(area, direction, flex, csv, i as int));
        assert(rect.spec_within(spec_clip_area(area)));
        out.push(rect);
        prefix = prefix + sz as u32;
        i = i + 1;
    }
    proof {
        assert(out@ =~= spec_split(area, direction, flex, csv));
    }
    out
}

} // verus!
