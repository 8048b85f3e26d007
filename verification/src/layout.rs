//! Screen layout arithmetic: the height of the debug log pane, the width of
//! the repository list, and the size of pop-up windows.
use vstd::prelude::*;

verus! {

/// The smaller of two integers.
pub open spec fn min_int(a: int, b: int) -> int {
    if a <= b {
        a
    } else {
        b
    }
}

/// The larger of two integers.
pub open spec fn max_int(a: int, b: int) -> int {
    if a >= b {
        a
    } else {
        b
    }
}

/// `x` clamped into `[lo, hi]` (`lo <= hi`), as `Ord::clamp` does.
pub open spec fn clamp_int(x: int, lo: int, hi: int) -> int {
    if x < lo {
        lo
    } else if x > hi {
        hi
    } else {
        x
    }
}

/// `a - b`, or 0 when `b` exceeds `a`.
pub open spec fn sat_sub(a: int, b: int) -> int {
    if a >= b {
        a - b
    } else {
        0
    }
}

/// The height of the debug log pane: half the screen (at least one line)
/// when expanded, three lines otherwise, never more than the screen less
/// one line.
pub open spec fn log_pane_height_spec(total_height: int, expanded: bool) -> int {
    let available = sat_sub(total_height, 1);
    if expanded {
        min_int(max_int(total_height / 2, 1), available)
    } else {
        min_int(3, available)
    }
}

/// The height of the debug log pane (see `log_pane_height_spec`).
pub fn log_pane_height(total_height: u16, expanded: bool) -> (r: u16)
    ensures
        r == log_pane_height_spec(total_height as int, expanded),
{
    let available = total_height.saturating_sub(1);
    if expanded {
        let half = total_height / 2;
        let half = if half < 1 {
            1
        } else {
            half
        };
        if half < available {
            half
        } else {
            available
        }
    } else {
        if 3 < available {
            3
        } else {
            available
        }
    }
}

/// The width of the repository list: the desired width kept between a
/// quarter (rounded up, at least one column) and three quarters (rounded
/// down, leaving at least one column) of the screen; a screen of one column
/// or less is left as it is.
pub open spec fn left_pane_width_spec(total_width: int, desired_width: int) -> int {
    if total_width <= 1 {
        total_width
    } else {
        let min_width = max_int((total_width + 3) / 4, 1);
        let max_width = max_int(min_int((total_width * 3) / 4, sat_sub(total_width, 1)), min_width);
        clamp_int(desired_width, min_width, max_width)
    }
}

/// The width of the repository list (see `left_pane_width_spec`).
pub fn left_pane_width(total_width: u16, desired_width: u16) -> (r: u16)
    ensures
        r == left_pane_width_spec(total_width as int, desired_width as int),
{
    if total_width <= 1 {
        return total_width;
    }
    let quarter_up: u16 = total_width / 4 + if total_width % 4 == 0 {
        0
    } else {
        1
    };
    assert(quarter_up == (total_width + 3) / 4);
    let min_width: u16 = if quarter_up < 1 {
        1
    } else {
        quarter_up
    };
    let three_quarters: u32 = (total_width as u32 * 3) / 4;
    let three_quarters: u16 = three_quarters as u16;
    let below = total_width - 1;
    let max_width: u16 = if three_quarters < below {
        three_quarters
    } else {
        below
    };
    let max_width: u16 = if max_width < min_width {
        min_width
    } else {
        max_width
    };
    if desired_width < min_width {
        min_width
    } else if desired_width > max_width {
        max_width
    } else {
        desired_width
    }
}

/// The width of a pop-up for lines of the given display widths: the widest
/// line plus four columns of border and padding, kept between the given
/// bounds, which are themselves capped by the screen width less four.
pub open spec fn popup_width_spec(line_widths: Seq<usize>, area_width: int, min_width: int, max_width: int) -> int {
    let available = max_int(sat_sub(area_width, 4), 1);
    let lo = min_int(min_width, available);
    let hi = max_int(min_int(max_width, available), lo);
    let content = max_width_of(line_widths) % 0x10000;
    clamp_int((content + 4) % 0x10000, lo, hi)
}

/// The largest of the widths, 0 for none.
pub open spec fn max_width_of(widths: Seq<usize>) -> int
    decreases widths.len(),
{
    if widths.len() == 0 {
        0
    } else {
        max_int(max_width_of(widths.drop_last()), widths.last() as int)
    }
}

/// The width of a pop-up for lines of the given display widths (see
/// `popup_width_spec`).
pub fn popup_width_for_lines(line_widths: &[usize], area_width: u16, min_width: u16, max_width: u16) -> (r: u16)
    ensures
        r == popup_width_spec(line_widths@, area_width as int, min_width as int, max_width as int),
{
    let sub = area_width.saturating_sub(4);
    let available: u16 = if sub < 1 {
        1
    } else {
        sub
    };
    let lo: u16 = if min_width < available {
        min_width
    } else {
        available
    };
    let capped: u16 = if max_width < available {
        max_width
    } else {
        available
    };
    let hi: u16 = if capped < lo {
        lo
    } else {
        capped
    };
    let mut widest: usize = 0;
    let mut i: usize = 0;
    while i < line_widths.len()
        invariant
            i <= line_widths.len(),
            widest == max_width_of(line_widths@.take(i as int)),
        decreases line_widths.len() - i,
    {
        assert(line_widths@.take(i + 1).drop_last() =~= line_widths@.take(i as int));
        if line_widths[i] > widest {
            widest = line_widths[i];
        }
        i = i + 1;
    }
    assert(line_widths@.take(i as int) =~= line_widths@);
    let content: u32 = (widest % 0x10000) as u32;
    let padded: u16 = ((content + 4) % 0x10000) as u16;
    if padded < lo {
        lo
    } else if padded > hi {
        hi
    } else {
        padded
    }
}

/// How many rows the lines take when wrapped at `inner_width` columns: each
/// line at least one row.
pub open spec fn wrapped_rows(line_widths: Seq<usize>, inner_width: int) -> int
    decreases line_widths.len(),
{
    if line_widths.len() == 0 {
        0
    } else {
        wrapped_rows(line_widths.drop_last(), inner_width) + ceil_div(
            max_int(line_widths.last() as int, 1),
            inner_width,
        )
    }
}

/// `a / b` rounded up (`b > 0`).
pub open spec fn ceil_div(a: int, b: int) -> int {
    (a + b - 1) / b
}

/// `a` divided by `b`, rounded up.
pub fn div_ceil_u128(a: u128, b: u128) -> (r: u128)
    requires
        b > 0,
    ensures
        r == ceil_div(a as int, b as int),
{
    let q = a / b;
    let m = a % b;
    proof {
        assert(a == b * q + m) by (nonlinear_arith)
            requires
                q == a / b,
                m == a % b,
                b > 0,
        ;
        if m == 0 {
            assert((a + b - 1) / (b as int) == q) by (nonlinear_arith)
                requires
                    a == b * q,
                    b > 0,
            ;
        } else {
            assert((a + b - 1) / (b as int) == q + 1) by (nonlinear_arith)
                requires
                    a == b * q + m,
                    0 < m < b,
            ;
            assert(q < u128::MAX) by (nonlinear_arith)
                requires
                    a == b * q + m,
                    0 < m < b,
                    a <= u128::MAX,
                    q >= 0,
            ;
        }
    }
    if m == 0 {
        q
    } else {
        q + 1
    }
}

/// The height of a pop-up for lines of the given display widths: the rows
/// they wrap to inside the pop-up's borders, plus two, kept between the
/// given minimum and the screen height less four (each capped accordingly).
pub open spec fn popup_height_spec(line_widths: Seq<usize>, popup_width: int, area_height: int, min_height: int) -> int {
    let inner = max_int(sat_sub(popup_width, 2), 1);
    let rows = wrapped_rows(line_widths, inner) % 0x10000;
    let available = max_int(sat_sub(area_height, 4), 1);
    let lo = min_int(min_height, available);
    clamp_int((rows + 2) % 0x10000, lo, available)
}

/// Rows of wrapped lines, computed modulo 2^16 as the pop-up arithmetic
/// does.
fn wrapped_rows_u16(line_widths: &[usize], inner: u16) -> (r: u16)
    requires
        inner > 0,
    ensures
        r == wrapped_rows(line_widths@, inner as int) % 0x10000,
{
    let mut acc: u32 = 0;
    let mut i: usize = 0;
    while i < line_widths.len()
        invariant
            i <= line_widths.len(),
            inner > 0,
            acc < 0x10000,
            acc == wrapped_rows(line_widths@.take(i as int), inner as int) % 0x10000,
        decreases line_widths.len() - i,
    {
        assert(line_widths@.take(i + 1).drop_last() =~= line_widths@.take(i as int));
        let w = line_widths[i];
        let w1: u128 = if w < 1 {
            1
        } else {
            w as u128
        };
        let rows = div_ceil_u128(w1, inner as u128);
        let ghost prev = wrapped_rows(line_widths@.take(i as int), inner as int);
        let part: u32 = (rows % 0x10000) as u32;
        proof {
            vstd::arithmetic::div_mod::lemma_add_mod_noop(prev, rows as int, 0x10000);
        }
        acc = (acc + part) % 0x10000;
        i = i + 1;
    }
    assert(line_widths@.take(i as int) =~= line_widths@);
    acc as u16
}

/// The height of a pop-up for lines of the given display widths (see
/// `popup_height_spec`).
pub fn popup_height_for_lines(line_widths: &[usize], popup_width: u16, area_height: u16, min_height: u16) -> (r: u16)
    ensures
        r == popup_height_spec(line_widths@, popup_width as int, area_height as int, min_height as int),
{
    let sub = popup_width.saturating_sub(2);
    let inner: u16 = if sub < 1 {
        1
    } else {
        sub
    };
    let rows = wrapped_rows_u16(line_widths, inner);
    let sub_h = area_height.saturating_sub(4);
    let available: u16 = if sub_h < 1 {
        1
    } else {
        sub_h
    };
    let lo: u16 = if min_height < available {
        min_height
    } else {
        available
    };
    let padded: u16 = ((rows as u32 + 2) % 0x10000) as u16;
    if padded < lo {
        lo
    } else if padded > available {
        available
    } else {
        padded
    }
}

} // verus!
