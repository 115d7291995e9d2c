use vstd::prelude::*;
use crate::geometry::fits_i32;
use crate::slide::{bounds_of, div_trunc, inner_gap, layout_fits, master_width, outer_gap, scroll_x, stack_height, SlideModel, SlideType};
use crate::workspace::stack_fits;

verus! {

proof fn lemma_scroll_fits(s: SlideModel, i: int)
    requires
        s.slide_type == SlideType::VerticalScroll,
        layout_fits(s),
        0 <= i < s.windows.len(),
    ensures
        fits_i32((s.dimensions.0 - 30) * (i - s.active_window)),
        fits_i32(s.position.0 + 20 + (s.dimensions.0 - 30) * (i - s.active_window)),
{
    let b = bounds_of(s);
    assert(fits_i32((b.width - 2 * outer_gap() + inner_gap()) * (i - s.active_window)));
}

proof fn lemma_master_fits(s: SlideModel, i: int)
    requires
        s.slide_type == SlideType::Master,
        layout_fits(s),
        1 <= i < s.windows.len(),
    ensures
        fits_i32((i - 1) * stack_height(s)),
        fits_i32(s.position.1 + (i - 1) * stack_height(s)),
{
    assert(fits_i32((i - 1) * stack_height(s)));
}

fn fits(v: i128) -> (r: bool)
    ensures
        r == fits_i32(v as int),
{
    -2147483648i128 <= v && v <= 2147483647i128
}

/// Whether `n` slides stacked from `coord`, `dimensions` apart, have positions that
/// fit an `i32`.
pub fn stack_fits_check(coord: (i32, i32), dimensions: (i32, i32), n: usize) -> (r: bool)
    ensures
        r == stack_fits(coord, dimensions, n as int),
{
    if n > 2147483647usize {
        return false;
    }
    let mut i: usize = 0;
    while i < n
        invariant
            0 <= i <= n,
            n <= i32::MAX,
            forall|j: int|
                0 <= j < i ==> fits_i32(#[trigger] (j * dimensions.1)) && fits_i32(
                    coord.1 + j * dimensions.1,
                ),
        decreases n - i,
    {
        assert(i * dimensions.1 <= i32::MAX * i32::MAX && i * dimensions.1 >= -(i32::MAX * 2147483648))
            by (nonlinear_arith)
            requires
                i <= i32::MAX,
                i32::MIN <= dimensions.1 <= i32::MAX,
        ;
        let p = (i as i128) * (dimensions.1 as i128);
        if !fits(p) || !fits((coord.1 as i128) + p) {
            return false;
        }
        i += 1;
    }
    true
}

/// Whether laying out a slide with these parts (its mode, place, size, number of
/// windows and active window) stays within `i32` arithmetic.
pub fn layout_fits_check(
    slide_type: SlideType,
    position: (i32, i32),
    dimensions: (i32, i32),
    n: usize,
    active: usize,
) -> (r: bool)
    ensures
        forall|s: SlideModel|
            s.slide_type == slide_type && s.position == position && s.dimensions == dimensions
                && s.windows.len() == n && s.active_window == active ==> (#[trigger] layout_fits(s)
                == r),
{
    if n > 2147483647usize {
        return false;
    }
    let x = position.0 as i128;
    let y = position.1 as i128;
    let w = dimensions.0 as i128;
    let h = dimensions.1 as i128;
    match slide_type {
        SlideType::Floating => true,
        SlideType::VerticalScroll => {
            if !(fits(w - 40) && fits(h - 40)) {
                return false;
            }
            if n == 0 {
                return true;
            }
            if !(fits(x + 20) && fits(y + 20) && fits(w - 30)) {
                return false;
            }
            let mut i: usize = 0;
            while i < n
                invariant
                    0 <= i <= n,
                    n <= i32::MAX,
                    slide_type == SlideType::VerticalScroll,
                    x == position.0,
                    w == dimensions.0,
                    h == dimensions.1,
                    y == position.1,
                    fits_i32(w - 30),
                    forall|j: int|
                        0 <= j < i ==> {
                            &&& fits_i32(#[trigger] ((w - 30) * (j - active)))
                            &&& fits_i32(x + 20 + (w - 30) * (j - active))
                        },
                decreases n - i,
            {
                let d = (i as i128) - (active as i128);
                assert(-(2147483648int * 18446744073709551616int) <= (w - 30) * d
                    <= 2147483648int * 18446744073709551616int) by (nonlinear_arith)
                    requires
                        -2147483648 <= w - 30 <= 2147483647,
                        -18446744073709551616int <= d <= 18446744073709551616int,
                ;
                let p = (w - 30) * d;
                if !fits(p) || !fits(x + 20 + p) {
                    proof {
                        assert forall|s: SlideModel|
                            s.slide_type == slide_type && s.position == position && s.dimensions
                                == dimensions && s.windows.len() == n && s.active_window
                                == active implies !#[trigger] layout_fits(s) by {
                            if layout_fits(s) {
                                lemma_scroll_fits(s, i as int);
                            }
                        }
                    }
                    return false;
                }
                i += 1;
            }
            proof {
                assert forall|s: SlideModel|
                    s.slide_type == slide_type && s.position == position && s.dimensions
                        == dimensions && s.windows.len() == n && s.active_window
                        == active implies #[trigger] layout_fits(s) by {
                    assert forall|j: int| 0 <= j < s.windows.len() implies {
                        &&& fits_i32(
                            #[trigger] ((dimensions.0 - 2 * outer_gap() + inner_gap()) * (j
                                - s.active_window)),
                        )
                        &&& fits_i32(scroll_x(s, j))
                    } by {
                        assert(fits_i32((w - 30) * (j - active)));
                    }
                }
            }
            true
        },
        SlideType::Master => {
            if n <= 1 {
                return true;
            }
            let mw: i128 = w / 2;
            let sh: i128 = h / ((n - 1) as i128);
            assert(mw == div_trunc(w as int, 2));
            assert(sh == div_trunc(h as int, n - 1));
            if !(fits(x + mw) && fits(w - mw)) {
                proof {
                    assert forall|s: SlideModel|
                        s.slide_type == slide_type && s.position == position && s.dimensions
                            == dimensions && s.windows.len() == n && s.active_window
                            == active implies !#[trigger] layout_fits(s) by {
                        assert(master_width(s) == mw);
                        assert(fits_i32(((1 - 1) * stack_height(s)) as int));
                    }
                }
                return false;
            }
            let mut i: usize = 1;
            while i < n
                invariant
                    1 <= i <= n,
                    n <= i32::MAX,
                    slide_type == SlideType::Master,
                    y == position.1,
                    x == position.0,
                    w == dimensions.0,
                    h == dimensions.1,
                    mw == div_trunc(w as int, 2),
                    fits_i32(x + mw),
                    fits_i32(w - mw),
                    sh == div_trunc(h as int, n - 1),
                    -2147483648 <= sh <= 2147483647,
                    forall|j: int|
                        1 <= j < i ==> {
                            &&& fits_i32(#[trigger] ((j - 1) * sh))
                            &&& fits_i32(y + (j - 1) * sh)
                        },
                decreases n - i,
            {
                assert(((i - 1) as int) * sh <= 2147483647 * 2147483648int && ((i - 1) as int) * sh
                    >= -(2147483648 * 2147483648int)) by (nonlinear_arith)
                    requires
                        0 <= i - 1 <= 2147483647,
                        -2147483648 <= sh <= 2147483647,
                ;
                let p = ((i - 1) as i128) * sh;
                if !fits(p) || !fits(y + p) {
                    proof {
                        assert forall|s: SlideModel|
                            s.slide_type == slide_type && s.position == position && s.dimensions
                                == dimensions && s.windows.len() == n && s.active_window
                                == active implies !#[trigger] layout_fits(s) by {
                            assert(stack_height(s) == sh);
                            if layout_fits(s) {
                                lemma_master_fits(s, i as int);
                            }
                        }
                    }
                    return false;
                }
                i += 1;
            }
            proof {
                assert forall|s: SlideModel|
                    s.slide_type == slide_type && s.position == position && s.dimensions
                        == dimensions && s.windows.len() == n && s.active_window
                        == active implies #[trigger] layout_fits(s) by {
                    assert(master_width(s) == mw);
                    assert(stack_height(s) == sh);
                }
            }
            true
        },
    }
}

}
