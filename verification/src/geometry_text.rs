//! The text that `xrandr` writes for a monitor's geometry, and what parsing it gives back.
use crate::overlay::geometry_value;
use crate::text::{
    all_digits, decimal, find, lemma_decimal, lemma_digits_match_nothing, lemma_find_after,
    lemma_no_match_concat, lemma_parse_decimal, lemma_parse_signed_decimal, no_match,
    signed_decimal, Pattern,
};
use vstd::prelude::*;

verus! {

/// The geometry that `xrandr` writes for a monitor `width` by `height` pixels and
/// `width_mm` by `height_mm` millimetres, placed at `(x, y)`: `{w}/{mw}x{h}/{mh}{x:+}{y:+}`.
pub open spec fn xrandr_geometry(width: nat, width_mm: nat, height: nat, height_mm: nat, x: int, y: int) -> Seq<char> {
    decimal(width) + seq!['/'] + decimal(width_mm) + seq!['x'] + (decimal(height) + seq!['/'] + (
    decimal(height_mm) + signed_decimal(x) + signed_decimal(y)))
}

proof fn lemma_geometry_sizes(dw: Seq<char>, dmw: Seq<char>, rest: Seq<char>)
    requires
        all_digits(dw),
        all_digits(dmw),
    ensures
        ({
            let g = dw + seq!['/'] + dmw + seq!['x'] + rest;
            let xi = dw.len() + 1 + dmw.len() as int;
            &&& find(g, Pattern::One('x')) == Some(xi)
            &&& find(g.take(xi), Pattern::One('/')) == Some(dw.len() as int)
            &&& g.take(xi).take(dw.len() as int) == dw
            &&& g.skip(xi + 1) == rest
        }),
{
    let slash = seq!['/'];
    let g = dw + slash + dmw + seq!['x'] + rest;
    let a = dw + slash + dmw;
    let xi = a.len() as int;
    lemma_digits_match_nothing(dw);
    lemma_digits_match_nothing(dmw);
    assert(no_match(slash, Pattern::One('x')));
    assert(g =~= a + (seq!['x'] + rest));
    lemma_no_match_concat(dw, slash, Pattern::One('x'));
    lemma_no_match_concat(dw + slash, dmw, Pattern::One('x'));
    lemma_find_after(a, seq!['x'] + rest, Pattern::One('x'));
    assert(g.take(xi) =~= a);
    assert(g.skip(xi + 1) =~= rest);
    assert(a =~= dw + (slash + dmw));
    lemma_find_after(dw, slash + dmw, Pattern::One('/'));
    assert(a.take(dw.len() as int) =~= dw);
}

proof fn lemma_geometry_height(dh: Seq<char>, dims: Seq<char>)
    requires
        all_digits(dh),
    ensures
        ({
            let rest = dh + seq!['/'] + dims;
            &&& find(rest, Pattern::One('/')) == Some(dh.len() as int)
            &&& rest.take(dh.len() as int) == dh
            &&& rest.skip(dh.len() as int + 1) == dims
        }),
{
    let slash = seq!['/'];
    let rest = dh + slash + dims;
    lemma_digits_match_nothing(dh);
    assert(rest =~= dh + (slash + dims));
    lemma_find_after(dh, slash + dims, Pattern::One('/'));
    assert(rest.take(dh.len() as int) =~= dh);
    assert(rest.skip(dh.len() as int + 1) =~= dims);
}

proof fn lemma_geometry_offsets(dmh: Seq<char>, x: int, y: int)
    requires
        all_digits(dmh),
        i32::MIN <= x <= i32::MAX,
        i32::MIN <= y <= i32::MAX,
    ensures
        ({
            let sx = signed_decimal(x);
            let sy = signed_decimal(y);
            let dims = dmh + sx + sy;
            let offsets = dims.skip(dmh.len() as int);
            let yi = sx.len() - 1;
            &&& find(dims, Pattern::Sign) == Some(dmh.len() as int)
            &&& find(offsets.drop_first(), Pattern::Sign) == Some(yi)
            &&& offsets.take(yi + 1) == sx
            &&& offsets.skip(yi + 1) == sy
        }),
{
    let sx = signed_decimal(x);
    let sy = signed_decimal(y);
    let ax: nat = if x < 0 { (-x) as nat } else { x as nat };
    let dx = decimal(ax);
    lemma_decimal(ax);
    lemma_digits_match_nothing(dmh);
    lemma_digits_match_nothing(dx);
    lemma_parse_signed_decimal(x);
    lemma_parse_signed_decimal(y);
    let dims = dmh + sx + sy;
    let offsets = sx + sy;
    assert(dims =~= dmh + offsets);
    lemma_find_after(dmh, offsets, Pattern::Sign);
    assert(dims.skip(dmh.len() as int) =~= offsets);
    assert(offsets.drop_first() =~= dx + sy);
    lemma_find_after(dx, sy, Pattern::Sign);
    assert(offsets.take(dx.len() as int + 1) =~= sx);
    assert(offsets.skip(dx.len() as int + 1) =~= sy);
}

/// Parsing reads back the placement that `xrandr` wrote, whatever the sizes in millimetres,
/// with the signs of the offsets kept.
pub proof fn geometry_round_trip(width: nat, width_mm: nat, height: nat, height_mm: nat, x: int, y: int)
    requires
        width <= i32::MAX,
        height <= i32::MAX,
        i32::MIN <= x <= i32::MAX,
        i32::MIN <= y <= i32::MAX,
    ensures
        geometry_value(xrandr_geometry(width, width_mm, height, height_mm, x, y)) == Some(
            (x as i32, y as i32, width as i32, height as i32),
        ),
{
    let dw = decimal(width);
    let dmw = decimal(width_mm);
    let dh = decimal(height);
    let dmh = decimal(height_mm);
    let sx = signed_decimal(x);
    let sy = signed_decimal(y);
    lemma_decimal(width);
    lemma_decimal(width_mm);
    lemma_decimal(height);
    lemma_decimal(height_mm);
    lemma_parse_decimal(width);
    lemma_parse_decimal(height);
    lemma_parse_signed_decimal(x);
    lemma_parse_signed_decimal(y);
    let dims = dmh + sx + sy;
    let rest = dh + seq!['/'] + dims;
    lemma_geometry_sizes(dw, dmw, rest);
    lemma_geometry_height(dh, dims);
    lemma_geometry_offsets(dmh, x, y);
}

} // verus!
