use crate::text::{
    chars_of, find, find_in, line_ranges, lines, parse_i32, parse_i32_in, token_ranges, tokens,
    Pattern, same_range,
};
use vstd::prelude::*;

verus! {

/// A monitor's placement, as `(x, y, width, height)`.
pub open spec fn geometry_value(g: Seq<char>) -> Option<(i32, i32, i32, i32)> {
    match find(g, Pattern::One('x')) {
        None => None,
        Some(xi) => {
            let head = g.take(xi);
            let width_text = match find(head, Pattern::One('/')) {
                Some(k) => head.take(k),
                None => head,
            };
            let rest = g.skip(xi + 1);
            match find(rest, Pattern::One('/')) {
                None => None,
                Some(si) => {
                    let dims = rest.skip(si + 1);
                    match find(dims, Pattern::Sign) {
                        None => None,
                        Some(oi) => {
                            let offsets = dims.skip(oi);
                            match find(offsets.drop_first(), Pattern::Sign) {
                                None => None,
                                Some(yi) => match (
                                    parse_i32(offsets.take(yi + 1)),
                                    parse_i32(offsets.skip(yi + 1)),
                                    parse_i32(width_text),
                                    parse_i32(rest.take(si)),
                                ) {
                                    (Some(x), Some(y), Some(w), Some(h)) => Some((x, y, w, h)),
                                    _ => None,
                                },
                            }
                        },
                    }
                },
            }
        },
    }
}

/// Parses the geometry of `v[lo..hi]`.
#[verifier::spinoff_prover]
#[verifier::rlimit(40)]
fn geometry_in(v: &Vec<char>, lo: usize, hi: usize) -> (r: Option<(i32, i32, i32, i32)>)
    requires
        lo <= hi <= v.len(),
    ensures
        r == geometry_value(v@.subrange(lo as int, hi as int)),
{
    let ghost g = v@.subrange(lo as int, hi as int);
    let xi = match find_in(v, lo, hi, Pattern::One('x')) {
        Some(i) => i,
        None => return None,
    };
    assert(g.take(xi - lo) =~= v@.subrange(lo as int, xi as int));
    let width_end = match find_in(v, lo, xi, Pattern::One('/')) {
        Some(k) => k,
        None => xi,
    };
    assert(v@.subrange(lo as int, xi as int).take(width_end - lo) =~= v@.subrange(
        lo as int,
        width_end as int,
    ));
    assert(g.skip(xi - lo + 1) =~= v@.subrange(xi + 1, hi as int));
    let si = match find_in(v, xi + 1, hi, Pattern::One('/')) {
        Some(i) => i,
        None => return None,
    };
    assert(v@.subrange(xi + 1, hi as int).take(si - xi - 1) =~= v@.subrange(xi + 1, si as int));
    assert(v@.subrange(xi + 1, hi as int).skip(si - xi - 1 + 1) =~= v@.subrange(
        si + 1,
        hi as int,
    ));
    let oi = match find_in(v, si + 1, hi, Pattern::Sign) {
        Some(i) => i,
        None => return None,
    };
    let ghost offsets = v@.subrange(oi as int, hi as int);
    assert(v@.subrange(si + 1, hi as int).skip(oi - si - 1) =~= offsets);
    assert(offsets.drop_first() =~= v@.subrange(oi + 1, hi as int));
    let yi = match find_in(v, oi + 1, hi, Pattern::Sign) {
        Some(i) => i,
        None => return None,
    };
    assert(offsets.take(yi - oi - 1 + 1) =~= v@.subrange(oi as int, yi as int));
    assert(offsets.skip(yi - oi - 1 + 1) =~= v@.subrange(yi as int, hi as int));
    let x = parse_i32_in(v, oi, yi);
    let y = parse_i32_in(v, yi, hi);
    let w = parse_i32_in(v, lo, width_end);
    let h = parse_i32_in(v, xi + 1, si);
    match (x, y, w, h) {
        (Some(x), Some(y), Some(w), Some(h)) => Some((x, y, w, h)),
        _ => None,
    }
}

/// Parses one monitor geometry of `xrandr --listactivemonitors`, such as
/// `1920/520x1080/300-1920+0`, into `(x, y, width, height)`.
pub fn parse_monitor_geometry(geometry: &str) -> (r: Option<(i32, i32, i32, i32)>)
    ensures
        r == geometry_value(geometry@),
{
    let v = chars_of(geometry);
    assert(v@.subrange(0, v@.len() as int) =~= v@);
    geometry_in(&v, 0, v.len())
}


/// One line of `xrandr --listactivemonitors`: whether it is the primary monitor (`*`) and the
/// placement that its third field gives, when that field parses.
pub open spec fn monitor_entry(line: Seq<char>) -> Option<(bool, (i32, i32, i32, i32))> {
    let fields = tokens(line);
    if fields.len() > 2 {
        match geometry_value(fields[2]) {
            Some(b) => Some((find(line, Pattern::One('*')) is Some, b)),
            None => None,
        }
    } else {
        None
    }
}

/// The monitors that the lines describe, in order, skipping lines that describe none.
pub open spec fn monitor_list(ls: Seq<Seq<char>>) -> Seq<(bool, (i32, i32, i32, i32))>
    decreases ls.len(),
{
    if ls.len() == 0 {
        seq![]
    } else {
        match monitor_entry(ls[0]) {
            Some(m) => seq![m] + monitor_list(ls.drop_first()),
            None => monitor_list(ls.drop_first()),
        }
    }
}

/// The monitors of an `xrandr --listactivemonitors` listing; its first line is a header.
pub open spec fn monitors(listing: Seq<char>) -> Seq<(bool, (i32, i32, i32, i32))> {
    let ls = lines(listing);
    if ls.len() == 0 {
        seq![]
    } else {
        monitor_list(ls.drop_first())
    }
}

proof fn lemma_monitor_list_snoc(ls: Seq<Seq<char>>, l: Seq<char>)
    ensures
        monitor_list(ls.push(l)) == monitor_list(ls) + match monitor_entry(l) {
            Some(m) => seq![m],
            None => seq![],
        },
    decreases ls.len(),
{
    if ls.len() == 0 {
        assert(ls.push(l).drop_first() =~= Seq::<Seq<char>>::empty());
        assert(monitor_list(Seq::<Seq<char>>::empty()) == Seq::<(bool, (i32, i32, i32, i32))>::empty());
        match monitor_entry(l) {
            Some(m) => {
                assert(seq![m] + Seq::<(bool, (i32, i32, i32, i32))>::empty() =~= seq![m]);
            },
            None => {},
        }
        assert(monitor_list(ls) =~= Seq::<(bool, (i32, i32, i32, i32))>::empty());
        match monitor_entry(l) {
            Some(m) => {
                assert(Seq::<(bool, (i32, i32, i32, i32))>::empty() + seq![m] =~= seq![m]);
            },
            None => {
                assert(Seq::<(bool, (i32, i32, i32, i32))>::empty() + Seq::<(bool, (i32, i32, i32, i32))>::empty()
                    =~= Seq::<(bool, (i32, i32, i32, i32))>::empty());
            },
        }
    } else {
        assert(ls.push(l).drop_first() =~= ls.drop_first().push(l));
        lemma_monitor_list_snoc(ls.drop_first(), l);
        match monitor_entry(ls[0]) {
            Some(m) => {
                match monitor_entry(l) {
                    Some(n) => {
                        assert(seq![m] + (monitor_list(ls.drop_first()) + seq![n]) =~= (seq![m]
                            + monitor_list(ls.drop_first())) + seq![n]);
                    },
                    None => {
                        assert(seq![m] + (monitor_list(ls.drop_first()) + Seq::<(bool, (i32, i32, i32, i32))>::empty())
                            =~= (seq![m] + monitor_list(ls.drop_first())) + Seq::<(bool, (i32, i32, i32, i32))>::empty());
                    },
                }
            },
            None => {},
        }
    }
}

/// The entry of the line `v[lo..hi]`.
fn monitor_entry_in(v: &Vec<char>, lo: usize, hi: usize) -> (r: Option<(bool, (i32, i32, i32, i32))>)
    requires
        lo <= hi <= v.len(),
    ensures
        r == monitor_entry(v@.subrange(lo as int, hi as int)),
{
    let fields = token_ranges(v, lo, hi);
    if fields.len() > 2 {
        let (a, b) = fields[2];
        match geometry_in(v, a, b) {
            Some(bounds) => {
                let primary = find_in(v, lo, hi, Pattern::One('*')).is_some();
                Some((primary, bounds))
            },
            None => None,
        }
    } else {
        None
    }
}

/// The monitors of a listing.
fn monitors_of(v: &Vec<char>) -> (r: Vec<(bool, (i32, i32, i32, i32))>)
    ensures
        r@ == monitors(v@),
{
    let ranges = line_ranges(v);
    let ghost ls = lines(v@);
    let mut r: Vec<(bool, (i32, i32, i32, i32))> = Vec::new();
    if ranges.len() == 0 {
        return r;
    }
    let mut k: usize = 1;
    assert(ls.drop_first().take(0) =~= Seq::<Seq<char>>::empty());
    while k < ranges.len()
        invariant
            1 <= k <= ranges@.len(),
            ranges@.len() == ls.len(),
            ls == lines(v@),
            forall|j: int|
                0 <= j < ranges@.len() ==> {
                    &&& (#[trigger] ranges@[j]).0 <= ranges@[j].1 <= v.len()
                    &&& v@.subrange(ranges@[j].0 as int, ranges@[j].1 as int) == ls[j]
                },
            r@ == monitor_list(ls.drop_first().take(k - 1)),
        decreases ranges.len() - k,
    {
        let (a, b) = ranges[k];
        let entry = monitor_entry_in(v, a, b);
        proof {
            assert(ls.drop_first().take(k as int) =~= ls.drop_first().take(k - 1).push(ls[k as int]));
            lemma_monitor_list_snoc(ls.drop_first().take(k - 1), ls[k as int]);
        }
        match entry {
            Some(m) => {
                r.push(m);
            },
            None => {
                assert(r@ + Seq::<(bool, (i32, i32, i32, i32))>::empty() =~= r@);
            },
        }
        k = k + 1;
    }
    assert(ls.drop_first().take(k - 1) =~= ls.drop_first());
    r
}


/// `xdotool getwindowgeometry --shell` output read as `KEY=value` lines: the value of the last
/// line whose key is `key`.
pub open spec fn shell_value(ls: Seq<Seq<char>>, key: Seq<char>) -> Option<Seq<char>>
    decreases ls.len(),
{
    if ls.len() == 0 {
        None
    } else {
        let l = ls.last();
        match find(l, Pattern::One('=')) {
            Some(e) => {
                if l.take(e) == key {
                    Some(l.skip(e + 1))
                } else {
                    shell_value(ls.drop_last(), key)
                }
            },
            None => shell_value(ls.drop_last(), key),
        }
    }
}

/// Integer division by two, rounding toward zero as Rust's `/` does.
pub open spec fn half(w: int) -> int {
    if w >= 0 {
        w / 2
    } else {
        -((-w) / 2)
    }
}

/// The value of `key` in the window geometry, parsed as an `i32`.
pub open spec fn shell_number(g: Seq<char>, key: Seq<char>) -> Option<i32> {
    match shell_value(lines(g), key) {
        Some(t) => parse_i32(t),
        None => None,
    }
}

/// The center of the window that the geometry describes.
pub open spec fn window_center(g: Seq<char>) -> Option<(int, int)> {
    match (
        shell_number(g, "X"@),
        shell_number(g, "WIDTH"@),
        shell_number(g, "Y"@),
        shell_number(g, "HEIGHT"@),
    ) {
        (Some(x), Some(w), Some(y), Some(h)) => Some((x + half(w as int), y + half(h as int))),
        _ => None,
    }
}

/// The point `(cx, cy)` lies on the monitor.
pub open spec fn holds_point(b: (i32, i32, i32, i32), cx: int, cy: int) -> bool {
    b.0 <= cx && cx < b.0 + b.2 && b.1 <= cy && cy < b.1 + b.3
}

/// The first monitor that holds `(cx, cy)`.
pub open spec fn first_holding(ms: Seq<(bool, (i32, i32, i32, i32))>, cx: int, cy: int) -> Option<
    (i32, i32, i32, i32),
>
    decreases ms.len(),
{
    if ms.len() == 0 {
        None
    } else if holds_point(ms[0].1, cx, cy) {
        Some(ms[0].1)
    } else {
        first_holding(ms.drop_first(), cx, cy)
    }
}

/// The first primary monitor.
pub open spec fn first_primary(ms: Seq<(bool, (i32, i32, i32, i32))>) -> Option<
    (i32, i32, i32, i32),
>
    decreases ms.len(),
{
    if ms.len() == 0 {
        None
    } else if ms[0].0 {
        Some(ms[0].1)
    } else {
        first_primary(ms.drop_first())
    }
}

/// The primary monitor, or else the first one.
pub open spec fn default_monitor(ms: Seq<(bool, (i32, i32, i32, i32))>) -> Option<
    (i32, i32, i32, i32),
> {
    match first_primary(ms) {
        Some(b) => Some(b),
        None => if ms.len() > 0 {
            Some(ms[0].1)
        } else {
            None
        },
    }
}

/// The monitor on which to show the overlay: with the geometry of the target window, the
/// monitor that holds its center (none when the geometry lacks a field); otherwise, or when no
/// monitor holds it, the primary monitor or else the first.
pub open spec fn monitor_choice(listing: Seq<char>, window: Option<Seq<char>>) -> Option<
    (i32, i32, i32, i32),
> {
    let ms = monitors(listing);
    match window {
        Some(g) => match window_center(g) {
            None => None,
            Some(c) => match first_holding(ms, c.0, c.1) {
                Some(b) => Some(b),
                None => default_monitor(ms),
            },
        },
        None => default_monitor(ms),
    }
}

proof fn lemma_first_holding(ms: Seq<(bool, (i32, i32, i32, i32))>, cx: int, cy: int)
    ensures
        first_holding(ms, cx, cy) matches Some(b) ==> holds_point(b, cx, cy) && exists|i: int|
            0 <= i < ms.len() && #[trigger] ms[i].1 == b,
        first_holding(ms, cx, cy) is None ==> forall|i: int|
            0 <= i < ms.len() ==> !holds_point(#[trigger] ms[i].1, cx, cy),
    decreases ms.len(),
{
    if ms.len() > 0 {
        lemma_first_holding(ms.drop_first(), cx, cy);
        if !holds_point(ms[0].1, cx, cy) {
            if let Some(b) = first_holding(ms, cx, cy) {
                let i = choose|i: int| 0 <= i < ms.drop_first().len() && #[trigger] ms.drop_first()[i].1 == b;
                assert(ms[i + 1].1 == b);
            } else {
                assert forall|i: int| 0 <= i < ms.len() implies !holds_point(#[trigger] ms[i].1, cx, cy) by {
                    if i > 0 {
                        assert(ms[i] == ms.drop_first()[i - 1]);
                    }
                }
            }
        }
    }
}

/// The overlay goes to a monitor that holds the center of the target window whenever one
/// does; when none does, to the primary monitor, or else the first.
pub proof fn overlay_follows_target_window(listing: Seq<char>, geometry: Seq<char>)
    requires
        window_center(geometry) is Some,
    ensures
        ({
            let c = window_center(geometry)->0;
            let ms = monitors(listing);
            &&& (exists|i: int| 0 <= i < ms.len() && holds_point(#[trigger] ms[i].1, c.0, c.1))
                ==> (monitor_choice(listing, Some(geometry)) matches Some(b) && holds_point(b, c.0, c.1))
            &&& !(exists|i: int| 0 <= i < ms.len() && holds_point(#[trigger] ms[i].1, c.0, c.1))
                ==> monitor_choice(listing, Some(geometry)) == default_monitor(ms)
        }),
{
    let c = window_center(geometry)->0;
    lemma_first_holding(monitors(listing), c.0, c.1);
}

proof fn lemma_first_primary(ms: Seq<(bool, (i32, i32, i32, i32))>)
    ensures
        forall|i: int|
            0 <= i < ms.len() && (#[trigger] ms[i]).0 && (forall|j: int| 0 <= j < i ==> !ms[j].0)
                ==> first_primary(ms) == Some(ms[i].1),
        (forall|i: int| 0 <= i < ms.len() ==> !(#[trigger] ms[i]).0) ==> first_primary(ms) is None,
    decreases ms.len(),
{
    if ms.len() > 0 {
        let rest = ms.drop_first();
        lemma_first_primary(rest);
        assert forall|i: int|
            0 <= i < ms.len() && (#[trigger] ms[i]).0 && (forall|j: int| 0 <= j < i ==> !ms[j].0)
                implies first_primary(ms) == Some(ms[i].1) by {
            if i > 0 {
                assert(!ms[0].0);
                assert(rest[i - 1] == ms[i]);
                assert forall|j: int| 0 <= j < i - 1 implies !(#[trigger] rest[j]).0 by {
                    assert(rest[j] == ms[j + 1]);
                }
            }
        }
        if forall|i: int| 0 <= i < ms.len() ==> !(#[trigger] ms[i]).0 {
            assert(!ms[0].0);
            assert forall|i: int| 0 <= i < rest.len() implies !(#[trigger] rest[i]).0 by {
                assert(rest[i] == ms[i + 1]);
            }
        }
    }
}

/// Where no target window decides, the overlay goes to the first monitor marked primary
/// (`*`) whenever one is marked; only when none is, to the first monitor listed; and with no
/// monitor listed, nowhere.
pub proof fn overlay_prefers_primary_monitor(listing: Seq<char>)
    ensures
        ({
            let ms = monitors(listing);
            &&& forall|i: int|
                0 <= i < ms.len() && (#[trigger] ms[i]).0 && (forall|j: int| 0 <= j < i ==> !ms[j].0)
                    ==> monitor_choice(listing, None) == Some(ms[i].1)
                        && default_monitor(ms) == Some(ms[i].1)
            &&& (forall|i: int| 0 <= i < ms.len() ==> !(#[trigger] ms[i]).0) && ms.len() > 0
                ==> monitor_choice(listing, None) == Some(ms[0].1) && default_monitor(ms) == Some(
                ms[0].1,
            )
            &&& ms.len() == 0 ==> monitor_choice(listing, None) is None && default_monitor(ms) is None
        }),
{
    lemma_first_primary(monitors(listing));
}

/// With the target window's center known, the overlay goes to the first listed monitor that
/// holds it; when none holds it, to the first primary monitor, or else the first listed.
pub proof fn overlay_picks_first_monitor_holding_center(listing: Seq<char>, geometry: Seq<char>)
    requires
        window_center(geometry) is Some,
    ensures
        ({
            let c = window_center(geometry)->0;
            let ms = monitors(listing);
            &&& forall|i: int|
                0 <= i < ms.len() && holds_point(#[trigger] ms[i].1, c.0, c.1) && (forall|j: int|
                    0 <= j < i ==> !holds_point(ms[j].1, c.0, c.1)) ==> monitor_choice(
                    listing,
                    Some(geometry),
                ) == Some(ms[i].1)
            &&& forall|i: int|
                0 <= i < ms.len() && (#[trigger] ms[i]).0 && (forall|j: int| 0 <= j < i ==> !ms[j].0)
                    && (forall|j: int| 0 <= j < ms.len() ==> !holds_point(ms[j].1, c.0, c.1))
                    ==> monitor_choice(listing, Some(geometry)) == Some(ms[i].1)
            &&& (forall|i: int| 0 <= i < ms.len() ==> !(#[trigger] ms[i]).0) && ms.len() > 0 && (
            forall|j: int| 0 <= j < ms.len() ==> !holds_point(ms[j].1, c.0, c.1))
                ==> monitor_choice(listing, Some(geometry)) == Some(ms[0].1)
        }),
{
    let c = window_center(geometry)->0;
    let ms = monitors(listing);
    lemma_first_primary(ms);
    lemma_first_holding_index(ms, c.0, c.1);
    lemma_first_holding(ms, c.0, c.1);
}

proof fn lemma_first_holding_index(ms: Seq<(bool, (i32, i32, i32, i32))>, cx: int, cy: int)
    ensures
        forall|i: int|
            0 <= i < ms.len() && holds_point(#[trigger] ms[i].1, cx, cy) && (forall|j: int|
                0 <= j < i ==> !holds_point(ms[j].1, cx, cy)) ==> first_holding(ms, cx, cy) == Some(
                ms[i].1,
            ),
    decreases ms.len(),
{
    if ms.len() > 0 {
        let rest = ms.drop_first();
        lemma_first_holding_index(rest, cx, cy);
        assert forall|i: int|
            0 <= i < ms.len() && holds_point(#[trigger] ms[i].1, cx, cy) && (forall|j: int|
                0 <= j < i ==> !holds_point(ms[j].1, cx, cy)) implies first_holding(ms, cx, cy)
            == Some(ms[i].1) by {
            if i > 0 {
                assert(!holds_point(ms[0].1, cx, cy));
                assert(rest[i - 1] == ms[i]);
                assert forall|j: int| 0 <= j < i - 1 implies !holds_point(rest[j].1, cx, cy) by {
                    assert(rest[j] == ms[j + 1]);
                }
            }
        }
    }
}

/// The value range of `key` among the lines `ranges` of `v`.
fn shell_value_in(v: &Vec<char>, ranges: &Vec<(usize, usize)>, key: &str) -> (r: Option<
    (usize, usize),
>)
    requires
        ranges@.len() == lines(v@).len(),
        forall|k: int|
            0 <= k < ranges@.len() ==> {
                &&& (#[trigger] ranges@[k]).0 <= ranges@[k].1 <= v.len()
                &&& v@.subrange(ranges@[k].0 as int, ranges@[k].1 as int) == lines(v@)[k]
            },
    ensures
        match r {
            Some((a, b)) => a <= b <= v.len() && shell_value(lines(v@), key@) == Some(
                v@.subrange(a as int, b as int),
            ),
            None => shell_value(lines(v@), key@) is None,
        },
{
    let ghost ls = lines(v@);
    let mut k = ranges.len();
    assert(ls.take(k as int) =~= ls);
    while k > 0
        invariant
            k <= ranges@.len(),
            ranges@.len() == ls.len(),
            ls == lines(v@),
            forall|j: int|
                0 <= j < ranges@.len() ==> {
                    &&& (#[trigger] ranges@[j]).0 <= ranges@[j].1 <= v.len()
                    &&& v@.subrange(ranges@[j].0 as int, ranges@[j].1 as int) == ls[j]
                },
            shell_value(ls, key@) == shell_value(ls.take(k as int), key@),
        decreases k,
    {
        let (a, b) = ranges[k - 1];
        let ghost l = ls[k - 1];
        assert(ls.take(k as int).last() == l);
        assert(ls.take(k as int).drop_last() =~= ls.take(k - 1));
        match find_in(v, a, b, Pattern::One('=')) {
            Some(e) => {
                assert(l.take(e - a) =~= v@.subrange(a as int, e as int));
                assert(l.skip(e - a + 1) =~= v@.subrange(e + 1, b as int));
                if same_range(v, a, e, key) {
                    return Some((e + 1, b));
                }
            },
            None => {},
        }
        k = k - 1;
    }
    None
}

fn shell_number_in(v: &Vec<char>, ranges: &Vec<(usize, usize)>, key: &str) -> (r: Option<i32>)
    requires
        ranges@.len() == lines(v@).len(),
        forall|k: int|
            0 <= k < ranges@.len() ==> {
                &&& (#[trigger] ranges@[k]).0 <= ranges@[k].1 <= v.len()
                &&& v@.subrange(ranges@[k].0 as int, ranges@[k].1 as int) == lines(v@)[k]
            },
    ensures
        r == shell_number(v@, key@),
{
    match shell_value_in(v, ranges, key) {
        Some((a, b)) => parse_i32_in(v, a, b),
        None => None,
    }
}

fn half_of(w: i32) -> (r: i64)
    ensures
        r == half(w as int),
{
    if w >= 0 {
        (w / 2) as i64
    } else {
        -(((-(w as i64)) / 2))
    }
}

fn window_center_of(v: &Vec<char>) -> (r: Option<(i64, i64)>)
    ensures
        match r {
            Some(c) => window_center(v@) == Some((c.0 as int, c.1 as int)),
            None => window_center(v@) is None,
        },
{
    let ranges = line_ranges(v);
    let x = shell_number_in(v, &ranges, "X");
    let w = shell_number_in(v, &ranges, "WIDTH");
    let y = shell_number_in(v, &ranges, "Y");
    let h = shell_number_in(v, &ranges, "HEIGHT");
    match (x, w, y, h) {
        (Some(x), Some(w), Some(y), Some(h)) => Some(
            (x as i64 + half_of(w), y as i64 + half_of(h)),
        ),
        _ => None,
    }
}

fn holds(b: (i32, i32, i32, i32), cx: i64, cy: i64) -> (r: bool)
    ensures
        r == holds_point(b, cx as int, cy as int),
{
    b.0 as i64 <= cx && cx < b.0 as i64 + b.2 as i64 && b.1 as i64 <= cy && cy < b.1 as i64
        + b.3 as i64
}

fn first_holding_of(ms: &Vec<(bool, (i32, i32, i32, i32))>, cx: i64, cy: i64) -> (r: Option<
    (i32, i32, i32, i32),
>)
    ensures
        r == first_holding(ms@, cx as int, cy as int),
{
    let mut i: usize = 0;
    assert(ms@.skip(0) =~= ms@);
    while i < ms.len()
        invariant
            i <= ms@.len(),
            first_holding(ms@, cx as int, cy as int) == first_holding(
                ms@.skip(i as int),
                cx as int,
                cy as int,
            ),
        decreases ms.len() - i,
    {
        assert(ms@.skip(i as int).drop_first() =~= ms@.skip(i + 1));
        assert(ms@.skip(i as int)[0] == ms@[i as int]);
        if holds(ms[i].1, cx, cy) {
            return Some(ms[i].1);
        }
        i = i + 1;
    }
    None
}

fn default_monitor_of(ms: &Vec<(bool, (i32, i32, i32, i32))>) -> (r: Option<(i32, i32, i32, i32)>)
    ensures
        r == default_monitor(ms@),
{
    let mut i: usize = 0;
    assert(ms@.skip(0) =~= ms@);
    while i < ms.len()
        invariant
            i <= ms@.len(),
            first_primary(ms@) == first_primary(ms@.skip(i as int)),
        decreases ms.len() - i,
    {
        assert(ms@.skip(i as int).drop_first() =~= ms@.skip(i + 1));
        assert(ms@.skip(i as int)[0] == ms@[i as int]);
        if ms[i].0 {
            return Some(ms[i].1);
        }
        i = i + 1;
    }
    if ms.len() > 0 {
        Some(ms[0].1)
    } else {
        None
    }
}

pub open spec fn fits_i32(v: int) -> bool {
    i32::MIN <= v <= i32::MAX
}

/// The sums that give the window center stay in `i32` range where they are taken: the
/// horizontal one once `X` and `WIDTH` are read, the vertical one once that succeeded and `Y`
/// and `HEIGHT` are read.
pub open spec fn center_defined(g: Seq<char>) -> bool {
    match (shell_number(g, "X"@), shell_number(g, "WIDTH"@)) {
        (Some(x), Some(w)) => fits_i32(x + half(w as int)) && match (
            shell_number(g, "Y"@),
            shell_number(g, "HEIGHT"@),
        ) {
            (Some(y), Some(h)) => fits_i32(y + half(h as int)),
            _ => true,
        },
        _ => true,
    }
}

/// The right and bottom edges stay in `i32` range where the search for the monitor holding
/// `(cx, cy)` computes them: each edge only after the checks before it passed, and no monitor
/// after the one found.
pub open spec fn search_defined(ms: Seq<(bool, (i32, i32, i32, i32))>, cx: int, cy: int) -> bool
    decreases ms.len(),
{
    if ms.len() == 0 {
        true
    } else {
        let b = ms[0].1;
        if !(b.0 <= cx) {
            search_defined(ms.drop_first(), cx, cy)
        } else if !fits_i32(b.0 + b.2) {
            false
        } else if !(cx < b.0 + b.2) || !(b.1 <= cy) {
            search_defined(ms.drop_first(), cx, cy)
        } else if !fits_i32(b.1 + b.3) {
            false
        } else if cy < b.1 + b.3 {
            true
        } else {
            search_defined(ms.drop_first(), cx, cy)
        }
    }
}

/// Every `i32` sum taken while choosing the monitor stays in range.
pub open spec fn choice_defined(listing: Seq<char>, window: Option<Seq<char>>) -> bool {
    match window {
        None => true,
        Some(g) => center_defined(g) && match window_center(g) {
            None => true,
            Some(c) => search_defined(monitors(listing), c.0, c.1),
        },
    }
}

fn in_i32(v: i64) -> (r: bool)
    ensures
        r == fits_i32(v as int),
{
    -2147483648 <= v && v <= 2147483647
}

fn center_defined_of(v: &Vec<char>) -> (r: bool)
    ensures
        r == center_defined(v@),
{
    let ranges = line_ranges(v);
    let x = shell_number_in(v, &ranges, "X");
    let w = shell_number_in(v, &ranges, "WIDTH");
    match (x, w) {
        (Some(x), Some(w)) => {
            if !in_i32(x as i64 + half_of(w)) {
                return false;
            }
            let y = shell_number_in(v, &ranges, "Y");
            let h = shell_number_in(v, &ranges, "HEIGHT");
            match (y, h) {
                (Some(y), Some(h)) => in_i32(y as i64 + half_of(h)),
                _ => true,
            }
        },
        _ => true,
    }
}

fn search_defined_of(ms: &Vec<(bool, (i32, i32, i32, i32))>, cx: i64, cy: i64) -> (r: bool)
    ensures
        r == search_defined(ms@, cx as int, cy as int),
{
    let mut i: usize = 0;
    assert(ms@.skip(0) =~= ms@);
    while i < ms.len()
        invariant
            i <= ms@.len(),
            search_defined(ms@, cx as int, cy as int) == search_defined(
                ms@.skip(i as int),
                cx as int,
                cy as int,
            ),
        decreases ms.len() - i,
    {
        assert(ms@.skip(i as int).drop_first() =~= ms@.skip(i + 1));
        assert(ms@.skip(i as int)[0] == ms@[i as int]);
        let (x, y, w, h) = ms[i].1;
        if x as i64 <= cx {
            let right = x as i64 + w as i64;
            if !in_i32(right) {
                return false;
            }
            if cx < right && y as i64 <= cy {
                let bottom = y as i64 + h as i64;
                if !in_i32(bottom) {
                    return false;
                }
                if cy < bottom {
                    return true;
                }
            }
        }
        i = i + 1;
    }
    true
}

/// Whether `monitor_bounds` may be asked for this output: every `i32` sum that the choice
/// takes stays in range.
pub fn monitor_bounds_fit(listing: &str, window_geometry: Option<&str>) -> (r: bool)
    ensures
        r == choice_defined(
            listing@,
            match window_geometry {
                Some(g) => Some(g@),
                None => None,
            },
        ),
{
    match window_geometry {
        None => true,
        Some(g) => {
            let gv = chars_of(g);
            if !center_defined_of(&gv) {
                return false;
            }
            match window_center_of(&gv) {
                None => true,
                Some((cx, cy)) => {
                    let lv = chars_of(listing);
                    let ms = monitors_of(&lv);
                    search_defined_of(&ms, cx, cy)
                },
            }
        },
    }
}

/// Chooses the monitor for the overlay from the output of `xrandr --listactivemonitors`
/// and, when `xdotool getwindowgeometry --shell` succeeded for the target window, its output.
pub fn monitor_bounds(listing: &str, window_geometry: Option<&str>) -> (r: Option<
    (i32, i32, i32, i32),
>)
    requires
        choice_defined(
            listing@,
            match window_geometry {
                Some(g) => Some(g@),
                None => None,
            },
        ),
    ensures
        r == monitor_choice(
            listing@,
            match window_geometry {
                Some(g) => Some(g@),
                None => None,
            },
        ),
{
    let lv = chars_of(listing);
    let ms = monitors_of(&lv);
    match window_geometry {
        Some(g) => {
            let gv = chars_of(g);
            match window_center_of(&gv) {
                None => None,
                Some((cx, cy)) => match first_holding_of(&ms, cx, cy) {
                    Some(b) => Some(b),
                    None => default_monitor_of(&ms),
                },
            }
        },
        None => default_monitor_of(&ms),
    }
}

/// Where the overlay of width 320 goes on a monitor: centered horizontally, `margin` above
/// the monitor's bottom edge.
pub open spec fn overlay_spot(b: (i32, i32, i32, i32), margin: i32) -> (int, int) {
    (b.0 + half(b.2 - 320), b.1 + b.3 - margin)
}

/// The overlay position on the monitor stays in `i32` range at each step of its arithmetic.
pub open spec fn spot_fits(bounds: (i32, i32, i32, i32), margin: i32) -> bool {
    &&& i32::MIN <= bounds.2 - 320
    &&& i32::MIN <= overlay_spot(bounds, margin).0 <= i32::MAX
    &&& i32::MIN <= bounds.1 + bounds.3 <= i32::MAX
    &&& i32::MIN <= overlay_spot(bounds, margin).1 <= i32::MAX
}

/// Whether `overlay_position` may be asked for this monitor.
pub fn overlay_spot_fits(bounds: (i32, i32, i32, i32), margin: i32) -> (r: bool)
    ensures
        r == spot_fits(bounds, margin),
{
    let (x, y, width, height) = bounds;
    let offset = half_of(((width as i64) - 320) as i32);
    let w = width as i64 - 320;
    let left = x as i64 + offset;
    let bottom = y as i64 + height as i64;
    let top = bottom - margin as i64;
    i32::MIN as i64 <= w && i32::MIN as i64 <= left && left <= i32::MAX as i64 && i32::MIN as i64
        <= bottom && bottom <= i32::MAX as i64 && i32::MIN as i64 <= top && top <= i32::MAX as i64
}

/// The overlay position on the monitor `bounds`.
pub fn overlay_position(bounds: (i32, i32, i32, i32), margin: i32) -> (r: (i32, i32))
    requires
        spot_fits(bounds, margin),
    ensures
        r.0 == overlay_spot(bounds, margin).0,
        r.1 == overlay_spot(bounds, margin).1,
{
    let (x, y, width, height) = bounds;
    let offset = half_of(width - 320);
    let left = (x as i64 + offset) as i32;
    let top = y + height - margin;
    (left, top)
}

} // verus!
