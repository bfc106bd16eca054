use vstd::prelude::*;
use vstd::string::StrSliceExecFns;

verus! {

/// The characters of a string slice, in order.
pub fn chars_of(s: &str) -> (v: Vec<char>)
    ensures
        v@ == s@,
{
    let mut v: Vec<char> = Vec::new();
    for c in it: s.chars()
        invariant
            it.seq() == s@,
            v@ == s@.take(it.index() as int),
    {
        v.push(c);
    }
    v
}

/// `char::is_whitespace`: the Unicode `White_Space` property.
pub open spec fn is_space(c: char) -> bool {
    let n = c as u32;
    ||| 9 <= n <= 13
    ||| n == 32
    ||| n == 0x85
    ||| n == 0xA0
    ||| n == 0x1680
    ||| 0x2000 <= n <= 0x200A
    ||| n == 0x2028
    ||| n == 0x2029
    ||| n == 0x202F
    ||| n == 0x205F
    ||| n == 0x3000
}

pub fn char_is_space(c: char) -> (b: bool)
    ensures
        b == is_space(c),
{
    let n = c as u32;
    (9 <= n && n <= 13) || n == 32 || n == 0x85 || n == 0xA0 || n == 0x1680 || (0x2000 <= n && n
        <= 0x200A) || n == 0x2028 || n == 0x2029 || n == 0x202F || n == 0x205F || n == 0x3000
}

pub open spec fn ascii_lower(c: char) -> char {
    if 'A' <= c && c <= 'Z' {
        ((c as u32) + 32) as char
    } else {
        c
    }
}

pub fn char_ascii_lower(c: char) -> (r: char)
    ensures
        r == ascii_lower(c),
{
    if 'A' <= c && c <= 'Z' {
        ((c as u8) + 32) as char
    } else {
        c
    }
}


/// Every character is ASCII.
pub open spec fn all_ascii(s: Seq<char>) -> bool {
    forall|i: int| 0 <= i < s.len() ==> (#[trigger] s[i] as u32) < 128
}

/// `str::to_ascii_lowercase`.
pub open spec fn lower(s: Seq<char>) -> Seq<char> {
    s.map_values(|c: char| ascii_lower(c))
}

pub fn lower_chars(v: &Vec<char>) -> (r: Vec<char>)
    ensures
        r@ == lower(v@),
{
    let mut r: Vec<char> = Vec::new();
    for i in 0..v.len()
        invariant
            r@ == lower(v@.take(i as int)),
    {
        r.push(char_ascii_lower(v[i]));
        assert(lower(v@.take(i + 1)) =~= lower(v@.take(i as int)).push(ascii_lower(v@[i as int])));
    }
    assert(v@.take(v.len() as int) =~= v@);
    r
}

/// `str::trim_start_matches`: leading characters that match `p` removed.
pub open spec fn strip_start(s: Seq<char>, p: Pattern) -> Seq<char>
    decreases s.len(),
{
    if s.len() > 0 && pattern_matches(p, s[0]) {
        strip_start(s.drop_first(), p)
    } else {
        s
    }
}

/// `str::trim_end_matches`: trailing characters that match `p` removed.
pub open spec fn strip_end(s: Seq<char>, p: Pattern) -> Seq<char>
    decreases s.len(),
{
    if s.len() > 0 && pattern_matches(p, s.last()) {
        strip_end(s.drop_last(), p)
    } else {
        s
    }
}

/// `str::trim_matches`: leading and trailing characters that match `p` removed.
pub open spec fn strip(s: Seq<char>, p: Pattern) -> Seq<char> {
    strip_end(strip_start(s, p), p)
}

/// `str::trim`: white space removed from both ends.
pub open spec fn trim(s: Seq<char>) -> Seq<char> {
    strip(s, Pattern::Space)
}

proof fn lemma_strip_start_skip(s: Seq<char>, p: Pattern, k: int)
    requires
        0 <= k <= s.len(),
        forall|i: int| 0 <= i < k ==> pattern_matches(p, #[trigger] s[i]),
    ensures
        strip_start(s, p) == strip_start(s.skip(k), p),
    decreases k,
{
    if k > 0 {
        assert(s.drop_first().skip(k - 1) =~= s.skip(k));
        lemma_strip_start_skip(s.drop_first(), p, k - 1);
    } else {
        assert(s.skip(0) =~= s);
    }
}

proof fn lemma_strip_end_take(s: Seq<char>, p: Pattern, k: int)
    requires
        0 <= k <= s.len(),
        forall|i: int| k <= i < s.len() ==> pattern_matches(p, #[trigger] s[i]),
    ensures
        strip_end(s, p) == strip_end(s.take(k), p),
    decreases s.len() - k,
{
    if k < s.len() {
        assert(s.drop_last().take(k) =~= s.take(k));
        lemma_strip_end_take(s.drop_last(), p, k);
    } else {
        assert(s.take(k) =~= s);
    }
}

/// Bounds `(a, b)` of what remains of `v[lo..hi]` with the characters that match `p` removed
/// from both ends.
pub fn strip_bounds(v: &Vec<char>, lo: usize, hi: usize, p: Pattern) -> (r: (usize, usize))
    requires
        lo <= hi <= v.len(),
    ensures
        lo <= r.0 <= r.1 <= hi,
        v@.subrange(r.0 as int, r.1 as int) == strip(v@.subrange(lo as int, hi as int), p),
{
    let mut a = lo;
    while a < hi && char_matches(&p, v[a])
        invariant
            lo <= a <= hi <= v.len(),
            forall|i: int| lo <= i < a ==> pattern_matches(p, #[trigger] v@[i]),
        decreases hi - a,
    {
        a = a + 1;
    }
    let ghost s = v@.subrange(lo as int, hi as int);
    proof {
        assert forall|i: int| 0 <= i < a - lo implies pattern_matches(p, #[trigger] s[i]) by {
            assert(s[i] == v@[lo + i]);
        }
        lemma_strip_start_skip(s, p, a - lo);
        assert(s.skip(a - lo) =~= v@.subrange(a as int, hi as int));
    }
    let mut b = hi;
    while b > a && char_matches(&p, v[b - 1])
        invariant
            lo <= a <= b <= hi <= v.len(),
            forall|i: int| b <= i < hi ==> pattern_matches(p, #[trigger] v@[i]),
        decreases b - a,
    {
        b = b - 1;
    }
    let ghost t = v@.subrange(a as int, hi as int);
    proof {
        assert(strip_start(t, p) == t);
        assert forall|i: int| b - a <= i < t.len() implies pattern_matches(p, #[trigger] t[i]) by {
            assert(t[i] == v@[a + i]);
        }
        lemma_strip_end_take(t, p, b - a);
        assert(t.take(b - a) =~= v@.subrange(a as int, b as int));
        let u = v@.subrange(a as int, b as int);
        if u.len() > 0 {
            assert(u.last() == v@[b - 1]);
        }
    }
    (a, b)
}

/// Bounds `(a, b)` of the trimmed part of `v[lo..hi]`.
pub fn trim_bounds(v: &Vec<char>, lo: usize, hi: usize) -> (r: (usize, usize))
    requires
        lo <= hi <= v.len(),
    ensures
        lo <= r.0 <= r.1 <= hi,
        v@.subrange(r.0 as int, r.1 as int) == trim(v@.subrange(lo as int, hi as int)),
{
    strip_bounds(v, lo, hi, Pattern::Space)
}

/// `t` occurs in `s` at position `i`.
pub open spec fn occurs_at(s: Seq<char>, t: Seq<char>, i: int) -> bool {
    0 <= i && i + t.len() <= s.len() && s.subrange(i, i + t.len()) == t
}

/// `str::contains` with a string pattern.
pub open spec fn has_infix(s: Seq<char>, t: Seq<char>) -> bool {
    exists|i: int| occurs_at(s, t, i)
}

fn matches_at(s: &Vec<char>, t: &Vec<char>, i: usize) -> (b: bool)
    requires
        i + t.len() <= s.len(),
    ensures
        b == occurs_at(s@, t@, i as int),
{
    let mut j: usize = 0;
    while j < t.len()
        invariant
            i + t.len() <= s.len(),
            j <= t.len(),
            forall|k: int| 0 <= k < j ==> s@[i + k] == t@[k],
        decreases t.len() - j,
    {
        if s[i + j] != t[j] {
            assert(s@.subrange(i as int, i + t.len())[j as int] != t@[j as int]);
            return false;
        }
        j = j + 1;
    }
    assert(s@.subrange(i as int, i + t.len()) =~= t@);
    true
}

/// Whether `t` occurs in `s`.
pub fn contains_chars(s: &Vec<char>, t: &Vec<char>) -> (b: bool)
    ensures
        b == has_infix(s@, t@),
{
    if t.len() > s.len() {
        return false;
    }
    let last = s.len() - t.len();
    let mut i: usize = 0;
    while i <= last
        invariant
            t.len() <= s.len(),
            last == s.len() - t.len(),
            i <= last + 1,
            forall|k: int| 0 <= k < i ==> !occurs_at(s@, t@, k),
        decreases last + 1 - i,
    {
        if matches_at(s, t, i) {
            return true;
        }
        if i == last {
            return false;
        }
        i = i + 1;
    }
    false
}

/// Whether `t` occurs in `s` (a string literal in practice).
pub fn contains_str(s: &Vec<char>, t: &str) -> (b: bool)
    ensures
        b == has_infix(s@, t@),
{
    let tv = chars_of(t);
    contains_chars(s, &tv)
}


/// What a search looks for: one character, or either sign character (`+`, `-`).
pub enum Pattern {
    One(char),
    Sign,
    Space,
    Quote,
}

pub open spec fn pattern_matches(p: Pattern, c: char) -> bool {
    match p {
        Pattern::One(d) => c == d,
        Pattern::Sign => c == '+' || c == '-',
        Pattern::Space => is_space(c),
        Pattern::Quote => c == '"' || c == '\'',
    }
}

/// `i` is the position of the first match of `p` in `s`.
pub open spec fn first_at(s: Seq<char>, p: Pattern, i: int) -> bool {
    &&& 0 <= i < s.len()
    &&& pattern_matches(p, s[i])
    &&& forall|j: int| 0 <= j < i ==> !pattern_matches(p, #[trigger] s[j])
}

/// `str::find`: the first position where `p` matches, if any.
pub open spec fn find(s: Seq<char>, p: Pattern) -> Option<int> {
    if exists|i: int| first_at(s, p, i) {
        Some(choose|i: int| first_at(s, p, i))
    } else {
        None
    }
}

pub proof fn lemma_find_some(s: Seq<char>, p: Pattern, i: int)
    requires
        first_at(s, p, i),
    ensures
        find(s, p) == Some(i),
{
    let k = choose|k: int| first_at(s, p, k);
    assert(first_at(s, p, k));
    if k < i {
        assert(!pattern_matches(p, s[k]));
    }
    if i < k {
        assert(!pattern_matches(p, s[i]));
    }
}

pub proof fn lemma_find_none(s: Seq<char>, p: Pattern)
    requires
        forall|j: int| 0 <= j < s.len() ==> !pattern_matches(p, #[trigger] s[j]),
    ensures
        find(s, p) is None,
{
}

pub proof fn lemma_find_result(s: Seq<char>, p: Pattern)
    ensures
        find(s, p) matches Some(i) ==> first_at(s, p, i),
        find(s, p) is None ==> forall|j: int| 0 <= j < s.len() ==> !pattern_matches(p, #[trigger] s[j]),
{
    if find(s, p) is None {
        assert forall|j: int| 0 <= j < s.len() implies !pattern_matches(p, #[trigger] s[j]) by {
            if pattern_matches(p, s[j]) {
                let k = first_match_upto(s, p, j);
                assert(first_at(s, p, k));
            }
        }
    }
}

proof fn first_match_upto(s: Seq<char>, p: Pattern, j: int) -> (k: int)
    requires
        0 <= j < s.len(),
        pattern_matches(p, s[j]),
    ensures
        first_at(s, p, k),
    decreases j,
{
    if exists|m: int| 0 <= m < j && pattern_matches(p, #[trigger] s[m]) {
        let m = choose|m: int| 0 <= m < j && pattern_matches(p, #[trigger] s[m]);
        first_match_upto(s, p, m)
    } else {
        j
    }
}

fn char_matches(p: &Pattern, c: char) -> (b: bool)
    ensures
        b == pattern_matches(*p, c),
{
    match p {
        Pattern::One(d) => c == *d,
        Pattern::Sign => c == '+' || c == '-',
        Pattern::Space => char_is_space(c),
        Pattern::Quote => c == '"' || c == '\'',
    }
}

/// The first match of `p` in `v[lo..hi]`, as a position in `v`.
pub fn find_in(v: &Vec<char>, lo: usize, hi: usize, p: Pattern) -> (r: Option<usize>)
    requires
        lo <= hi <= v.len(),
    ensures
        match r {
            Some(i) => lo <= i < hi && find(v@.subrange(lo as int, hi as int), p) == Some(i - lo),
            None => find(v@.subrange(lo as int, hi as int), p) is None,
        },
{
    let ghost s = v@.subrange(lo as int, hi as int);
    let mut i = lo;
    while i < hi
        invariant
            lo <= i <= hi <= v.len(),
            s == v@.subrange(lo as int, hi as int),
            forall|j: int| lo <= j < i ==> !pattern_matches(p, #[trigger] v@[j]),
        decreases hi - i,
    {
        if char_matches(&p, v[i]) {
            proof {
                assert forall|j: int| 0 <= j < i - lo implies !pattern_matches(p, #[trigger] s[j]) by {
                    assert(s[j] == v@[lo + j]);
                }
                lemma_find_some(s, p, i - lo);
            }
            return Some(i);
        }
        i = i + 1;
    }
    proof {
        assert forall|j: int| 0 <= j < s.len() implies !pattern_matches(p, #[trigger] s[j]) by {
            assert(s[j] == v@[lo + j]);
        }
        lemma_find_none(s, p);
    }
    None
}

/// A line with one trailing carriage return removed.
pub open spec fn strip_cr(s: Seq<char>) -> Seq<char> {
    if s.len() > 0 && s.last() == '\r' {
        s.drop_last()
    } else {
        s
    }
}

/// `str::lines`: the text split at `\n`, each line without its `\r\n` or `\n` ending;
/// a final line ending adds no empty line.
pub open spec fn lines(s: Seq<char>) -> Seq<Seq<char>>
    decreases s.len(),
{
    if s.len() == 0 {
        seq![]
    } else {
        match find(s, Pattern::One('\n')) {
            None => seq![s],
            Some(i) => {
                if 0 <= i < s.len() {
                    seq![strip_cr(s.take(i))] + lines(s.skip(i + 1))
                } else {
                    seq![]
                }
            },
        }
    }
}

/// The line ranges of `v`: `v[a..b]` for each `(a, b)` is one line.
pub fn line_ranges(v: &Vec<char>) -> (r: Vec<(usize, usize)>)
    ensures
        r@.len() == lines(v@).len(),
        forall|k: int|
            0 <= k < r@.len() ==> {
                &&& (#[trigger] r@[k]).0 <= r@[k].1 <= v.len()
                &&& v@.subrange(r@[k].0 as int, r@[k].1 as int) == lines(v@)[k]
            },
{
    let mut r: Vec<(usize, usize)> = Vec::new();
    let mut pos: usize = 0;
    let n = v.len();
    assert(v@.skip(0) =~= v@);
    while pos < n
        invariant
            n == v.len(),
            pos <= n,
            r@.len() + lines(v@.skip(pos as int)).len() == lines(v@).len(),
            forall|k: int|
                0 <= k < r@.len() ==> {
                    &&& (#[trigger] r@[k]).0 <= r@[k].1 <= v.len()
                    &&& v@.subrange(r@[k].0 as int, r@[k].1 as int) == lines(v@)[k]
                },
            forall|k: int|
                0 <= k < lines(v@.skip(pos as int)).len() ==> lines(v@)[r@.len() + k]
                    == #[trigger] lines(v@.skip(pos as int))[k],
        decreases n - pos,
    {
        let ghost rest = v@.skip(pos as int);
        assert(rest =~= v@.subrange(pos as int, n as int));
        match find_in(v, pos, n, Pattern::One('\n')) {
            Some(j) => {
                let mut end = j;
                if end > pos && v[end - 1] == '\r' {
                    end = end - 1;
                }
                proof {
                    lemma_find_result(rest, Pattern::One('\n'));
                    assert(rest.take(j - pos) =~= v@.subrange(pos as int, j as int));
                    assert(strip_cr(rest.take(j - pos)) =~= v@.subrange(pos as int, end as int));
                    assert(rest.skip(j - pos + 1) =~= v@.skip(j + 1));
                    assert(lines(rest) == seq![strip_cr(rest.take(j - pos))] + lines(
                        v@.skip(j + 1),
                    ));
                    assert(lines(rest)[0] == strip_cr(rest.take(j - pos)));
                    assert forall|k: int| 0 <= k < lines(v@.skip(j + 1)).len() implies lines(
                        v@,
                    )[r@.len() + 1 + k] == #[trigger] lines(v@.skip(j + 1))[k] by {
                        assert(lines(rest)[k + 1] == lines(v@.skip(j + 1))[k]);
                    }
                }
                r.push((pos, end));
                pos = j + 1;
            },
            None => {
                proof {
                    assert(lines(rest) == seq![rest]);
                    assert(lines(rest)[0] == rest);
                    assert(lines(v@)[r@.len() as int] == rest);
                    assert(v@.skip(n as int) =~= Seq::<char>::empty());
                }
                r.push((pos, n));
                pos = n;
            },
        }
    }
    proof {
        assert(v@.skip(pos as int) =~= Seq::<char>::empty());
    }
    r
}


pub open spec fn is_digit(c: char) -> bool {
    '0' <= c && c <= '9'
}

pub open spec fn digit_value(c: char) -> int {
    (c as u32) - ('0' as u32)
}

pub open spec fn all_digits(s: Seq<char>) -> bool {
    forall|i: int| 0 <= i < s.len() ==> is_digit(#[trigger] s[i])
}

/// The number that a string of decimal digits denotes.
pub open spec fn digits_value(s: Seq<char>) -> int
    decreases s.len(),
{
    if s.len() == 0 {
        0
    } else {
        digits_value(s.drop_last()) * 10 + digit_value(s.last())
    }
}

/// `str::parse::<i32>`: an optional `+` or `-`, then one or more decimal digits, with a
/// value in the range of `i32`.
pub open spec fn parse_i32(s: Seq<char>) -> Option<i32> {
    let negative = s.len() > 0 && s[0] == '-';
    let digits = if s.len() > 0 && (s[0] == '-' || s[0] == '+') {
        s.drop_first()
    } else {
        s
    };
    let value = if negative {
        -digits_value(digits)
    } else {
        digits_value(digits)
    };
    if digits.len() == 0 || !all_digits(digits) || value < i32::MIN || value > i32::MAX {
        None
    } else {
        Some(value as i32)
    }
}

proof fn lemma_digits_value_nonneg(s: Seq<char>)
    requires
        all_digits(s),
    ensures
        digits_value(s) >= 0,
    decreases s.len(),
{
    if s.len() > 0 {
        lemma_digits_value_nonneg(s.drop_last());
    }
}

proof fn lemma_digits_value_prefix(s: Seq<char>, k: int)
    requires
        all_digits(s),
        0 <= k <= s.len(),
    ensures
        digits_value(s.take(k)) <= digits_value(s),
    decreases s.len() - k,
{
    if k < s.len() {
        assert(s.drop_last().take(k) =~= s.take(k));
        lemma_digits_value_prefix(s.drop_last(), k);
        lemma_digits_value_nonneg(s.drop_last());
    } else {
        assert(s.take(k) =~= s);
    }
}

/// Parses `v[lo..hi]` as `str::parse::<i32>` does.
pub fn parse_i32_in(v: &Vec<char>, lo: usize, hi: usize) -> (r: Option<i32>)
    requires
        lo <= hi <= v.len(),
    ensures
        r == parse_i32(v@.subrange(lo as int, hi as int)),
{
    let ghost s = v@.subrange(lo as int, hi as int);
    let mut start = lo;
    let mut negative = false;
    if lo < hi && (v[lo] == '-' || v[lo] == '+') {
        negative = v[lo] == '-';
        start = lo + 1;
    }
    let ghost digits = v@.subrange(start as int, hi as int);
    assert(s.len() > 0 && (s[0] == '-' || s[0] == '+') ==> s.drop_first() =~= digits);
    assert(!(s.len() > 0 && (s[0] == '-' || s[0] == '+')) ==> s =~= digits);
    if start == hi {
        return None;
    }
    let limit: i64 = if negative { 2147483648 } else { 2147483647 };
    let mut acc: i64 = 0;
    let mut i = start;
    while i < hi
        invariant
            lo <= start <= i <= hi <= v.len(),
            digits == v@.subrange(start as int, hi as int),
            s == v@.subrange(lo as int, hi as int),
            s.len() > 0 && (s[0] == '-' || s[0] == '+') ==> s.drop_first() == digits,
            !(s.len() > 0 && (s[0] == '-' || s[0] == '+')) ==> s == digits,
            negative == (s.len() > 0 && s[0] == '-'),
            digits.len() > 0,
            limit == (if negative { 2147483648i64 } else { 2147483647i64 }),
            0 <= acc <= limit,
            all_digits(digits.take(i - start)),
            acc == digits_value(digits.take(i - start)),
        decreases hi - i,
    {
        let c = v[i];
        if !('0' <= c && c <= '9') {
            assert(digits[i - start] == c);
            return None;
        }
        let d = ((c as u32) - ('0' as u32)) as i64;
        proof {
            let t = digits.take(i - start + 1);
            assert(t.drop_last() =~= digits.take(i - start));
            assert(t.last() == c);
        }
        if acc > (limit - d) / 10 {
            proof {
                let t = digits.take(i - start + 1);
                assert(digits_value(t) > limit) by (nonlinear_arith)
                    requires
                        digits_value(t) == acc * 10 + d,
                        acc > (limit - d) / 10,
                        0 <= d <= 9,
                        limit > 0,
                ;
                if all_digits(digits) {
                    lemma_digits_value_prefix(digits, i - start + 1);
                }
            }
            return None;
        }
        proof {
            assert(acc * 10 + d <= limit) by (nonlinear_arith)
                requires
                    acc <= (limit - d) / 10,
                    0 <= d <= 9,
                    limit > 0,
                    acc >= 0,
            ;
        }
        acc = acc * 10 + d;
        i = i + 1;
    }
    assert(digits.take(i - start) =~= digits);
    if negative {
        Some((-acc) as i32)
    } else {
        Some(acc as i32)
    }
}


/// `str::split_whitespace`: the maximal runs of non-white-space characters.
pub open spec fn tokens(s: Seq<char>) -> Seq<Seq<char>>
    decreases s.len(),
{
    if s.len() == 0 {
        seq![]
    } else if is_space(s[0]) {
        tokens(s.drop_first())
    } else {
        match find(s, Pattern::Space) {
            None => seq![s],
            Some(k) => {
                if 0 < k <= s.len() {
                    seq![s.take(k)] + tokens(s.skip(k))
                } else {
                    seq![]
                }
            },
        }
    }
}

/// The token ranges of `v[lo..hi]`.
pub fn token_ranges(v: &Vec<char>, lo: usize, hi: usize) -> (r: Vec<(usize, usize)>)
    requires
        lo <= hi <= v.len(),
    ensures
        r@.len() == tokens(v@.subrange(lo as int, hi as int)).len(),
        forall|k: int|
            0 <= k < r@.len() ==> {
                &&& lo <= (#[trigger] r@[k]).0 <= r@[k].1 <= hi
                &&& v@.subrange(r@[k].0 as int, r@[k].1 as int) == tokens(
                    v@.subrange(lo as int, hi as int),
                )[k]
            },
{
    let ghost all = tokens(v@.subrange(lo as int, hi as int));
    let mut r: Vec<(usize, usize)> = Vec::new();
    let mut pos: usize = lo;
    while pos < hi
        invariant
            lo <= pos <= hi <= v.len(),
            all == tokens(v@.subrange(lo as int, hi as int)),
            r@.len() + tokens(v@.subrange(pos as int, hi as int)).len() == all.len(),
            forall|k: int|
                0 <= k < r@.len() ==> {
                    &&& lo <= (#[trigger] r@[k]).0 <= r@[k].1 <= hi
                    &&& v@.subrange(r@[k].0 as int, r@[k].1 as int) == all[k]
                },
            forall|k: int|
                0 <= k < tokens(v@.subrange(pos as int, hi as int)).len() ==> all[r@.len() + k]
                    == #[trigger] tokens(v@.subrange(pos as int, hi as int))[k],
        decreases hi - pos,
    {
        let ghost rest = v@.subrange(pos as int, hi as int);
        if char_is_space(v[pos]) {
            proof {
                assert(rest.drop_first() =~= v@.subrange(pos + 1, hi as int));
                assert(tokens(rest) == tokens(v@.subrange(pos + 1, hi as int)));
            }
            pos = pos + 1;
        } else {
            match find_in(v, pos, hi, Pattern::Space) {
                Some(j) => {
                    proof {
                        lemma_find_result(rest, Pattern::Space);
                        assert(j - pos > 0);
                        assert(rest.take(j - pos) =~= v@.subrange(pos as int, j as int));
                        assert(rest.skip(j - pos) =~= v@.subrange(j as int, hi as int));
                        assert(tokens(rest) == seq![rest.take(j - pos)] + tokens(
                            v@.subrange(j as int, hi as int),
                        ));
                        assert(tokens(rest)[0] == rest.take(j - pos));
                        assert forall|k: int|
                            0 <= k < tokens(
                                v@.subrange(j as int, hi as int),
                            ).len() implies all[r@.len() + 1 + k] == #[trigger] tokens(
                            v@.subrange(j as int, hi as int),
                        )[k] by {
                            assert(tokens(rest)[k + 1] == tokens(v@.subrange(j as int, hi as int))[k]);
                        }
                    }
                    r.push((pos, j));
                    pos = j;
                },
                None => {
                    proof {
                        assert(tokens(rest) == seq![rest]);
                        assert(tokens(rest)[0] == rest);
                        assert(v@.subrange(hi as int, hi as int) =~= Seq::<char>::empty());
                    }
                    r.push((pos, hi));
                    pos = hi;
                },
            }
        }
    }
    proof {
        assert(v@.subrange(pos as int, hi as int) =~= Seq::<char>::empty());
    }
    r
}


/// `s.trim().to_string()`.
pub fn trimmed(s: &str) -> (r: String)
    ensures
        r@ == trim(s@),
{
    let v = chars_of(s);
    let (a, b) = trim_bounds(&v, 0, v.len());
    assert(v@.subrange(0, v@.len() as int) =~= v@);
    s.substring_char(a, b).to_owned()
}

/// Whether two strings hold the same characters.
pub fn same_text(a: &str, b: &str) -> (r: bool)
    ensures
        r == (a@ == b@),
{
    let av = chars_of(a);
    let bv = chars_of(b);
    if av.len() != bv.len() {
        return false;
    }
    let mut i: usize = 0;
    while i < av.len()
        invariant
            av@ == a@,
            bv@ == b@,
            av@.len() == bv@.len(),
            i <= av.len(),
            forall|j: int| 0 <= j < i ==> av@[j] == bv@[j],
        decreases av.len() - i,
    {
        if av[i] != bv[i] {
            assert(av@[i as int] != bv@[i as int]);
            return false;
        }
        i = i + 1;
    }
    assert(av@ =~= bv@);
    true
}


/// Calls `String::push`, which appends one character.
#[verifier::external_body]
pub fn push_char(s: &mut String, c: char)
    ensures
        final(s)@ == old(s)@.push(c),
{
    s.push(c);
}

/// A `String` holding the characters of `v[lo..hi]`.
pub fn string_of(v: &Vec<char>, lo: usize, hi: usize) -> (r: String)
    requires
        lo <= hi <= v.len(),
    ensures
        r@ == v@.subrange(lo as int, hi as int),
{
    let mut r = String::new();
    let mut i = lo;
    while i < hi
        invariant
            lo <= i <= hi <= v.len(),
            r@ == v@.subrange(lo as int, i as int),
        decreases hi - i,
    {
        push_char(&mut r, v[i]);
        assert(v@.subrange(lo as int, i + 1) =~= v@.subrange(lo as int, i as int).push(v@[i as int]));
        i = i + 1;
    }
    r
}

/// Whether `v[a..b]` holds the characters of `s`.
pub fn same_range(v: &Vec<char>, a: usize, b: usize, s: &str) -> (r: bool)
    requires
        a <= b <= v.len(),
    ensures
        r == (v@.subrange(a as int, b as int) == s@),
{
    let w = chars_of(s);
    if b - a != w.len() {
        return false;
    }
    let mut i: usize = 0;
    while i < w.len()
        invariant
            a <= b <= v.len(),
            b - a == w@.len(),
            w@ == s@,
            i <= w.len(),
            forall|j: int| 0 <= j < i ==> v@[a + j] == w@[j],
        decreases w.len() - i,
    {
        if v[a + i] != w[i] {
            assert(v@.subrange(a as int, b as int)[i as int] != w@[i as int]);
            return false;
        }
        i = i + 1;
    }
    assert(v@.subrange(a as int, b as int) =~= w@);
    true
}

/// The digit that stands for `d`, below ten.
pub open spec fn digit_char(d: nat) -> char {
    if d == 0 {
        '0'
    } else if d == 1 {
        '1'
    } else if d == 2 {
        '2'
    } else if d == 3 {
        '3'
    } else if d == 4 {
        '4'
    } else if d == 5 {
        '5'
    } else if d == 6 {
        '6'
    } else if d == 7 {
        '7'
    } else if d == 8 {
        '8'
    } else {
        '9'
    }
}

/// How `{}` writes a natural number: its decimal digits, with no leading zero.
pub open spec fn decimal(n: nat) -> Seq<char>
    decreases n,
{
    if n < 10 {
        seq![digit_char(n)]
    } else {
        decimal(n / 10).push(digit_char(n % 10))
    }
}

/// How `{:+}` writes an integer: its sign, `+` for zero too, then its decimal digits.
pub open spec fn signed_decimal(v: int) -> Seq<char> {
    if v < 0 {
        seq!['-'] + decimal((-v) as nat)
    } else {
        seq!['+'] + decimal(v as nat)
    }
}

/// No character of `s` matches `p`.
pub open spec fn no_match(s: Seq<char>, p: Pattern) -> bool {
    forall|j: int| 0 <= j < s.len() ==> !pattern_matches(p, #[trigger] s[j])
}

proof fn lemma_digit_char(d: nat)
    requires
        d < 10,
    ensures
        is_digit(digit_char(d)),
        digit_value(digit_char(d)) == d,
{
}

pub proof fn lemma_decimal(n: nat)
    ensures
        decimal(n).len() >= 1,
        all_digits(decimal(n)),
        digits_value(decimal(n)) == n,
    decreases n,
{
    if n < 10 {
        lemma_digit_char(n);
        assert(decimal(n).drop_last() =~= Seq::<char>::empty());
        assert(digits_value(decimal(n)) == digits_value(decimal(n).drop_last()) * 10 + digit_value(decimal(n).last()));
    } else {
        lemma_decimal(n / 10);
        lemma_digit_char(n % 10);
        let d = decimal(n);
        assert(d.drop_last() =~= decimal(n / 10));
        assert(d.last() == digit_char(n % 10));
        assert((n / 10) * 10 + n % 10 == n);
        assert(digits_value(d) == digits_value(d.drop_last()) * 10 + digit_value(d.last()));
        assert(digits_value(d.drop_last()) == n / 10);
        assert(all_digits(d)) by {
            assert forall|i: int| 0 <= i < d.len() implies is_digit(#[trigger] d[i]) by {
                if i < d.len() - 1 {
                    assert(d[i] == decimal(n / 10)[i]);
                }
            }
        }
    }
}

pub proof fn lemma_digits_match_nothing(s: Seq<char>)
    requires
        all_digits(s),
    ensures
        no_match(s, Pattern::One('x')),
        no_match(s, Pattern::One('/')),
        no_match(s, Pattern::Sign),
{
    assert forall|j: int| 0 <= j < s.len() implies !pattern_matches(Pattern::Sign, #[trigger] s[j])
        && s[j] != 'x' && s[j] != '/' by {
        assert(is_digit(s[j]));
    }
}

pub proof fn lemma_no_match_concat(a: Seq<char>, b: Seq<char>, p: Pattern)
    requires
        no_match(a, p),
        no_match(b, p),
    ensures
        no_match(a + b, p),
{
    assert forall|j: int| 0 <= j < (a + b).len() implies !pattern_matches(p, #[trigger] (a + b)[j]) by {
        if j < a.len() {
            assert((a + b)[j] == a[j]);
        } else {
            assert((a + b)[j] == b[j - a.len()]);
        }
    }
}

/// The first match in `a + b` is the first character of `b` where `a` holds no match.
pub proof fn lemma_find_after(a: Seq<char>, b: Seq<char>, p: Pattern)
    requires
        no_match(a, p),
        b.len() > 0,
        pattern_matches(p, b[0]),
    ensures
        find(a + b, p) == Some(a.len() as int),
{
    let s = a + b;
    assert(s[a.len() as int] == b[0]);
    assert forall|j: int| 0 <= j < a.len() implies !pattern_matches(p, #[trigger] s[j]) by {
        assert(s[j] == a[j]);
    }
    lemma_find_some(s, p, a.len() as int);
}

/// `str::parse::<i32>` reads back what `{}` wrote.
pub proof fn lemma_parse_decimal(n: nat)
    requires
        n <= i32::MAX,
    ensures
        parse_i32(decimal(n)) == Some(n as i32),
{
    lemma_decimal(n);
    assert(is_digit(decimal(n)[0]));
}

/// `str::parse::<i32>` reads back what `{:+}` wrote.
pub proof fn lemma_parse_signed_decimal(v: int)
    requires
        i32::MIN <= v <= i32::MAX,
    ensures
        parse_i32(signed_decimal(v)) == Some(v as i32),
        signed_decimal(v).len() == 1 + decimal(if v < 0 { (-v) as nat } else { v as nat }).len(),
        pattern_matches(Pattern::Sign, signed_decimal(v)[0]),
        signed_decimal(v).drop_first() == decimal(if v < 0 { (-v) as nat } else { v as nat }),
{
    let n: nat = if v < 0 { (-v) as nat } else { v as nat };
    lemma_decimal(n);
    assert(signed_decimal(v).drop_first() =~= decimal(n));
}

} // verus!
