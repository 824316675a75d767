//! Typed values of the fields of a CPU descriptor block.
use crate::descriptor::{PairView, pairs_view};
use crate::text::{
    bounds_within, chars_of, digits_u64, find_char, find_first, parse_digits,
    parse_u64, parse_u64_at, pieces, range_is, split_words, string_of, trim, trim_bounds, words,
};
use vstd::prelude::*;

verus! {

broadcast use vstd::string::group_string_axioms;

/// The value of the last pair of `b` whose key is `key`: a later duplicate wins.
pub open spec fn field_value(b: Seq<PairView>, key: Seq<char>) -> Option<Seq<char>>
    decreases b.len(),
{
    if b.len() == 0 {
        None
    } else if b.last().0 == key {
        Some(b.last().1)
    } else {
        field_value(b.drop_last(), key)
    }
}

/// A non-negative decimal number as written: `whole` before the point, and
/// `frac` written with `frac_digits` digits after it. Its value is
/// `whole + frac / 10^frac_digits`.
#[derive(Clone, Copy, Debug, PartialEq, Eq, Structural)]
pub struct Decimal {
    pub whole: u64,
    pub frac: u64,
    pub frac_digits: u64,
}

/// Digits with an optional point: `D`, `D.`, `.D` or `D.D`, with at least one
/// digit in all, and each run of digits within `u64`.
pub open spec fn decimal_of(v: Seq<char>) -> Option<Decimal> {
    match find_first(v, '.') {
        None => match digits_u64(v) {
            Some(w) => Some(Decimal { whole: w, frac: 0, frac_digits: 0 }),
            None => None,
        },
        Some(k) => {
            let i = v.subrange(0, k);
            let f = v.subrange(k + 1, v.len() as int);
            let wi = if i.len() == 0 { Some(0u64) } else { digits_u64(i) };
            let fi = if f.len() == 0 { Some(0u64) } else { digits_u64(f) };
            if i.len() + f.len() == 0 || f.len() > u64::MAX {
                None
            } else {
                match (wi, fi) {
                    (Some(w), Some(x)) => Some(Decimal { whole: w, frac: x, frac_digits: f.len() as u64 }),
                    _ => None,
                }
            }
        },
    }
}

/// `yes` and `no`.
pub open spec fn flag_of(v: Seq<char>) -> Option<bool> {
    if v == "yes"@ {
        Some(true)
    } else if v == "no"@ {
        Some(false)
    } else {
        None
    }
}

/// A cache size such as `8192 KB`: the number in its first word.
pub open spec fn cache_size_of(v: Seq<char>) -> Option<u64> {
    if words(v).len() > 0 {
        parse_u64(words(v)[0])
    } else {
        None
    }
}

/// `s` without the ending `suffix`, if it ends so.
pub open spec fn strip_suffix(s: Seq<char>, suffix: Seq<char>) -> Option<Seq<char>> {
    if s.len() >= suffix.len() && s.subrange(s.len() - suffix.len(), s.len() as int) == suffix {
        Some(s.subrange(0, s.len() - suffix.len()))
    } else {
        None
    }
}

/// `<N> bits physical, <M> bits virtual`: exactly one comma, each side trimmed.
pub open spec fn address_sizes_of(v: Seq<char>) -> Option<(u64, u64)> {
    match find_first(v, ',') {
        None => None,
        Some(k) => {
            let rest = v.subrange(k + 1, v.len() as int);
            if find_first(rest, ',') is Some {
                None
            } else {
                match (
                    strip_suffix(trim(v.subrange(0, k)), " bits physical"@),
                    strip_suffix(trim(rest), " bits virtual"@),
                ) {
                    (Some(a), Some(b)) => match (parse_u64(a), parse_u64(b)) {
                        (Some(x), Some(y)) => Some((x, y)),
                        _ => None,
                    },
                    _ => None,
                }
            }
        },
    }
}

pub open spec fn strings_view(v: Seq<String>) -> Seq<Seq<char>> {
    v.map_values(|s: String| s@)
}

/// Position of the pair that gives `key` its value in `b`.
pub fn find_field(b: &Vec<(String, String)>, key: &str) -> (r: Option<usize>)
    ensures
        match r {
            Some(i) => i < b.len() && field_value(pairs_view(b@), key@) == Some(b@[i as int].1@),
            None => field_value(pairs_view(b@), key@) is None,
        },
{
    let mut i: usize = b.len();
    assert(pairs_view(b@).subrange(0, b.len() as int) == pairs_view(b@));
    while i > 0
        invariant
            i <= b.len(),
            field_value(pairs_view(b@), key@) == field_value(pairs_view(b@).subrange(0, i as int), key@),
        decreases i,
    {
        assert(pairs_view(b@).subrange(0, i as int).drop_last() == pairs_view(b@).subrange(0, i - 1));
        if crate::text::same_text(b[i - 1].0.as_str(), key) {
            return Some(i - 1);
        }
        i = i - 1;
    }
    None
}

/// `yes` or `no` as a flag.
pub fn parse_yes_no(value: &str) -> (r: Option<bool>)
    ensures
        r == flag_of(value@),
{
    let v = chars_of(value);
    if range_is(&v, 0, v.len(), "yes") {
        assert(v@.subrange(0, v.len() as int) == v@);
        Some(true)
    } else if range_is(&v, 0, v.len(), "no") {
        assert(v@.subrange(0, v.len() as int) == v@);
        Some(false)
    } else {
        assert(v@.subrange(0, v.len() as int) == v@);
        None
    }
}

/// A decimal number such as a frequency in MHz.
pub fn parse_decimal(value: &str) -> (r: Option<Decimal>)
    ensures
        r == decimal_of(value@),
{
    let v = chars_of(value);
    let n = v.len();
    match find_char(&v, 0, n, '.') {
        None => {
            assert(v@.subrange(0, n as int) == v@);
            match parse_digits(&v, 0, n) {
                Some(w) => Some(Decimal { whole: w, frac: 0, frac_digits: 0 }),
                None => None,
            }
        },
        Some(k) => {
            assert(v@.subrange(0, n as int) == v@);
            if k == 0 && k + 1 == n {
                return None;
            }
            let w = if k == 0 {
                Some(0u64)
            } else {
                parse_digits(&v, 0, k)
            };
            let x = if k + 1 == n {
                Some(0u64)
            } else {
                parse_digits(&v, k + 1, n)
            };
            match (w, x) {
                (Some(w), Some(x)) => Some(Decimal { whole: w, frac: x, frac_digits: (n - k - 1) as u64 }),
                _ => None,
            }
        },
    }
}

/// The number in the first word of a cache size.
pub fn parse_cache_size(value: &str) -> (r: Option<u64>)
    ensures
        r == cache_size_of(value@),
{
    let v = chars_of(value);
    let ws = split_words(&v, 0, v.len());
    assert(v@.subrange(0, v.len() as int) == v@);
    if ws.len() == 0 {
        return None;
    }
    let (x, y) = ws[0];
    assert(pieces(v@, ws@)[0] == v@.subrange(x as int, y as int));
    parse_u64_at(&v, x, y)
}

/// Whether `v[lo..hi]` ends with `suffix`; if so, where the rest ends.
fn strip_suffix_at(v: &Vec<char>, lo: usize, hi: usize, suffix: &str) -> (r: Option<usize>)
    requires
        lo <= hi <= v.len(),
    ensures
        match r {
            Some(e) => lo <= e <= hi && strip_suffix(v@.subrange(lo as int, hi as int), suffix@)
                == Some(v@.subrange(lo as int, e as int)),
            None => strip_suffix(v@.subrange(lo as int, hi as int), suffix@) is None,
        },
{
    let s = chars_of(suffix);
    let ghost t = v@.subrange(lo as int, hi as int);
    if hi - lo < s.len() {
        return None;
    }
    let e = hi - s.len();
    assert(t.subrange(t.len() - s@.len(), t.len() as int) == v@.subrange(e as int, hi as int));
    assert(t.subrange(0, t.len() - s@.len()) == v@.subrange(lo as int, e as int));
    if range_is(v, e, hi, suffix) {
        Some(e)
    } else {
        None
    }
}

/// `<N> bits physical, <M> bits virtual` as the pair `(N, M)`.
pub fn parse_address_sizes(value: &str) -> (r: Option<(u64, u64)>)
    ensures
        r == address_sizes_of(value@),
{
    let v = chars_of(value);
    let n = v.len();
    assert(v@.subrange(0, n as int) == v@);
    let k = match find_char(&v, 0, n, ',') {
        Some(k) => k,
        None => {
            return None;
        },
    };
    assert(v@.subrange(k + 1, n as int) == v@.subrange(k + 1, n as int));
    match find_char(&v, k + 1, n, ',') {
        Some(_) => {
            return None;
        },
        None => {},
    }
    let (a0, a1) = trim_bounds(&v, 0, k);
    let (b0, b1) = trim_bounds(&v, k + 1, n);
    let pe = match strip_suffix_at(&v, a0, a1, " bits physical") {
        Some(e) => e,
        None => {
            return None;
        },
    };
    let ve = match strip_suffix_at(&v, b0, b1, " bits virtual") {
        Some(e) => e,
        None => {
            return None;
        },
    };
    match (parse_u64_at(&v, a0, pe), parse_u64_at(&v, b0, ve)) {
        (Some(x), Some(y)) => Some((x, y)),
        _ => None,
    }
}

/// The white-space separated words of a list field.
pub fn parse_words(value: &str) -> (r: Vec<String>)
    ensures
        strings_view(r@) == words(value@),
{
    let v = chars_of(value);
    let ws = split_words(&v, 0, v.len());
    assert(v@.subrange(0, v.len() as int) == v@);
    let mut out: Vec<String> = Vec::new();
    let mut j: usize = 0;
    while j < ws.len()
        invariant
            bounds_within(ws@, 0, v.len() as int),
            j <= ws.len(),
            strings_view(out@) == pieces(v@, ws@).subrange(0, j as int),
        decreases ws.len() - j,
    {
        let (x, y) = ws[j];
        let s = string_of(&v, x, y);
        let ghost before = out@;
        out.push(s);
        assert(strings_view(out@) =~= strings_view(before).push(out@.last()@));
        assert(pieces(v@, ws@)[j as int] == v@.subrange(x as int, y as int));
        assert(strings_view(out@) =~= pieces(v@, ws@).subrange(0, j + 1));
        j = j + 1;
    }
    assert(pieces(v@, ws@).subrange(0, j as int) == pieces(v@, ws@));
    out
}

} // verus!
