//! Reading a named cookie out of `Cookie` request headers.

use vstd::prelude::*;

verus! {

/// Unicode white space, as `char::is_whitespace` knows it.
pub open spec fn is_space(c: char) -> bool {
    let u = c as u32;
    (0x9 <= u && u <= 0xd) || u == 0x20 || u == 0x85 || u == 0xa0 || u == 0x1680 || (0x2000 <= u
        && u <= 0x200a) || u == 0x2028 || u == 0x2029 || u == 0x202f || u == 0x205f || u == 0x3000
}

/// First index in `[i, end)` at which `h` holds `c`, or `end`.
pub open spec fn scan_for(h: Seq<char>, i: int, end: int, c: char) -> int
    decreases end - i,
{
    if i >= end {
        end
    } else if h[i] == c {
        i
    } else {
        scan_for(h, i + 1, end, c)
    }
}

/// First index in `[i, end)` that holds no white space, or `end`.
pub open spec fn skip_space(h: Seq<char>, i: int, end: int) -> int
    decreases end - i,
{
    if i >= end {
        end
    } else if !is_space(h[i]) {
        i
    } else {
        skip_space(h, i + 1, end)
    }
}

/// The end of `h[lo..j)` once trailing white space is cut off.
pub open spec fn cut_space(h: Seq<char>, lo: int, j: int) -> int
    decreases j - lo,
{
    if j <= lo {
        lo
    } else if !is_space(h[j - 1]) {
        j
    } else {
        cut_space(h, lo, j - 1)
    }
}

/// Whether `h[a..b)` starts with `name` followed by `=`.
pub open spec fn names(h: Seq<char>, a: int, b: int, name: Seq<char>) -> bool {
    &&& b - a > name.len()
    &&& h.subrange(a, a + name.len()) == name
    &&& h[a + name.len()] == '='
}

/// The value of the trimmed piece `h[a..b)`: what lies between its first
/// `=` and the next one (or the end).
pub open spec fn piece_value(h: Seq<char>, a: int, b: int) -> Seq<char> {
    let eq = scan_for(h, a, b, '=');
    h.subrange(eq + 1, scan_for(h, eq + 1, b, '='))
}

/// The value of the first `;`-separated piece of `h`, from index `from` on,
/// that names `name` once trimmed.
pub open spec fn value_in(h: Seq<char>, name: Seq<char>, from: int) -> Option<Seq<char>>
    decreases h.len() - from + 1
    via value_in_decreases
{
    if from > h.len() || from < 0 {
        None
    } else {
        let e = scan_for(h, from, h.len() as int, ';');
        let a = skip_space(h, from, e);
        let b = cut_space(h, a, e);
        if names(h, a, b, name) {
            Some(piece_value(h, a, b))
        } else {
            value_in(h, name, e + 1)
        }
    }
}

/// The value of cookie `name` in the first of `headers` that carries it.
pub open spec fn cookie_value(headers: Seq<String>, name: Seq<char>) -> Option<Seq<char>>
    decreases headers.len(),
{
    if headers.len() == 0 {
        None
    } else if value_in(headers[0]@, name, 0) is Some {
        value_in(headers[0]@, name, 0)
    } else {
        cookie_value(headers.drop_first(), name)
    }
}

proof fn lemma_scan_for_bounds(h: Seq<char>, i: int, end: int, c: char)
    requires
        i <= end,
    ensures
        i <= scan_for(h, i, end, c) <= end,
    decreases end - i,
{
    if i < end {
        lemma_scan_for_bounds(h, i + 1, end, c);
    }
}

#[via_fn]
proof fn value_in_decreases(h: Seq<char>, name: Seq<char>, from: int) {
    if 0 <= from <= h.len() {
        lemma_scan_for_bounds(h, from, h.len() as int, ';');
    }
}

proof fn lemma_scan_for_hit(h: Seq<char>, i: int, end: int, c: char, k: int)
    requires
        i <= k < end,
        h[k] == c,
    ensures
        scan_for(h, i, end, c) <= k,
    decreases end - i,
{
    if i < k {
        lemma_scan_for_hit(h, i + 1, end, c, k);
    }
}

proof fn lemma_skip_space_bounds(h: Seq<char>, i: int, end: int)
    requires
        i <= end,
    ensures
        i <= skip_space(h, i, end) <= end,
    decreases end - i,
{
    if i < end {
        lemma_skip_space_bounds(h, i + 1, end);
    }
}

proof fn lemma_cut_space_bounds(h: Seq<char>, lo: int, j: int)
    requires
        lo <= j,
    ensures
        lo <= cut_space(h, lo, j) <= j,
    decreases j - lo,
{
    if lo < j {
        lemma_cut_space_bounds(h, lo, j - 1);
    }
}

fn space(c: char) -> (r: bool)
    ensures
        r == is_space(c),
{
    let u = c as u32;
    (0x9 <= u && u <= 0xd) || u == 0x20 || u == 0x85 || u == 0xa0 || u == 0x1680 || (0x2000 <= u
        && u <= 0x200a) || u == 0x2028 || u == 0x2029 || u == 0x202f || u == 0x205f || u == 0x3000
}

fn find_char(h: &str, i: usize, end: usize, c: char) -> (r: usize)
    requires
        i <= end <= h@.len(),
    ensures
        r == scan_for(h@, i as int, end as int, c),
{
    let mut k = i;
    while k < end
        invariant
            i <= k <= end <= h@.len(),
            scan_for(h@, i as int, end as int, c) == scan_for(h@, k as int, end as int, c),
        decreases end - k,
    {
        if h.get_char(k) == c {
            return k;
        }
        k = k + 1;
    }
    k
}

fn skip_spaces(h: &str, i: usize, end: usize) -> (r: usize)
    requires
        i <= end <= h@.len(),
    ensures
        r == skip_space(h@, i as int, end as int),
{
    let mut k = i;
    while k < end
        invariant
            i <= k <= end <= h@.len(),
            skip_space(h@, i as int, end as int) == skip_space(h@, k as int, end as int),
        decreases end - k,
    {
        if !space(h.get_char(k)) {
            return k;
        }
        k = k + 1;
    }
    k
}

fn cut_spaces(h: &str, lo: usize, j: usize) -> (r: usize)
    requires
        lo <= j <= h@.len(),
    ensures
        r == cut_space(h@, lo as int, j as int),
{
    let mut k = j;
    while k > lo
        invariant
            lo <= k <= j <= h@.len(),
            cut_space(h@, lo as int, j as int) == cut_space(h@, lo as int, k as int),
        decreases k - lo,
    {
        if !space(h.get_char(k - 1)) {
            return k;
        }
        k = k - 1;
    }
    k
}

fn starts_with_name(h: &str, a: usize, b: usize, name: &str) -> (r: bool)
    requires
        a <= b <= h@.len(),
    ensures
        r == names(h@, a as int, b as int, name@),
{
    let n = name.unicode_len();
    if b - a <= n {
        return false;
    }
    let mut k: usize = 0;
    while k < n
        invariant
            n == name@.len(),
            a + n < b <= h@.len(),
            0 <= k <= n,
            forall|j: int| 0 <= j < k ==> h@[a + j] == name@[j],
        decreases n - k,
    {
        if h.get_char(a + k) != name.get_char(k) {
            assert(h@.subrange(a as int, a + n)[k as int] != name@[k as int]);
            return false;
        }
        k = k + 1;
    }
    assert(h@.subrange(a as int, a + n) =~= name@);
    h.get_char(a + n) == '='
}

/// The value of cookie `name` within one `Cookie` header value.
fn value_in_header(h: &str, name: &str) -> (r: Option<String>)
    ensures
        r is Some <==> value_in(h@, name@, 0) is Some,
        r matches Some(v) ==> v@ == value_in(h@, name@, 0)->0,
{
    let len = h.unicode_len();
    let mut from: usize = 0;
    while from <= len
        invariant
            len == h@.len(),
            0 <= from,
            value_in(h@, name@, 0) == value_in(h@, name@, from as int),
        decreases len + 1 - from,
    {
        let e = find_char(h, from, len, ';');
        proof {
            lemma_scan_for_bounds(h@, from as int, len as int, ';');
        }
        let a = skip_spaces(h, from, e);
        proof {
            lemma_skip_space_bounds(h@, from as int, e as int);
        }
        let b = cut_spaces(h, a, e);
        proof {
            lemma_cut_space_bounds(h@, a as int, e as int);
        }
        if starts_with_name(h, a, b, name) {
            let eq = find_char(h, a, b, '=');
            proof {
                lemma_scan_for_bounds(h@, a as int, b as int, '=');
                lemma_scan_for_hit(h@, a as int, b as int, '=', a + name@.len());
            }
            let stop = find_char(h, eq + 1, b, '=');
            proof {
                lemma_scan_for_bounds(h@, eq + 1, b as int, '=');
            }
            let v = h.substring_char(eq + 1, stop);
            return Some(v.to_string());
        }
        assert(value_in(h@, name@, from as int) == value_in(h@, name@, e + 1));
        if e == len {
            assert(value_in(h@, name@, len + 1) is None);
            return None;
        }
        from = e + 1;
    }
    None
}

/// The value of cookie `name`: the first `;`-separated piece, over the
/// `Cookie` header values in order, that starts with `name=` once trimmed
/// gives the text between its first `=` and the next one.
pub fn get_cookie(headers: &Vec<String>, name: &str) -> (r: Option<String>)
    ensures
        r is Some <==> cookie_value(headers@, name@) is Some,
        r matches Some(v) ==> v@ == cookie_value(headers@, name@)->0,
{
    let mut i: usize = 0;
    assert(headers@.subrange(0, headers@.len() as int) =~= headers@);
    while i < headers.len()
        invariant
            0 <= i <= headers@.len(),
            cookie_value(headers@, name@) == cookie_value(headers@.subrange(i as int, headers@.len() as int), name@),
        decreases headers@.len() - i,
    {
        let ghost rest = headers@.subrange(i as int, headers@.len() as int);
        assert(rest.drop_first() =~= headers@.subrange(i + 1, headers@.len() as int));
        assert(rest[0] == headers@[i as int]);
        match value_in_header(headers[i].as_str(), name) {
            Some(v) => {
                return Some(v);
            },
            None => {},
        }
        i = i + 1;
    }
    None
}

} // verus!
