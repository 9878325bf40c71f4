//! Resolving a redirect's `Location` against the URL that was requested.
//!
//! This follows the reference resolution of RFC 3986 (section 5.2.2, with
//! the merge of 5.2.3) for the forms a `Location` takes: an absolute URL is
//! taken as it is; `//host/...` keeps the current scheme; `/path` keeps the
//! current scheme and host; `?query` keeps the current path; `#fragment`
//! keeps all but the current fragment; an empty reference is the current URL
//! without its fragment; any other reference replaces the last segment of the
//! current path. Dot segments (`.`, `..`) are passed on as they are.

use vstd::prelude::*;
use crate::text::{chars_of, push_char, push_str, starts_with};

verus! {

/// An ASCII letter.
pub open spec fn is_alpha(c: char) -> bool {
    ('a' <= c && c <= 'z') || ('A' <= c && c <= 'Z')
}

/// A character that may follow the first one of a URL scheme.
pub open spec fn is_scheme_char(c: char) -> bool {
    is_alpha(c) || ('0' <= c && c <= '9') || c == '+' || c == '-' || c == '.'
}

/// The index of the first character at or after `i` that cannot be part of
/// a scheme (`s.len()` when there is none).
pub open spec fn scheme_run(s: Seq<char>, i: nat) -> nat
    decreases s.len() - i,
{
    if i < s.len() && is_scheme_char(s[i as int]) {
        scheme_run(s, i + 1)
    } else {
        i
    }
}

/// Whether `s` begins with a scheme and its colon, as an absolute URL does.
pub open spec fn has_scheme(s: Seq<char>) -> bool {
    s.len() > 0 && is_alpha(s[0]) && scheme_run(s, 0) < s.len() && s[scheme_run(s, 0) as int]
        == ':'
}

/// The index of the first character at or after `i` that is one of
/// `stops` (`s.len()` when there is none).
pub open spec fn first_of(s: Seq<char>, stops: Seq<char>, i: nat) -> nat
    decreases s.len() - i,
{
    if i >= s.len() {
        s.len()
    } else if stops.contains(s[i as int]) {
        i
    } else {
        first_of(s, stops, i + 1)
    }
}

/// The index of the last `/` in `s[lo..hi)`, or -1 when there is none.
pub open spec fn last_slash(s: Seq<char>, lo: int, hi: int) -> int
    decreases hi - lo,
{
    if hi <= lo {
        -1
    } else if s[hi - 1] == '/' {
        hi - 1
    } else {
        last_slash(s, lo, hi - 1)
    }
}

/// Where the scheme of `base` ends: just after its colon (0 when it has
/// none).
pub open spec fn scheme_end(base: Seq<char>) -> nat {
    if has_scheme(base) {
        scheme_run(base, 0) + 1
    } else {
        0
    }
}

/// Whether an authority (`//host`) follows the scheme of `base`.
pub open spec fn has_authority(base: Seq<char>) -> bool {
    starts_with(base.subrange(scheme_end(base) as int, base.len() as int), "//"@)
}

/// Where the authority of `base` ends (where its path begins).
pub open spec fn authority_end(base: Seq<char>) -> nat {
    if has_authority(base) {
        first_of(base, seq!['/', '?', '#'], scheme_end(base) + 2)
    } else {
        scheme_end(base)
    }
}

/// Where the path of `base` ends.
pub open spec fn path_end(base: Seq<char>) -> nat {
    first_of(base, seq!['?', '#'], authority_end(base))
}

/// Where the fragment of `base` begins (its length when it has none).
pub open spec fn fragment_start(base: Seq<char>) -> nat {
    first_of(base, seq!['#'], path_end(base))
}

/// The URL that the reference `r` names, read against the URL `base`.
pub open spec fn resolved(base: Seq<char>, r: Seq<char>) -> Seq<char> {
    if has_scheme(r) {
        r
    } else if starts_with(r, "//"@) {
        base.subrange(0, scheme_end(base) as int) + r
    } else if starts_with(r, "/"@) {
        base.subrange(0, authority_end(base) as int) + r
    } else if starts_with(r, "?"@) {
        base.subrange(0, path_end(base) as int) + r
    } else if starts_with(r, "#"@) {
        base.subrange(0, fragment_start(base) as int) + r
    } else if r.len() == 0 {
        base.subrange(0, fragment_start(base) as int)
    } else {
        let slash = last_slash(base, authority_end(base) as int, path_end(base) as int);
        if slash >= 0 {
            base.subrange(0, slash + 1) + r
        } else if has_authority(base) {
            base.subrange(0, authority_end(base) as int) + seq!['/'] + r
        } else {
            base.subrange(0, authority_end(base) as int) + r
        }
    }
}

proof fn lemma_first_of_bounds(s: Seq<char>, stops: Seq<char>, i: nat)
    ensures
        first_of(s, stops, i) <= s.len(),
        i <= s.len() ==> i <= first_of(s, stops, i),
    decreases s.len() - i,
{
    if i < s.len() && !stops.contains(s[i as int]) {
        lemma_first_of_bounds(s, stops, i + 1);
    }
}

proof fn lemma_scheme_run_bounds(s: Seq<char>, i: nat)
    ensures
        i <= s.len() ==> i <= scheme_run(s, i) <= s.len(),
    decreases s.len() - i,
{
    if i < s.len() && is_scheme_char(s[i as int]) {
        lemma_scheme_run_bounds(s, i + 1);
    }
}

proof fn lemma_last_slash_bounds(s: Seq<char>, lo: int, hi: int)
    ensures
        last_slash(s, lo, hi) == -1 || (lo <= last_slash(s, lo, hi) < hi),
    decreases hi - lo,
{
    if hi > lo && s[hi - 1] != '/' {
        lemma_last_slash_bounds(s, lo, hi - 1);
    }
}

fn is_scheme_character(c: char) -> (b: bool)
    ensures
        b == is_scheme_char(c),
{
    ('a' <= c && c <= 'z') || ('A' <= c && c <= 'Z') || ('0' <= c && c <= '9') || c == '+'
        || c == '-' || c == '.'
}

fn scheme_run_of(s: &Vec<char>) -> (r: usize)
    ensures
        r == scheme_run(s@, 0),
{
    let mut i: usize = 0;
    while i < s.len() && is_scheme_character(s[i])
        invariant
            i <= s@.len(),
            scheme_run(s@, 0) == scheme_run(s@, i as nat),
        decreases s@.len() - i,
    {
        i = i + 1;
    }
    i
}

fn has_scheme_of(s: &Vec<char>) -> (b: bool)
    ensures
        b == has_scheme(s@),
{
    if s.len() == 0 {
        return false;
    }
    let c = s[0];
    if !(('a' <= c && c <= 'z') || ('A' <= c && c <= 'Z')) {
        return false;
    }
    let k = scheme_run_of(s);
    k < s.len() && s[k] == ':'
}

fn starts_with_of(s: &Vec<char>, from: usize, p: &str) -> (b: bool)
    requires
        from <= s@.len(),
    ensures
        b == starts_with(s@.subrange(from as int, s@.len() as int), p@),
{
    let pc = chars_of(p);
    let ghost rest = s@.subrange(from as int, s@.len() as int);
    if pc.len() > s.len() - from {
        return false;
    }
    let mut j: usize = 0;
    while j < pc.len()
        invariant
            from + pc@.len() <= s@.len(),
            j <= pc@.len(),
            pc@ == p@,
            s@.len() == s.len(),
            rest == s@.subrange(from as int, s@.len() as int),
            forall|k: int| 0 <= k < j ==> s@[from + k] == pc@[k],
        decreases pc@.len() - j,
    {
        if s[from + j] != pc[j] {
            assert(rest.subrange(0, pc@.len() as int)[j as int] != pc@[j as int]);
            return false;
        }
        j = j + 1;
    }
    assert(rest.subrange(0, pc@.len() as int) =~= pc@);
    true
}

fn first_of_from(s: &Vec<char>, stops: &Vec<char>, from: usize) -> (r: usize)
    requires
        from <= s@.len(),
    ensures
        r == first_of(s@, stops@, from as nat),
        from <= r <= s@.len(),
{
    let mut i: usize = from;
    proof {
        lemma_first_of_bounds(s@, stops@, from as nat);
    }
    while i < s.len()
        invariant
            from <= i <= s@.len(),
            first_of(s@, stops@, from as nat) == first_of(s@, stops@, i as nat),
        decreases s@.len() - i,
    {
        let c = s[i];
        let mut hit: bool = false;
        let mut k: usize = 0;
        while k < stops.len()
            invariant
                k <= stops@.len(),
                hit <==> exists|m: int| 0 <= m < k && stops@[m] == c,
            decreases stops@.len() - k,
        {
            if stops[k] == c {
                hit = true;
            }
            k = k + 1;
        }
        if hit {
            return i;
        }
        assert(!stops@.contains(c));
        i = i + 1;
    }
    i
}

fn last_slash_in(s: &Vec<char>, lo: usize, hi: usize) -> (r: Option<usize>)
    requires
        lo <= hi <= s@.len(),
    ensures
        r matches Some(k) ==> k as int == last_slash(s@, lo as int, hi as int) && lo <= k < hi,
        r is None ==> last_slash(s@, lo as int, hi as int) == -1,
{
    let mut j: usize = hi;
    while j > lo
        invariant
            lo <= j <= hi,
            hi <= s@.len(),
            last_slash(s@, lo as int, hi as int) == last_slash(s@, lo as int, j as int),
        decreases j,
    {
        if s[j - 1] == '/' {
            return Some(j - 1);
        }
        j = j - 1;
    }
    None
}

fn push_range(out: &mut String, s: &Vec<char>, from: usize, to: usize)
    requires
        from <= to <= s@.len(),
    ensures
        final(out)@ == old(out)@ + s@.subrange(from as int, to as int),
{
    let ghost start = out@;
    let mut i: usize = from;
    while i < to
        invariant
            from <= i <= to,
            to <= s@.len(),
            out@ == start + s@.subrange(from as int, i as int),
        decreases to - i,
    {
        push_char(out, s[i]);
        assert(s@.subrange(from as int, i + 1) =~= s@.subrange(from as int, i as int).push(
            s@[i as int],
        ));
        i = i + 1;
    }
}

/// The URL that the reference `reference` (a redirect's `Location`) names,
/// read against the URL `base` that was requested.
pub fn resolve_reference(base: &str, reference: &str) -> (u: String)
    ensures
        u@ == resolved(base@, reference@),
{
    let b = chars_of(base);
    let r = chars_of(reference);
    let mut out = String::new();
    if has_scheme_of(&r) {
        push_str(&mut out, reference);
        return out;
    }
    let b_has_scheme = has_scheme_of(&b);
    let s_end: usize = if b_has_scheme {
        let k = scheme_run_of(&b);
        assert(k < b@.len());
        k + 1
    } else {
        0
    };
    assert(s_end == scheme_end(b@));
    proof {
        reveal_strlit("//");
    }
    let authority = starts_with_of(&b, s_end, "//");
    let b_len: usize = b.len();
    assert(authority ==> s_end + 2 <= b_len);
    let mut stops_a: Vec<char> = Vec::new();
    stops_a.push('/');
    stops_a.push('?');
    stops_a.push('#');
    assert(stops_a@ =~= seq!['/', '?', '#']);
    let a_end: usize = if authority {
        proof {
            reveal_strlit("//");
        }
        first_of_from(&b, &stops_a, s_end + 2)
    } else {
        s_end
    };
    assert(a_end == authority_end(b@));
    let mut stops_p: Vec<char> = Vec::new();
    stops_p.push('?');
    stops_p.push('#');
    assert(stops_p@ =~= seq!['?', '#']);
    let p_end = first_of_from(&b, &stops_p, a_end);
    let mut stops_f: Vec<char> = Vec::new();
    stops_f.push('#');
    assert(stops_f@ =~= seq!['#']);
    let f_start = first_of_from(&b, &stops_f, p_end);
    if starts_with_of(&r, 0, "//") {
        assert(r@.subrange(0, r@.len() as int) =~= r@);
        push_range(&mut out, &b, 0, s_end);
        push_str(&mut out, reference);
    } else if starts_with_of(&r, 0, "/") {
        assert(r@.subrange(0, r@.len() as int) =~= r@);
        push_range(&mut out, &b, 0, a_end);
        push_str(&mut out, reference);
    } else if starts_with_of(&r, 0, "?") {
        assert(r@.subrange(0, r@.len() as int) =~= r@);
        push_range(&mut out, &b, 0, p_end);
        push_str(&mut out, reference);
    } else if starts_with_of(&r, 0, "#") {
        assert(r@.subrange(0, r@.len() as int) =~= r@);
        push_range(&mut out, &b, 0, f_start);
        push_str(&mut out, reference);
    } else if r.len() == 0 {
        assert(r@.subrange(0, r@.len() as int) =~= r@);
        push_range(&mut out, &b, 0, f_start);
    } else {
        assert(r@.subrange(0, r@.len() as int) =~= r@);
        match last_slash_in(&b, a_end, p_end) {
            Some(k) => {
                push_range(&mut out, &b, 0, k + 1);
                push_str(&mut out, reference);
            },
            None => {
                push_range(&mut out, &b, 0, a_end);
                if authority {
                    push_char(&mut out, '/');
                }
                push_str(&mut out, reference);
            },
        }
    }
    out
}

} // verus!
