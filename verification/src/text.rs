//! Character-level text operations: whitespace, trimming, substring search
//! and decimal formatting.

use vstd::prelude::*;

verus! {

/// The Unicode `White_Space` property, which `char::is_whitespace` tests.
pub open spec fn is_white_space(c: char) -> bool {
    let n = c as u32;
    ||| 0x09 <= n <= 0x0d
    ||| n == 0x20
    ||| n == 0x85
    ||| n == 0xa0
    ||| n == 0x1680
    ||| 0x2000 <= n <= 0x200a
    ||| n == 0x2028
    ||| n == 0x2029
    ||| n == 0x202f
    ||| n == 0x205f
    ||| n == 0x3000
}

/// `s` with its leading whitespace removed.
pub open spec fn trim_start(s: Seq<char>) -> Seq<char>
    decreases s.len(),
{
    if s.len() > 0 && is_white_space(s[0]) {
        trim_start(s.drop_first())
    } else {
        s
    }
}

/// `s` with its trailing whitespace removed.
pub open spec fn trim_end(s: Seq<char>) -> Seq<char>
    decreases s.len(),
{
    if s.len() > 0 && is_white_space(s.last()) {
        trim_end(s.drop_last())
    } else {
        s
    }
}

/// `s` with leading and trailing whitespace removed, as `str::trim` does.
pub open spec fn trim(s: Seq<char>) -> Seq<char> {
    trim_end(trim_start(s))
}

/// Whether `c` is whitespace.
pub fn is_whitespace(c: char) -> (r: bool)
    ensures
        r == is_white_space(c),
{
    let n: u32 = c as u32;
    (0x09 <= n && n <= 0x0d) || n == 0x20 || n == 0x85 || n == 0xa0 || n == 0x1680 || (0x2000
        <= n && n <= 0x200a) || n == 0x2028 || n == 0x2029 || n == 0x202f || n == 0x205f || n
        == 0x3000
}

/// The trimmed form of `s`, as a new `String`.
pub fn trimmed(s: &str) -> (r: String)
    ensures
        r@ == trim(s@),
{
    let n: usize = s.unicode_len();
    let mut i: usize = 0;
    assert(s@.subrange(0, n as int) =~= s@);
    while i < n && is_whitespace(s.get_char(i))
        invariant
            i <= n,
            n == s@.len(),
            trim_start(s@) == trim_start(s@.subrange(i as int, n as int)),
        decreases n - i,
    {
        assert(s@.subrange(i + 1, n as int) =~= s@.subrange(i as int, n as int).drop_first());
        i = i + 1;
    }
    let ghost rest = s@.subrange(i as int, n as int);
    assert(trim_start(rest) == rest);
    let mut j: usize = n;
    while j > i && is_whitespace(s.get_char(j - 1))
        invariant
            i <= j <= n,
            n == s@.len(),
            trim_end(rest) == trim_end(s@.subrange(i as int, j as int)),
            rest == s@.subrange(i as int, n as int),
        decreases j,
    {
        assert(s@.subrange(i as int, j - 1) =~= s@.subrange(i as int, j as int).drop_last());
        j = j - 1;
    }
    assert(trim_end(s@.subrange(i as int, j as int)) == s@.subrange(i as int, j as int));
    s.substring_char(i, j).to_owned()
}


/// Whether `p` occurs in `s` as a contiguous run of characters.
pub open spec fn occurs_in(p: Seq<char>, s: Seq<char>) -> bool {
    exists|i: int| 0 <= i <= s.len() - p.len() && #[trigger] s.subrange(i, i + p.len()) == p
}

/// Whether `s` begins with `p`.
pub open spec fn starts_with(s: Seq<char>, p: Seq<char>) -> bool {
    p.len() <= s.len() && s.subrange(0, p.len() as int) == p
}

/// The decimal digit character for `d`.
pub open spec fn digit_char(d: nat) -> char
    recommends
        d < 10,
{
    (48 + d) as char
}

/// The decimal representation of `n`, without leading zeros.
pub open spec fn nat_digits(n: nat) -> Seq<char>
    decreases n,
{
    if n < 10 {
        seq![digit_char(n)]
    } else {
        nat_digits(n / 10).push(digit_char(n % 10))
    }
}

/// The decimal representation of `n` that `Display` gives an integer: a
/// minus sign for negative numbers, then the digits of the magnitude.
pub open spec fn int_digits(n: int) -> Seq<char> {
    if n < 0 {
        seq!['-'] + nat_digits((-n) as nat)
    } else {
        nat_digits(n as nat)
    }
}

/// Appends one character to a `String` (`String::push`).
#[verifier::external_body]
pub(crate) fn push_char(s: &mut String, c: char)
    ensures
        final(s)@ == old(s)@.push(c),
{
    s.push(c);
}

/// Appends a string slice to a `String`.
pub fn push_str(s: &mut String, t: &str)
    ensures
        final(s)@ == old(s)@ + t@,
{
    let n: usize = t.unicode_len();
    let ghost start = s@;
    let mut i: usize = 0;
    while i < n
        invariant
            i <= n,
            n == t@.len(),
            s@ == start + t@.subrange(0, i as int),
        decreases n - i,
    {
        let c = t.get_char(i);
        push_char(s, c);
        assert(t@.subrange(0, i + 1) =~= t@.subrange(0, i as int).push(c));
        i = i + 1;
    }
    assert(t@.subrange(0, n as int) =~= t@);
}

/// The characters of `s`, in order.
pub fn chars_of(s: &str) -> (v: Vec<char>)
    ensures
        v@ == s@,
{
    let n: usize = s.unicode_len();
    let mut v: Vec<char> = Vec::new();
    let mut i: usize = 0;
    while i < n
        invariant
            i <= n,
            n == s@.len(),
            v@ == s@.subrange(0, i as int),
        decreases n - i,
    {
        v.push(s.get_char(i));
        i = i + 1;
    }
    v
}

/// Whether `needle` occurs in `haystack`, as `str::contains` with a string
/// pattern answers.
pub fn contains(haystack: &str, needle: &str) -> (r: bool)
    ensures
        r == occurs_in(needle@, haystack@),
{
    let h = chars_of(haystack);
    let p = chars_of(needle);
    let hn: usize = h.len();
    let pn: usize = p.len();
    if pn > hn {
        return false;
    }
    let mut i: usize = 0;
    while i <= hn - pn
        invariant
            hn == h@.len(),
            pn == p@.len(),
            pn <= hn,
            i <= hn - pn + 1,
            h@ == haystack@,
            p@ == needle@,
            forall|k: int| 0 <= k < i ==> #[trigger] h@.subrange(k, k + pn) != p@,
        decreases hn - pn + 1 - i,
    {
        let mut j: usize = 0;
        let mut same: bool = true;
        while j < pn
            invariant
                hn == h@.len(),
                pn == p@.len(),
                i + pn <= hn,
                j <= pn,
                same <==> forall|k: int| 0 <= k < j ==> h@[i + k] == p@[k],
            decreases pn - j,
        {
            if h[i + j] != p[j] {
                same = false;
            }
            j = j + 1;
        }
        if same {
            assert(h@.subrange(i as int, i + pn) =~= p@);
            return true;
        }
        assert(h@.subrange(i as int, i + pn)[0] == h@[i as int + 0]);
        assert(!(h@.subrange(i as int, i + pn) =~= p@));
        i = i + 1;
    }
    proof {
        assert forall|k: int| 0 <= k <= h@.len() - p@.len() implies #[trigger] h@.subrange(
            k,
            k + p@.len(),
        ) != p@ by {}
    }
    false
}

/// `s` without its prefix `prefix` if it has one, else `s` unchanged, as
/// `s.strip_prefix(prefix).unwrap_or(s)` gives.
pub fn strip_prefix_or_self(s: &str, prefix: &str) -> (r: String)
    ensures
        starts_with(s@, prefix@) ==> r@ == s@.subrange(prefix@.len() as int, s@.len() as int),
        !starts_with(s@, prefix@) ==> r@ == s@,
{
    let sc = chars_of(s);
    let pc = chars_of(prefix);
    let n: usize = sc.len();
    let m: usize = pc.len();
    let mut is_prefix: bool = m <= n;
    if is_prefix {
        let mut j: usize = 0;
        while j < m
            invariant
                m <= n,
                n == sc@.len(),
                m == pc@.len(),
                j <= m,
                is_prefix <==> forall|k: int| 0 <= k < j ==> sc@[k] == pc@[k],
            decreases m - j,
        {
            if sc[j] != pc[j] {
                is_prefix = false;
            }
            j = j + 1;
        }
        if is_prefix {
            assert(s@.subrange(0, m as int) =~= prefix@);
        } else {
            assert(!(s@.subrange(0, m as int) =~= prefix@));
        }
    }
    if is_prefix {
        s.substring_char(m, n).to_owned()
    } else {
        s.to_owned()
    }
}

/// Appends the decimal digits of `n` to `s`.
pub fn push_nat_digits(s: &mut String, n: u64)
    ensures
        final(s)@ == old(s)@ + nat_digits(n as nat),
    decreases n,
{
    if n >= 10 {
        push_nat_digits(s, n / 10);
    }
    let d: u8 = (n % 10) as u8;
    let c: char = (48u8 + d) as char;
    push_char(s, c);
    proof {
        if n >= 10 {
            assert(nat_digits(n as nat) == nat_digits((n / 10) as nat).push(digit_char((n % 10) as nat)));
        }
    }
}

/// Appends the decimal form of `n` to `s`, as formatting an `i32` with `{}`
/// writes it.
pub fn push_i32(s: &mut String, n: i32)
    ensures
        final(s)@ == old(s)@ + int_digits(n as int),
{
    if n < 0 {
        push_char(s, '-');
        let magnitude: u64 = (0i64 - (n as i64)) as u64;
        push_nat_digits(s, magnitude);
        assert(old(s)@ + int_digits(n as int) =~= old(s)@.push('-') + nat_digits(magnitude as nat));
    } else {
        push_nat_digits(s, n as u64);
    }
}

/// `trim_start(s)` is a suffix of `s` that is empty or begins with a
/// non-whitespace character.
pub proof fn lemma_trim_start_shape(s: Seq<char>)
    ensures
        trim_start(s).len() <= s.len(),
        trim_start(s) == s.subrange(s.len() - trim_start(s).len(), s.len() as int),
        trim_start(s).len() > 0 ==> !is_white_space(trim_start(s)[0]),
    decreases s.len(),
{
    if s.len() > 0 && is_white_space(s[0]) {
        lemma_trim_start_shape(s.drop_first());
        assert(s.drop_first().subrange(
            s.drop_first().len() - trim_start(s).len(),
            s.drop_first().len() as int,
        ) =~= s.subrange(s.len() - trim_start(s).len(), s.len() as int));
    } else {
        assert(s.subrange(0, s.len() as int) =~= s);
    }
}

/// `trim_end(s)` is a prefix of `s` that is empty or ends with a
/// non-whitespace character.
pub proof fn lemma_trim_end_shape(s: Seq<char>)
    ensures
        trim_end(s).len() <= s.len(),
        trim_end(s) == s.subrange(0, trim_end(s).len() as int),
        trim_end(s).len() > 0 ==> !is_white_space(trim_end(s).last()),
    decreases s.len(),
{
    if s.len() > 0 && is_white_space(s.last()) {
        lemma_trim_end_shape(s.drop_last());
        assert(s.drop_last().subrange(0, trim_end(s).len() as int) =~= s.subrange(
            0,
            trim_end(s).len() as int,
        ));
    } else {
        assert(s.subrange(0, s.len() as int) =~= s);
    }
}

/// A trimmed text, where not empty, begins and ends with non-whitespace.
pub proof fn lemma_trim_ends(s: Seq<char>)
    ensures
        trim(s).len() > 0 ==> !is_white_space(trim(s)[0]) && !is_white_space(trim(s).last()),
{
    lemma_trim_start_shape(s);
    lemma_trim_end_shape(trim_start(s));
    if trim(s).len() > 0 {
        assert(trim(s)[0] == trim_start(s)[0]);
    }
}

/// Trimming leaves alone a text that begins and ends with non-whitespace.
pub proof fn lemma_trim_keeps(s: Seq<char>)
    requires
        s.len() > 0,
        !is_white_space(s[0]),
        !is_white_space(s.last()),
    ensures
        trim(s) == s,
{
    assert(trim_start(s) == s);
    assert(trim_end(s) == s);
}

/// Trimming twice is trimming once.
pub proof fn lemma_trim_idempotent(s: Seq<char>)
    ensures
        trim(trim(s)) == trim(s),
{
    lemma_trim_ends(s);
    if trim(s).len() > 0 {
        lemma_trim_keeps(trim(s));
    }
}

/// The decimal digits of a number are not empty and end with the digit of
/// its last place.
pub proof fn lemma_nat_digits_last(n: nat)
    ensures
        nat_digits(n).len() > 0,
        nat_digits(n).last() == digit_char(n % 10),
    decreases n,
{
    if n >= 10 {
        lemma_nat_digits_last(n / 10);
    }
}

/// Which characters are whitespace: the ASCII ones are exactly tab, line
/// feed, vertical tab, form feed, carriage return and space, and the others
/// are next line, no-break space, ogham space mark, the spaces U+2000 to
/// U+200A, the line and paragraph separators, narrow no-break space, medium
/// mathematical space and ideographic space. Zero-width space is not one.
pub proof fn lemma_white_space_set(c: char)
    ensures
        (c as u32) < 128 ==> (is_white_space(c) <==> (c == '\t' || c == '\n' || c == '\u{b}'
            || c == '\u{c}' || c == '\r' || c == ' ')),
        is_white_space('\t') && is_white_space('\n') && is_white_space('\u{b}')
            && is_white_space('\u{c}') && is_white_space('\r') && is_white_space(' '),
        is_white_space('\u{85}') && is_white_space('\u{a0}') && is_white_space('\u{1680}'),
        is_white_space('\u{2000}') && is_white_space('\u{2005}') && is_white_space('\u{200a}'),
        is_white_space('\u{2028}') && is_white_space('\u{2029}') && is_white_space('\u{202f}'),
        is_white_space('\u{205f}') && is_white_space('\u{3000}'),
        !is_white_space('\u{200b}') && !is_white_space('a') && !is_white_space('\u{0}'),
{
}

/// Whether every character of `w` is whitespace.
pub open spec fn all_white_space(w: Seq<char>) -> bool {
    forall|i: int| 0 <= i < w.len() ==> is_white_space(#[trigger] w[i])
}

proof fn lemma_trim_start_concat(s: Seq<char>, w: Seq<char>)
    ensures
        trim_start(s + w) == (if trim_start(s).len() > 0 {
            trim_start(s) + w
        } else {
            trim_start(w)
        }),
    decreases s.len(),
{
    if s.len() == 0 {
        assert(s + w =~= w);
    } else if is_white_space(s[0]) {
        assert((s + w).drop_first() =~= s.drop_first() + w);
        lemma_trim_start_concat(s.drop_first(), w);
    } else {
        assert((s + w)[0] == s[0]);
    }
}

proof fn lemma_trim_start_all_white(w: Seq<char>)
    requires
        all_white_space(w),
    ensures
        trim_start(w).len() == 0,
    decreases w.len(),
{
    if w.len() > 0 {
        assert(is_white_space(w[0]));
        assert(all_white_space(w.drop_first())) by {
            assert forall|i: int| 0 <= i < w.drop_first().len() implies is_white_space(
                #[trigger] w.drop_first()[i],
            ) by {
                assert(w.drop_first()[i] == w[i + 1]);
            }
        }
        lemma_trim_start_all_white(w.drop_first());
    }
}

proof fn lemma_trim_start_white_prefix(w: Seq<char>, x: Seq<char>)
    requires
        all_white_space(w),
    ensures
        trim_start(w + x) == trim_start(x),
    decreases w.len(),
{
    if w.len() == 0 {
        assert(w + x =~= x);
    } else {
        assert(is_white_space(w[0]));
        assert((w + x)[0] == w[0]);
        assert((w + x).drop_first() =~= w.drop_first() + x);
        assert(all_white_space(w.drop_first())) by {
            assert forall|i: int| 0 <= i < w.drop_first().len() implies is_white_space(
                #[trigger] w.drop_first()[i],
            ) by {
                assert(w.drop_first()[i] == w[i + 1]);
            }
        }
        lemma_trim_start_white_prefix(w.drop_first(), x);
    }
}

proof fn lemma_trim_end_white_suffix(x: Seq<char>, w: Seq<char>)
    requires
        all_white_space(w),
    ensures
        trim_end(x + w) == trim_end(x),
    decreases w.len(),
{
    if w.len() == 0 {
        assert(x + w =~= x);
    } else {
        assert(is_white_space(w.last()));
        assert((x + w).last() == w.last());
        assert((x + w).drop_last() =~= x + w.drop_last());
        assert(all_white_space(w.drop_last())) by {
            assert forall|i: int| 0 <= i < w.drop_last().len() implies is_white_space(
                #[trigger] w.drop_last()[i],
            ) by {
                assert(w.drop_last()[i] == w[i]);
            }
        }
        lemma_trim_end_white_suffix(x, w.drop_last());
    }
}

/// Whitespace around a text is what trimming removes: padding `s` with
/// whitespace on either side, carriage returns and line feeds included,
/// does not change its trimmed form.
pub proof fn lemma_trim_strips_padding(before: Seq<char>, s: Seq<char>, after: Seq<char>)
    requires
        all_white_space(before),
        all_white_space(after),
    ensures
        trim(before + s + after) == trim(s),
{
    assert(before + s + after =~= before + (s + after));
    lemma_trim_start_white_prefix(before, s + after);
    lemma_trim_start_concat(s, after);
    if trim_start(s).len() > 0 {
        lemma_trim_end_white_suffix(trim_start(s), after);
    } else {
        lemma_trim_start_all_white(after);
        assert(trim_start(s) =~= Seq::<char>::empty());
        assert(trim_start(after) =~= Seq::<char>::empty());
    }
}

/// The number that a string of decimal digits spells.
pub open spec fn decimal_value(s: Seq<char>) -> int
    decreases s.len(),
{
    if s.len() == 0 {
        0
    } else {
        decimal_value(s.drop_last()) * 10 + (s.last() as int - 48)
    }
}

/// The decimal form of a number consists of the characters `0` to `9`,
/// begins with `0` only for zero itself, and spells the number back.
pub proof fn lemma_nat_digits_spell(n: nat)
    ensures
        decimal_value(nat_digits(n)) == n,
        forall|i: int| 0 <= i < nat_digits(n).len() ==> '0' <= #[trigger] nat_digits(n)[i] <= '9',
        nat_digits(n).len() > 0,
        nat_digits(n)[0] == '0' ==> n == 0,
    decreases n,
{
    if n >= 10 {
        let q: nat = n / 10;
        lemma_nat_digits_spell(q);
        let d = nat_digits(q);
        let s = nat_digits(n);
        assert(s == d.push(digit_char(n % 10)));
        assert(s.drop_last() =~= d);
        assert(q * 10 + n % 10 == n);
        assert forall|i: int| 0 <= i < s.len() implies '0' <= #[trigger] s[i] <= '9' by {
            if i < d.len() {
                assert(s[i] == d[i]);
            }
        }
        assert(s[0] == d[0]);
        assert(s.last() as int == 48 + n % 10);
        assert(decimal_value(s) == decimal_value(d) * 10 + (s.last() as int - 48));
        assert(decimal_value(d) * 10 == q * 10);
    } else {
        let s = nat_digits(n);
        assert(s.drop_last() =~= Seq::<char>::empty());
        assert(s.last() as int == 48 + n);
        assert(decimal_value(s.drop_last()) == 0);
        assert(decimal_value(s) == decimal_value(s.drop_last()) * 10 + (s.last() as int - 48));
    }
}

/// The decimal form of an integer is a minus sign, for negative ones, and
/// then the decimal form of its magnitude.
pub proof fn lemma_int_digits_spell(n: int)
    ensures
        n >= 0 ==> decimal_value(int_digits(n)) == n,
        n < 0 ==> int_digits(n)[0] == '-' && decimal_value(int_digits(n).drop_first()) == -n,
{
    if n >= 0 {
        lemma_nat_digits_spell(n as nat);
    } else {
        lemma_nat_digits_spell((-n) as nat);
        assert(int_digits(n).drop_first() =~= nat_digits((-n) as nat));
    }
}

} // verus!
