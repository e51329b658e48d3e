//! Character-level string utilities the rest of the library is specified
//! against: substring search, splitting, trimming, decimal parsing,
//! lexicographic comparison and UTF-8 length accounting, all verified over
//! `Seq<char>` views. Case folding is the one operation taken on trust.

use vstd::prelude::*;
use vstd::string::StrSliceExecFns;

verus! {

/// What `str::to_lowercase` returns: a function of the characters alone.
pub uninterp spec fn lower_of(s: Seq<char>) -> Seq<char>;

/// Relies on str::to_lowercase: Unicode lowercasing, determined by the
/// input characters alone; the empty string stays empty.
#[verifier::external_body]
pub fn lowercase(s: &str) -> (r: String)
    ensures
        r@ == lower_of(s@),
        s@.len() == 0 ==> r@.len() == 0,
{
    s.to_lowercase()
}

/// The characters of `s`, as a vector.
pub fn chars_vec(s: &str) -> (r: Vec<char>)
    ensures
        r@ == s@,
{
    let n = s.unicode_len();
    let mut r: Vec<char> = Vec::new();
    let mut i: usize = 0;
    while i < n
        invariant
            n == s@.len(),
            i <= n,
            r@ == s@.take(i as int),
        decreases n - i,
    {
        r.push(s.get_char(i));
        proof {
            assert(r@ =~= s@.take(i + 1));
        }
        i = i + 1;
    }
    proof {
        assert(r@ =~= s@);
    }
    r
}

/// Equality of two string slices, by characters.
pub fn str_eq(a: &str, b: &str) -> (r: bool)
    ensures
        r == (a@ == b@),
{
    let na = a.unicode_len();
    let nb = b.unicode_len();
    if na != nb {
        proof {
            assert(a@ != b@);
        }
        return false;
    }
    let mut i: usize = 0;
    while i < na
        invariant
            na == a@.len(),
            na == b@.len(),
            i <= na,
            forall|j: int| 0 <= j < i ==> a@[j] == b@[j],
        decreases na - i,
    {
        if a.get_char(i) != b.get_char(i) {
            return false;
        }
        i = i + 1;
    }
    proof {
        assert(a@ =~= b@);
    }
    true
}

/// `pat` occurs in `text` starting at position `i`.
pub open spec fn spec_is_sub_at(text: Seq<char>, pat: Seq<char>, i: int) -> bool {
    0 <= i && i + pat.len() <= text.len() && text.subrange(i, i + pat.len()) == pat
}

/// `pat` occurs somewhere in `text`.
pub open spec fn spec_contains_sub(text: Seq<char>, pat: Seq<char>) -> bool {
    exists|i: int| spec_is_sub_at(text, pat, i)
}

/// Whether `pat` occurs at position `i` of `text`.
fn is_sub_at(text: &Vec<char>, pat: &Vec<char>, i: usize) -> (r: bool)
    requires
        i + pat@.len() <= text@.len(),
    ensures
        r == spec_is_sub_at(text@, pat@, i as int),
{
    let n = text.len();
    let mut j: usize = 0;
    while j < pat.len()
        invariant
            n == text@.len(),
            i + pat@.len() <= text@.len(),
            j <= pat@.len(),
            forall|k: int| 0 <= k < j ==> text@[i + k] == pat@[k],
        decreases pat@.len() - j,
    {
        if text[i + j] != pat[j] {
            proof {
                assert(text@.subrange(i as int, i + pat@.len())[j as int] != pat@[j as int]);
            }
            return false;
        }
        j = j + 1;
    }
    proof {
        assert(text@.subrange(i as int, i + pat@.len()) =~= pat@);
    }
    true
}

/// The leftmost occurrence of `pat` in `text` at or after `from`, if any.
pub fn find_sub_from(text: &Vec<char>, pat: &Vec<char>, from: usize) -> (r: Option<usize>)
    ensures
        match r {
            Some(i) => from <= i && spec_is_sub_at(text@, pat@, i as int) && forall|j: int|
                from <= j < i ==> !spec_is_sub_at(text@, pat@, j),
            None => forall|j: int| from <= j ==> !spec_is_sub_at(text@, pat@, j),
        },
{
    if pat.len() > text.len() {
        return None;
    }
    if pat.len() == 0 {
        if from <= text.len() {
            proof {
                assert(text@.subrange(from as int, from as int) =~= pat@);
            }
            return Some(from);
        } else {
            return None;
        }
    }
    let n = text.len();
    let last = n - pat.len();
    if from > last {
        return None;
    }
    let mut i: usize = from;
    while i <= last
        invariant
            n == text@.len(),
            pat@.len() >= 1,
            last == text@.len() - pat@.len(),
            from <= i <= last + 1,
            forall|j: int| from <= j < i ==> !spec_is_sub_at(text@, pat@, j),
        decreases last + 1 - i,
    {
        if is_sub_at(text, pat, i) {
            return Some(i);
        }
        i = i + 1;
    }
    None
}

/// `pat` occurs somewhere in `text`.
pub fn contains_sub(text: &Vec<char>, pat: &Vec<char>) -> (r: bool)
    ensures
        r == spec_contains_sub(text@, pat@),
{
    match find_sub_from(text, pat, 0) {
        Some(i) => {
            proof {
                assert(spec_is_sub_at(text@, pat@, i as int));
            }
            true
        },
        None => false,
    }
}

/// The index of the first occurrence of `c` in `s`, or `s.len()` if none.
pub open spec fn spec_first_index(s: Seq<char>, c: char) -> int
    decreases s.len(),
{
    if s.len() == 0 {
        0
    } else if s[0] == c {
        0
    } else {
        1 + spec_first_index(s.skip(1), c)
    }
}

pub proof fn lemma_first_index(s: Seq<char>, c: char)
    ensures
        0 <= spec_first_index(s, c) <= s.len(),
        spec_first_index(s, c) < s.len() ==> s[spec_first_index(s, c)] == c,
        forall|k: int| 0 <= k < spec_first_index(s, c) ==> s[k] != c,
    decreases s.len(),
{
    if s.len() > 0 && s[0] != c {
        lemma_first_index(s.skip(1), c);
        let fi = spec_first_index(s, c);
        assert forall|k: int| 0 <= k < fi implies s[k] != c by {
            if k > 0 {
                assert(s.skip(1)[k - 1] != c);
            }
        }
    }
}

/// Splitting `s` on every occurrence of `sep`; an empty input yields one
/// empty segment, as `str::split` does.
pub open spec fn spec_split(s: Seq<char>, sep: char) -> Seq<Seq<char>>
    decreases s.len(),
{
    let i = spec_first_index(s, sep);
    if 0 <= i < s.len() {
        seq![s.take(i)] + spec_split(s.skip(i + 1), sep)
    } else {
        seq![s]
    }
}

/// The index of the first occurrence of `c` at or after `from`, or `None`.
pub fn find_char_from(s: &Vec<char>, c: char, from: usize) -> (r: Option<usize>)
    requires
        from <= s@.len(),
    ensures
        match r {
            Some(i) => from <= i < s@.len() && s@[i as int] == c && forall|j: int|
                from <= j < i ==> s@[j] != c,
            None => forall|j: int| from <= j < s@.len() ==> s@[j] != c,
        },
{
    let n = s.len();
    let mut i: usize = from;
    while i < n
        invariant
            n == s@.len(),
            from <= i <= s@.len(),
            forall|j: int| from <= j < i ==> s@[j] != c,
        decreases s@.len() - i,
    {
        if s[i] == c {
            return Some(i);
        }
        i = i + 1;
    }
    None
}

/// A copy of `s[a..b]`.
pub fn subvec(s: &Vec<char>, a: usize, b: usize) -> (r: Vec<char>)
    requires
        a <= b <= s@.len(),
    ensures
        r@ == s@.subrange(a as int, b as int),
{
    let mut r: Vec<char> = Vec::new();
    let mut i: usize = a;
    while i < b
        invariant
            a <= i <= b <= s@.len(),
            r@ == s@.subrange(a as int, i as int),
        decreases b - i,
    {
        r.push(s[i]);
        proof {
            assert(r@ =~= s@.subrange(a as int, i + 1));
        }
        i = i + 1;
    }
    r
}

/// Splits `s` on `sep`, as `str::split` does.
pub fn split_chars(s: &Vec<char>, sep: char) -> (r: Vec<Vec<char>>)
    ensures
        r@.map_values(|v: Vec<char>| v@) == spec_split(s@, sep),
    decreases s@.len(),
{
    proof {
        lemma_first_index(s@, sep);
    }
    match find_char_from(s, sep, 0) {
        None => {
            proof {
                assert(spec_first_index(s@, sep) == s@.len()) by {
                    lemma_first_index(s@, sep);
                    if spec_first_index(s@, sep) < s@.len() {
                        assert(s@[spec_first_index(s@, sep)] == sep);
                    }
                }
            }
            let r = vec![s.clone()];
            proof {
                assert(r@.map_values(|v: Vec<char>| v@) =~= seq![s@]);
            }
            r
        },
        Some(i) => {
            proof {
                assert(spec_first_index(s@, sep) == i as int) by {
                    lemma_first_index(s@, sep);
                    let fi = spec_first_index(s@, sep);
                    if fi < i as int {
                        assert(s@[fi] != sep);
                    }
                    if fi > i as int {
                        assert(s@[i as int] != sep);
                    }
                }
            }
            let n = s.len();
            let head = subvec(s, 0, i);
            let tail = subvec(s, i + 1, n);
            let mut rest = split_chars(&tail, sep);
            proof {
                assert(head@ =~= s@.take(i as int));
                assert(tail@ =~= s@.skip(i + 1));
            }
            let mut r: Vec<Vec<char>> = Vec::new();
            r.push(head);
            r.append(&mut rest);
            proof {
                assert(r@.map_values(|v: Vec<char>| v@) =~= spec_split(s@, sep));
            }
            r
        },
    }
}

/// Equality of two character vectors.
pub fn eq_chars(a: &Vec<char>, b: &Vec<char>) -> (r: bool)
    ensures
        r == (a@ == b@),
{
    let na = a.len();
    if na != b.len() {
        return false;
    }
    let mut i: usize = 0;
    while i < na
        invariant
            na == a@.len(),
            na == b@.len(),
            i <= na,
            forall|j: int| 0 <= j < i ==> a@[j] == b@[j],
        decreases na - i,
    {
        if a[i] != b[i] {
            return false;
        }
        i = i + 1;
    }
    proof {
        assert(a@ =~= b@);
    }
    true
}

/// The Unicode `White_Space` property, the set `char::is_whitespace` tests.
pub open spec fn spec_is_ws(c: char) -> bool {
    (0x09 <= c as u32 <= 0x0d) || c as u32 == 0x20 || c as u32 == 0x85 || c as u32 == 0xa0
        || c as u32 == 0x1680 || (0x2000 <= c as u32 <= 0x200a) || c as u32 == 0x2028
        || c as u32 == 0x2029 || c as u32 == 0x202f || c as u32 == 0x205f || c as u32 == 0x3000
}

/// Whether `c` is whitespace, per the Unicode `White_Space` list.
pub fn is_ws(c: char) -> (r: bool)
    ensures
        r == spec_is_ws(c),
{
    let u = c as u32;
    (0x09 <= u && u <= 0x0d) || u == 0x20 || u == 0x85 || u == 0xa0 || u == 0x1680 || (0x2000 <= u
        && u <= 0x200a) || u == 0x2028 || u == 0x2029 || u == 0x202f || u == 0x205f || u == 0x3000
}

pub open spec fn spec_trim_start(s: Seq<char>) -> Seq<char>
    decreases s.len(),
{
    if s.len() > 0 && spec_is_ws(s[0]) {
        spec_trim_start(s.skip(1))
    } else {
        s
    }
}

pub open spec fn spec_trim_end(s: Seq<char>) -> Seq<char>
    decreases s.len(),
{
    if s.len() > 0 && spec_is_ws(s.last()) {
        spec_trim_end(s.drop_last())
    } else {
        s
    }
}

/// What `str::trim` leaves: the input without leading and trailing whitespace.
pub open spec fn spec_trim(s: Seq<char>) -> Seq<char> {
    spec_trim_end(spec_trim_start(s))
}

proof fn lemma_trim_start_skip(s: Seq<char>, k: int)
    requires
        0 <= k <= s.len(),
        forall|j: int| 0 <= j < k ==> spec_is_ws(s[j]),
    ensures
        spec_trim_start(s) == spec_trim_start(s.skip(k)),
    decreases k,
{
    if k > 0 {
        assert(spec_is_ws(s[0]));
        assert(spec_trim_start(s) == spec_trim_start(s.skip(1)));
        assert forall|j: int| 0 <= j < k - 1 implies spec_is_ws(s.skip(1)[j]) by {
            assert(s.skip(1)[j] == s[j + 1]);
        }
        lemma_trim_start_skip(s.skip(1), k - 1);
        assert(s.skip(1).skip(k - 1) =~= s.skip(k));
    } else {
        assert(s.skip(0) =~= s);
    }
}

proof fn lemma_trim_end_take(s: Seq<char>, k: int)
    requires
        0 <= k <= s.len(),
        forall|j: int| k <= j < s.len() ==> spec_is_ws(s[j]),
    ensures
        spec_trim_end(s) == spec_trim_end(s.take(k)),
    decreases s.len() - k,
{
    if k < s.len() {
        assert(spec_is_ws(s.last()));
        assert(spec_trim_end(s) == spec_trim_end(s.drop_last()));
        lemma_trim_end_take(s.drop_last(), k);
        assert(s.drop_last().take(k) =~= s.take(k));
    } else {
        assert(s.take(k) =~= s);
    }
}

/// The trim bounds of `s`: the subrange `s[r.0 .. r.1]` is `spec_trim(s@)`.
pub fn trim_bounds(s: &Vec<char>) -> (r: (usize, usize))
    ensures
        r.0 <= r.1 <= s@.len(),
        s@.subrange(r.0 as int, r.1 as int) == spec_trim(s@),
{
    let n = s.len();
    let mut a: usize = 0;
    while a < n && is_ws(s[a])
        invariant
            n == s@.len(),
            a <= n,
            forall|j: int| 0 <= j < a ==> spec_is_ws(s@[j]),
        decreases n - a,
    {
        a = a + 1;
    }
    proof {
        lemma_trim_start_skip(s@, a as int);
    }
    if a == n {
        proof {
            assert(s@.skip(a as int) =~= Seq::<char>::empty());
            assert(spec_trim_start(s@) =~= Seq::<char>::empty());
            assert(s@.subrange(a as int, a as int) =~= spec_trim(s@));
        }
        return (a, a);
    }
    // s[a] is not whitespace, so trim_start(s) == s.skip(a) and it is non-empty.
    proof {
        assert(spec_trim_start(s@) == s@.skip(a as int));
    }
    let mut b: usize = n;
    while b > a && is_ws(s[b - 1])
        invariant
            n == s@.len(),
            a <= b <= n,
            forall|j: int| b <= j < n ==> spec_is_ws(s@[j]),
        decreases b,
    {
        b = b - 1;
    }
    // s[b-1] is not whitespace (b > a here since s[a] is not whitespace).
    proof {
        let t = s@.skip(a as int);
        assert forall|j: int| (b - a) <= j < t.len() implies spec_is_ws(t[j]) by {
            assert(t[j] == s@[a + j]);
        }
        lemma_trim_end_take(t, b - a);
        assert(t.take(b - a) =~= s@.subrange(a as int, b as int));
        if (b - a) < t.len() {
        }
        assert(spec_trim_end(t.take(b - a)) == t.take(b - a)) by {
            let u = t.take(b - a);
            if u.len() > 0 && spec_is_ws(u.last()) {
                assert(u.last() == s@[b - 1]);
                assert(b > a);
            }
        }
        assert(s@.subrange(a as int, b as int) == spec_trim(s@));
    }
    (a, b)
}

/// A copy of `s` without leading and trailing whitespace.
pub fn trim_vec(s: &Vec<char>) -> (r: Vec<char>)
    ensures
        r@ == spec_trim(s@),
{
    let (a, b) = trim_bounds(s);
    subvec(s, a, b)
}

pub open spec fn spec_is_digit(c: char) -> bool {
    0x30 <= c as u32 <= 0x39
}

pub open spec fn spec_digit_val(c: char) -> int {
    c as u32 - 0x30
}

pub open spec fn spec_all_digits(s: Seq<char>) -> bool {
    forall|i: int| 0 <= i < s.len() ==> spec_is_digit(s[i])
}

/// The value of a decimal digit string, most significant first.
pub open spec fn spec_digits_val(s: Seq<char>) -> int
    decreases s.len(),
{
    if s.len() == 0 {
        0
    } else {
        spec_digits_val(s.drop_last()) * 10 + spec_digit_val(s.last())
    }
}

/// What `str::parse::<u32>` accepts: an optional leading `+`, then one or
/// more decimal digits, with a value that fits in `u32`.
pub open spec fn spec_parse_u32(s: Seq<char>) -> Option<u32> {
    let body = if s.len() >= 1 && s[0] == '+' {
        s.skip(1)
    } else {
        s
    };
    if body.len() == 0 || !spec_all_digits(body) {
        None
    } else if spec_digits_val(body) > u32::MAX {
        None
    } else {
        Some(spec_digits_val(body) as u32)
    }
}

proof fn lemma_digits_val_nonneg(s: Seq<char>)
    requires
        spec_all_digits(s),
    ensures
        spec_digits_val(s) >= 0,
    decreases s.len(),
{
    if s.len() > 0 {
        assert(spec_all_digits(s.drop_last()));
        lemma_digits_val_nonneg(s.drop_last());
        assert(spec_is_digit(s.last()));
    }
}

proof fn lemma_digits_val_prefix_mono(s: Seq<char>, k: int)
    requires
        spec_all_digits(s),
        0 <= k <= s.len(),
    ensures
        spec_digits_val(s) >= spec_digits_val(s.take(k)),
    decreases s.len() - k,
{
    if k < s.len() {
        lemma_digits_val_prefix_mono(s, k + 1);
        let t = s.take(k + 1);
        assert(t.drop_last() =~= s.take(k));
        assert(spec_all_digits(t.take(k)));
        lemma_digits_val_nonneg(s.take(k));
        assert(spec_is_digit(t.last()));
        assert(spec_digits_val(t) == spec_digits_val(s.take(k)) * 10 + spec_digit_val(t.last()));
    } else {
        assert(s.take(k) =~= s);
    }
}

/// Parses a decimal `u32` from `v`, as `str::parse::<u32>` does: an
/// optional leading `+`, then digits; `None` on anything else or overflow.
pub fn parse_u32_chars(v: &Vec<char>) -> (r: Option<u32>)
    ensures
        r == spec_parse_u32(v@),
{
    let n = v.len();
    let start: usize = if n >= 1 && v[0] == '+' {
        1
    } else {
        0
    };
    let ghost body = if v@.len() >= 1 && v@[0] == '+' {
        v@.skip(1)
    } else {
        v@
    };
    proof {
        assert(body =~= v@.subrange(start as int, n as int));
    }
    if start == n {
        return None;
    }
    let mut acc: u32 = 0;
    let mut i: usize = start;
    while i < n
        invariant
            n == v@.len(),
            start <= i <= n,
            start < n,
            body == v@.subrange(start as int, n as int),
            body == (if v@.len() >= 1 && v@[0] == '+' {
                v@.skip(1)
            } else {
                v@
            }),
            spec_all_digits(body.take(i - start)),
            acc == spec_digits_val(body.take(i - start)),
        decreases n - i,
    {
        let c = v[i];
        let u = c as u32;
        if !(0x30 <= u && u <= 0x39) {
            proof {
                assert(body[i - start] == v@[i as int]);
                assert(!spec_all_digits(body));
            }
            return None;
        }
        let d = u - 0x30;
        let wide: u64 = (acc as u64) * 10 + (d as u64);
        proof {
            let t = body.take(i - start + 1);
            assert(t.drop_last() =~= body.take(i - start));
            assert(spec_is_digit(body[i - start]));
            assert(spec_all_digits(t));
            assert(spec_digits_val(t) == acc * 10 + d);
        }
        if wide > u32::MAX as u64 {
            // The value overflows u32; any completion of the digits only grows it.
            proof {
                if spec_all_digits(body) {
                    lemma_digits_val_prefix_mono(body, i - start + 1);
                }
            }
            return None;
        }
        acc = wide as u32;
        i = i + 1;
    }
    proof {
        assert(body.take(n - start) =~= body);
    }
    Some(acc)
}

/// Strict lexicographic order on character sequences, by code point. For
/// UTF-8 encoded strings this coincides with Rust's byte-wise `str` order.
pub open spec fn spec_lex_lt(a: Seq<char>, b: Seq<char>) -> bool
    decreases a.len(),
{
    if b.len() == 0 {
        false
    } else if a.len() == 0 {
        true
    } else if (a[0] as u32) < (b[0] as u32) {
        true
    } else if a[0] != b[0] {
        false
    } else {
        spec_lex_lt(a.skip(1), b.skip(1))
    }
}

pub open spec fn spec_lex_le(a: Seq<char>, b: Seq<char>) -> bool {
    spec_lex_lt(a, b) || a == b
}

/// Whether `a` sorts strictly before `b`, as `str`'s own order does.
pub fn str_lt(a: &str, b: &str) -> (r: bool)
    ensures
        r == spec_lex_lt(a@, b@),
{
    let va = chars_vec(a);
    let vb = chars_vec(b);
    let na = va.len();
    let nb = vb.len();
    let mut i: usize = 0;
    proof {
        assert(a@.skip(0) =~= a@);
        assert(b@.skip(0) =~= b@);
    }
    loop
        invariant
            na == a@.len(),
            nb == b@.len(),
            va@ == a@,
            vb@ == b@,
            i <= na,
            i <= nb,
            forall|j: int| 0 <= j < i ==> a@[j] == b@[j],
            spec_lex_lt(a@, b@) == spec_lex_lt(a@.skip(i as int), b@.skip(i as int)),
        decreases na - i,
    {
        if i >= nb {
            // b is a prefix of a (or equal): not strictly less.
            proof {
                assert(b@.skip(i as int) =~= Seq::<char>::empty());
            }
            return false;
        }
        if i >= na {
            // a is a strict prefix of b.
            proof {
                assert(a@.skip(i as int) =~= Seq::<char>::empty());
            }
            return true;
        }
        let ca = va[i];
        let cb = vb[i];
        if (ca as u32) < (cb as u32) {
            return true;
        }
        if ca != cb {
            proof {
                assert(!spec_lex_lt(a@.skip(i as int), b@.skip(i as int)));
            }
            return false;
        }
        proof {
            assert(a@.skip(i as int).skip(1) =~= a@.skip(i + 1));
            assert(b@.skip(i as int).skip(1) =~= b@.skip(i + 1));
        }
        i = i + 1;
    }
}

/// Non-strict version of [`str_lt`].
pub fn str_le(a: &str, b: &str) -> (r: bool)
    ensures
        r == spec_lex_le(a@, b@),
{
    if str_eq(a, b) {
        true
    } else {
        str_lt(a, b)
    }
}

/// `p` is a suffix of `s`.
pub open spec fn spec_ends_with(s: Seq<char>, p: Seq<char>) -> bool {
    p.len() <= s.len() && s.subrange(s.len() - p.len(), s.len() as int) == p
}

/// Whether `s` ends with `p`, as `str::ends_with` does.
pub fn ends_with_chars(s: &Vec<char>, p: &Vec<char>) -> (r: bool)
    ensures
        r == spec_ends_with(s@, p@),
{
    let ns = s.len();
    let np = p.len();
    if np > ns {
        return false;
    }
    let mut j: usize = 0;
    while j < np
        invariant
            ns == s@.len(),
            np == p@.len(),
            np <= ns,
            j <= np,
            forall|k: int| 0 <= k < j ==> s@[ns - np + k] == p@[k],
        decreases np - j,
    {
        if s[ns - np + j] != p[j] {
            proof {
                assert(s@.subrange(ns - np, ns as int)[j as int] != p@[j as int]);
            }
            return false;
        }
        j = j + 1;
    }
    proof {
        assert(s@.subrange(ns - np, ns as int) =~= p@);
    }
    true
}

/// What `str::trim_start_matches` leaves: `s` with every leading copy of
/// `p` removed.
pub open spec fn spec_strip_prefix_rep(s: Seq<char>, p: Seq<char>) -> Seq<char>
    decreases s.len(),
{
    if p.len() > 0 && p.len() <= s.len() && s.take(p.len() as int) == p {
        spec_strip_prefix_rep(s.skip(p.len() as int), p)
    } else {
        s
    }
}

/// Whether `s` starts with `p` at offset `at`.
fn starts_with_at(s: &Vec<char>, p: &Vec<char>, at: usize) -> (r: bool)
    requires
        at <= s@.len(),
    ensures
        r == (p@.len() + at <= s@.len() && s@.skip(at as int).take(p@.len() as int) == p@),
{
    let ns = s.len();
    let np = p.len();
    if np > ns - at {
        return false;
    }
    let mut j: usize = 0;
    while j < np
        invariant
            ns == s@.len(),
            np == p@.len(),
            at + np <= ns,
            j <= np,
            forall|k: int| 0 <= k < j ==> s@[at + k] == p@[k],
        decreases np - j,
    {
        if s[at + j] != p[j] {
            proof {
                assert(s@.skip(at as int).take(np as int)[j as int] != p@[j as int]);
            }
            return false;
        }
        j = j + 1;
    }
    proof {
        assert(s@.skip(at as int).take(np as int) =~= p@);
    }
    true
}

/// The index at which `s` remains after stripping every leading copy of
/// `p`: `s[r..]` is `spec_strip_prefix_rep(s@, p@)`.
pub fn strip_prefix_rep_index(s: &Vec<char>, p: &Vec<char>) -> (r: usize)
    ensures
        r <= s@.len(),
        s@.skip(r as int) == spec_strip_prefix_rep(s@, p@),
{
    let np = p.len();
    if np == 0 {
        proof {
            assert(s@.skip(0) =~= s@);
        }
        return 0;
    }
    let n = s.len();
    let mut at: usize = 0;
    proof {
        assert(s@.skip(0) =~= s@);
    }
    while starts_with_at(s, p, at)
        invariant
            n == s@.len(),
            np == p@.len(),
            np > 0,
            at <= s@.len(),
            spec_strip_prefix_rep(s@, p@) == spec_strip_prefix_rep(s@.skip(at as int), p@),
        decreases s@.len() - at,
    {
        proof {
            let t = s@.skip(at as int);
            assert(spec_strip_prefix_rep(t, p@) == spec_strip_prefix_rep(t.skip(np as int), p@));
            assert(t.skip(np as int) =~= s@.skip(at + np));
        }
        at = at + np;
    }
    proof {
        let t = s@.skip(at as int);
        if p@.len() <= t.len() && t.take(p@.len() as int) == p@ {
            assert(false);
        }
        assert(spec_strip_prefix_rep(t, p@) == t);
    }
    at
}

/// The UTF-8 encoded length of one character.
pub open spec fn spec_char_utf8_len(c: char) -> int {
    if (c as u32) < 0x80 {
        1
    } else if (c as u32) < 0x800 {
        2
    } else if (c as u32) < 0x10000 {
        3
    } else {
        4
    }
}

/// The UTF-8 encoded length of a character sequence: what `str::len` counts.
pub open spec fn spec_utf8_len(s: Seq<char>) -> int
    decreases s.len(),
{
    if s.len() == 0 {
        0
    } else {
        spec_utf8_len(s.drop_last()) + spec_char_utf8_len(s.last())
    }
}

proof fn lemma_utf8_len_bounds(s: Seq<char>)
    ensures
        s.len() <= spec_utf8_len(s) <= 4 * s.len(),
    decreases s.len(),
{
    if s.len() > 0 {
        lemma_utf8_len_bounds(s.drop_last());
    }
}

/// Whether the UTF-8 byte length of `v` exceeds `limit`.
pub fn utf8_len_exceeds(v: &Vec<char>, limit: usize) -> (r: bool)
    requires
        limit <= 1_000_000,
    ensures
        r == (spec_utf8_len(v@) > limit),
{
    let n = v.len();
    let mut acc: usize = 0;
    let mut i: usize = 0;
    while i < n
        invariant
            n == v@.len(),
            i <= n,
            limit <= 1_000_000,
            acc == spec_utf8_len(v@.take(i as int)),
            acc <= limit,
        decreases n - i,
    {
        let c = v[i];
        let u = c as u32;
        let w: usize = if u < 0x80 {
            1
        } else if u < 0x800 {
            2
        } else if u < 0x10000 {
            3
        } else {
            4
        };
        proof {
            let t = v@.take(i + 1);
            assert(t.drop_last() =~= v@.take(i as int));
            assert(spec_utf8_len(t) == acc + w);
        }
        acc = acc + w;
        i = i + 1;
        if acc > limit {
            proof {
                lemma_utf8_len_bounds(v@);
                assert(spec_utf8_len(v@) >= spec_utf8_len(v@.take(i as int))) by {
                    lemma_utf8_suffix_mono(v@, i as int);
                }
            }
            return true;
        }
    }
    proof {
        assert(v@.take(n as int) =~= v@);
    }
    false
}

proof fn lemma_utf8_suffix_mono(s: Seq<char>, k: int)
    requires
        0 <= k <= s.len(),
    ensures
        spec_utf8_len(s) >= spec_utf8_len(s.take(k)),
    decreases s.len() - k,
{
    if k < s.len() {
        lemma_utf8_suffix_mono(s, k + 1);
        let t = s.take(k + 1);
        assert(t.drop_last() =~= s.take(k));
        assert(spec_char_utf8_len(t.last()) >= 1);
    } else {
        assert(s.take(k) =~= s);
    }
}

} // verus!
