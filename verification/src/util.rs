//! Verified text utilities: decimal rendering of counters, substring search
//! (exact and ASCII-case-folding), whitespace trimming, and line-oriented
//! extraction of labelled values from reports.

use vstd::prelude::*;
use vstd::string::StringExecFns;

verus! {

/// The character for one decimal digit.
pub open spec fn digit_char(d: nat) -> char {
    if d == 0 {
        '0'
    } else if d == 1 {
        '1'
    } else if d == 2 {
        '2'
    } else if d == 3 {
        '3'
    } else if d == 4 {
        '4'
    } else if d == 5 {
        '5'
    } else if d == 6 {
        '6'
    } else if d == 7 {
        '7'
    } else if d == 8 {
        '8'
    } else {
        '9'
    }
}

/// The decimal digits of `n`, most significant first, with no leading zeros
/// (`0` itself is rendered as the single digit `0`).
pub open spec fn dec_digits(n: nat) -> Seq<char>
    decreases n,
{
    if n < 10 {
        seq![digit_char(n)]
    } else {
        dec_digits(n / 10).push(digit_char(n % 10))
    }
}

fn digit_str(d: u64) -> (r: &'static str)
    requires
        d < 10,
    ensures
        r@ == seq![digit_char(d as nat)],
{
    proof {
        reveal_strlit("0");
        reveal_strlit("1");
        reveal_strlit("2");
        reveal_strlit("3");
        reveal_strlit("4");
        reveal_strlit("5");
        reveal_strlit("6");
        reveal_strlit("7");
        reveal_strlit("8");
        reveal_strlit("9");
    }
    let r = if d == 0 {
        "0"
    } else if d == 1 {
        "1"
    } else if d == 2 {
        "2"
    } else if d == 3 {
        "3"
    } else if d == 4 {
        "4"
    } else if d == 5 {
        "5"
    } else if d == 6 {
        "6"
    } else if d == 7 {
        "7"
    } else if d == 8 {
        "8"
    } else {
        "9"
    };
    proof {
        assert(r@ =~= seq![digit_char(d as nat)]);
    }
    r
}

/// Renders `n` in decimal.
pub fn u64_to_string(n: u64) -> (s: String)
    ensures
        s@ == dec_digits(n as nat),
    decreases n,
{
    if n < 10 {
        String::from_str(digit_str(n))
    } else {
        let mut s = u64_to_string(n / 10);
        s.append(digit_str(n % 10));
        proof {
            assert(s@ =~= dec_digits(n as nat));
        }
        s
    }
}

/// The text recorded as the reason of a failover triggered by `n`
/// back-to-back probe failures.
pub open spec fn failure_reason(n: nat) -> Seq<char> {
    dec_digits(n) + " consecutive failures"@
}

/// Renders the failover reason for `n` consecutive failures.
pub fn failure_reason_string(n: u64) -> (s: String)
    ensures
        s@ == failure_reason(n as nat),
{
    let mut s = u64_to_string(n);
    s.append(" consecutive failures");
    s
}

/// `t` occurs in `s` starting at position `i`.
pub open spec fn matches_at(s: Seq<char>, t: Seq<char>, i: int) -> bool {
    &&& 0 <= i
    &&& i + t.len() <= s.len()
    &&& forall|j: int| 0 <= j < t.len() ==> s[i + j] == #[trigger] t[j]
}

/// `t` occurs somewhere in `s`.
pub open spec fn str_has(s: Seq<char>, t: Seq<char>) -> bool {
    exists|i: int| matches_at(s, t, i)
}

/// The code point of `c` with an ASCII capital letter folded to lower case.
pub open spec fn lower_code(c: char) -> int {
    if 65 <= c as int <= 90 {
        c as int + 32
    } else {
        c as int
    }
}

/// `t` occurs in `s` at position `i`, comparing ASCII letters without case.
pub open spec fn matches_ci_at(s: Seq<char>, t: Seq<char>, i: int) -> bool {
    &&& 0 <= i
    &&& i + t.len() <= s.len()
    &&& forall|j: int| 0 <= j < t.len() ==> lower_code(s[i + j]) == lower_code(#[trigger] t[j])
}

/// `t` occurs somewhere in `s`, comparing ASCII letters without case.
pub open spec fn str_has_ci(s: Seq<char>, t: Seq<char>) -> bool {
    exists|i: int| matches_ci_at(s, t, i)
}

fn chars_eq_ci(a: char, b: char) -> (r: bool)
    ensures
        r == (lower_code(a) == lower_code(b)),
{
    let av = a as u32;
    let bv = b as u32;
    let al = if 65 <= av && av <= 90 {
        av + 32
    } else {
        av
    };
    let bl = if 65 <= bv && bv <= 90 {
        bv + 32
    } else {
        bv
    };
    al == bl
}

/// Whether `needle` occurs in `haystack`.
pub fn string_contains(haystack: &str, needle: &str) -> (r: bool)
    ensures
        r == str_has(haystack@, needle@),
{
    let n = haystack.unicode_len();
    let m = needle.unicode_len();
    if m > n {
        return false;
    }
    let mut i: usize = 0;
    while i <= n - m
        invariant
            m <= n,
            n == haystack@.len(),
            m == needle@.len(),
            i <= n - m + 1,
            forall|p: int| 0 <= p < i ==> !matches_at(haystack@, needle@, p),
        decreases n - m + 1 - i,
    {
        let mut j: usize = 0;
        let mut hit = true;
        while j < m
            invariant
                m <= n,
                n == haystack@.len(),
                m == needle@.len(),
                i <= n - m,
                j <= m,
                hit ==> forall|q: int| 0 <= q < j ==> haystack@[i + q] == #[trigger] needle@[q],
                !hit ==> !matches_at(haystack@, needle@, i as int),
            decreases m - j,
        {
            if haystack.get_char(i + j) != needle.get_char(j) {
                proof {
                    assert(haystack@[i as int + j as int] != needle@[j as int]);
                    assert(!matches_at(haystack@, needle@, i as int));
                }
                hit = false;
                j = m;
            } else {
                proof {
                    if hit {
                        assert forall|q: int|
                            0 <= q < j + 1 implies haystack@[i + q] == #[trigger] needle@[q] by {
                        }
                    }
                }
                j = j + 1;
            }
        }
        if hit {
            assert(matches_at(haystack@, needle@, i as int));
            return true;
        }
        i = i + 1;
    }
    proof {
        assert forall|p: int| !matches_at(haystack@, needle@, p) by {
            if 0 <= p && p + needle@.len() <= haystack@.len() {
                assert(p < i);
            }
        }
    }
    false
}

/// Whether `prefix` opens `s`, folding ASCII letters to lower case on both
/// sides before comparing.
pub fn starts_with_ci(s: &str, prefix: &str) -> (r: bool)
    ensures
        r == matches_ci_at(s@, prefix@, 0),
{
    let n = s.unicode_len();
    let m = prefix.unicode_len();
    if m > n {
        return false;
    }
    let mut j: usize = 0;
    while j < m
        invariant
            m <= n,
            n == s@.len(),
            m == prefix@.len(),
            j <= m,
            forall|q: int| 0 <= q < j ==> lower_code(s@[q]) == lower_code(#[trigger] prefix@[q]),
        decreases m - j,
    {
        if !chars_eq_ci(s.get_char(j), prefix.get_char(j)) {
            assert(!matches_ci_at(s@, prefix@, 0));
            return false;
        }
        j = j + 1;
    }
    assert(matches_ci_at(s@, prefix@, 0));
    true
}

/// Whether `needle` occurs in `haystack`, folding ASCII letters to lower
/// case on both sides before comparing.
pub fn string_contains_ci(haystack: &str, needle: &str) -> (r: bool)
    ensures
        r == str_has_ci(haystack@, needle@),
{
    let n = haystack.unicode_len();
    let m = needle.unicode_len();
    if m > n {
        return false;
    }
    let mut i: usize = 0;
    while i <= n - m
        invariant
            m <= n,
            n == haystack@.len(),
            m == needle@.len(),
            i <= n - m + 1,
            forall|p: int| 0 <= p < i ==> !matches_ci_at(haystack@, needle@, p),
        decreases n - m + 1 - i,
    {
        let mut j: usize = 0;
        let mut hit = true;
        while j < m
            invariant
                m <= n,
                n == haystack@.len(),
                m == needle@.len(),
                i <= n - m,
                j <= m,
                hit ==> forall|q: int|
                    0 <= q < j ==> lower_code(haystack@[i + q]) == lower_code(#[trigger] needle@[q]),
                !hit ==> !matches_ci_at(haystack@, needle@, i as int),
            decreases m - j,
        {
            if !chars_eq_ci(haystack.get_char(i + j), needle.get_char(j)) {
                proof {
                    assert(lower_code(haystack@[i as int + j as int]) != lower_code(
                        needle@[j as int]));
                    assert(!matches_ci_at(haystack@, needle@, i as int));
                }
                hit = false;
                j = m;
            } else {
                proof {
                    if hit {
                        assert forall|q: int|
                            0 <= q < j + 1 implies lower_code(haystack@[i + q]) == lower_code(
                            #[trigger] needle@[q]) by {
                        }
                    }
                }
                j = j + 1;
            }
        }
        if hit {
            assert(matches_ci_at(haystack@, needle@, i as int));
            return true;
        }
        i = i + 1;
    }
    proof {
        assert forall|p: int| !matches_ci_at(haystack@, needle@, p) by {
            if 0 <= p && p + needle@.len() <= haystack@.len() {
                assert(p < i);
            }
        }
    }
    false
}


/// ASCII whitespace: what gets trimmed off reported values.
pub open spec fn is_space(c: char) -> bool {
    c == ' ' || c == '\t' || c == '\r' || c == '\n'
}

/// The first position at or after `i` where `c` occurs in `s`, or the length
/// when it does not (positions outside the text also yield the length).
pub open spec fn find_from(s: Seq<char>, i: int, c: char) -> int
    decreases s.len() - i,
{
    if 0 <= i < s.len() {
        if s[i] == c {
            i
        } else {
            find_from(s, i + 1, c)
        }
    } else {
        s.len() as int
    }
}

/// What `find_from` promises: a position in range before which `c` does not
/// occur, carrying `c` itself unless it is the length.
pub proof fn lemma_find_from(s: Seq<char>, i: int, c: char)
    requires
        0 <= i <= s.len(),
    ensures
        i <= find_from(s, i, c) <= s.len(),
        forall|j: int| i <= j < find_from(s, i, c) ==> s[j] != c,
        find_from(s, i, c) < s.len() ==> s[find_from(s, i, c)] == c,
    decreases s.len() - i,
{
    if i < s.len() && s[i] != c {
        lemma_find_from(s, i + 1, c);
    }
}

/// Finds the first `c` at or after `from`; the length when there is none.
pub fn find_char(s: &str, from: usize, c: char) -> (r: usize)
    requires
        from <= s@.len(),
    ensures
        r == find_from(s@, from as int, c),
        from <= r <= s@.len(),
{
    proof {
        lemma_find_from(s@, from as int, c);
    }
    let n = s.unicode_len();
    let mut i = from;
    while i < n
        invariant
            n == s@.len(),
            from <= i <= n,
            find_from(s@, from as int, c) == find_from(s@, i as int, c),
        decreases n - i,
    {
        if s.get_char(i) == c {
            return i;
        }
        i = i + 1;
    }
    n
}

/// Position of the first non-space character at or after `i`; the length
/// when everything from `i` on is space.
pub open spec fn first_nonspace(s: Seq<char>, i: int) -> int
    decreases s.len() - i,
{
    if 0 <= i < s.len() {
        if is_space(s[i]) {
            first_nonspace(s, i + 1)
        } else {
            i
        }
    } else {
        s.len() as int
    }
}

/// One past the last non-space character strictly before `i`; zero when
/// everything before `i` is space.
pub open spec fn last_nonspace_end(s: Seq<char>, i: int) -> int
    decreases i,
{
    if 0 < i <= s.len() {
        if is_space(s[i - 1]) {
            last_nonspace_end(s, i - 1)
        } else {
            i
        }
    } else {
        0
    }
}

/// `s` with ASCII whitespace removed from both ends.
pub open spec fn trim_view(s: Seq<char>) -> Seq<char> {
    let a = first_nonspace(s, 0);
    let b = last_nonspace_end(s, s.len() as int);
    if a < b {
        s.subrange(a, b)
    } else {
        Seq::empty()
    }
}

fn is_space_char(c: char) -> (r: bool)
    ensures
        r == is_space(c),
{
    c == ' ' || c == '\t' || c == '\r' || c == '\n'
}

/// One past the last non-space position never exceeds where the scan began.
proof fn lemma_last_nonspace_end_le(s: Seq<char>, i: int)
    requires
        0 <= i <= s.len(),
    ensures
        0 <= last_nonspace_end(s, i) <= i,
    decreases i,
{
    if 0 < i && is_space(s[i - 1]) {
        lemma_last_nonspace_end_le(s, i - 1);
    }
}

/// Trims ASCII whitespace from both ends.
pub fn trim_str<'a>(s: &'a str) -> (r: &'a str)
    ensures
        r@ == trim_view(s@),
{
    let n = s.unicode_len();
    let mut a: usize = 0;
    while a < n && is_space_char(s.get_char(a))
        invariant
            n == s@.len(),
            a <= n,
            first_nonspace(s@, 0) == first_nonspace(s@, a as int),
        decreases n - a,
    {
        a = a + 1;
    }
    proof {
        if (a as int) < s@.len() {
            assert(!is_space(s@[a as int]));
            assert(first_nonspace(s@, a as int) == a);
        } else {
            assert(first_nonspace(s@, a as int) == s@.len());
        }
    }
    let mut b: usize = n;
    while b > a && is_space_char(s.get_char(b - 1))
        invariant
            n == s@.len(),
            a <= b <= n,
            first_nonspace(s@, 0) == a,
            last_nonspace_end(s@, n as int) == last_nonspace_end(s@, b as int),
        decreases b,
    {
        b = b - 1;
    }
    let r = s.substring_char(a, b);
    proof {
        if b > a {
            assert(!is_space(s@[b as int - 1]));
            assert(last_nonspace_end(s@, b as int) == b);
            assert(r@ =~= trim_view(s@));
        } else {
            lemma_last_nonspace_end_le(s@, b as int);
            assert(last_nonspace_end(s@, n as int) <= a);
            assert(r@ =~= trim_view(s@));
        }
    }
    r
}

/// One past the last character before `i` that is not a colon.
pub open spec fn last_noncolon_end(s: Seq<char>, i: int) -> int
    decreases i,
{
    if 0 < i <= s.len() {
        if s[i - 1] == ':' {
            last_noncolon_end(s, i - 1)
        } else {
            i
        }
    } else {
        0
    }
}

/// A search key with any trailing colons removed.
pub open spec fn key_clean_view(key: Seq<char>) -> Seq<char> {
    key.subrange(0, last_noncolon_end(key, key.len() as int))
}

/// Strips trailing colons off a search key.
pub fn key_clean(key: &str) -> (r: &str)
    ensures
        r@ == key_clean_view(key@),
{
    let n = key.unicode_len();
    let mut e: usize = n;
    while e > 0 && key.get_char(e - 1) == ':'
        invariant
            n == key@.len(),
            e <= n,
            last_noncolon_end(key@, n as int) == last_noncolon_end(key@, e as int),
        decreases e,
    {
        e = e - 1;
    }
    let r = key.substring_char(0, e);
    proof {
        assert(r@ =~= key_clean_view(key@));
    }
    r
}


/// The views of a list of search keys.
pub open spec fn keys_view(ks: Seq<&str>) -> Seq<Seq<char>> {
    Seq::new(ks.len(), |i: int| ks[i]@)
}

/// How one search key matches one trimmed line: a short key (under 15
/// characters once trailing colons are stripped) must open the line, a longer
/// one may occur anywhere in it; ASCII letters compare without case.
pub open spec fn key_matches_line(lt: Seq<char>, key: Seq<char>) -> bool {
    let k = key_clean_view(key);
    if k.len() < 15 {
        matches_ci_at(lt, k, 0)
    } else {
        str_has_ci(lt, k)
    }
}

/// The text between a line's first colon and its second (or its end):
/// nothing when the line has no colon at all.
pub open spec fn colon_field_of(lt: Seq<char>) -> Option<Seq<char>> {
    let p1 = find_from(lt, 0, ':');
    if p1 >= lt.len() {
        None
    } else {
        Some(lt.subrange(p1 + 1, find_from(lt, p1 + 1, ':')))
    }
}

/// The value one line contributes: present when some key matches the trimmed
/// line and the trimmed text after its colon is nonempty.
pub open spec fn line_value(line: Seq<char>, keys: Seq<Seq<char>>) -> Option<Seq<char>> {
    let lt = trim_view(line);
    if exists|k: int| 0 <= k < keys.len() && key_matches_line(lt, #[trigger] keys[k]) {
        match colon_field_of(lt) {
            Some(raw) => {
                let v = trim_view(raw);
                if v.len() > 0 {
                    Some(v)
                } else {
                    None
                }
            },
            None => None,
        }
    } else {
        None
    }
}

/// The value the first contributing line of `text` yields, scanning lines
/// split at newlines in order; `unknown` when no line contributes.
pub open spec fn extracted_value(text: Seq<char>, keys: Seq<Seq<char>>) -> Seq<char>
    decreases text.len(),
{
    let p = find_from(text, 0, '\n');
    if 0 <= p < text.len() {
        match line_value(text.subrange(0, p), keys) {
            Some(v) => v,
            None => extracted_value(text.subrange(p + 1, text.len() as int), keys),
        }
    } else {
        match line_value(text, keys) {
            Some(v) => v,
            None => "unknown"@,
        }
    }
}

/// Searching a suffix is searching the whole text from the cut, shifted.
pub proof fn lemma_find_from_shift(s: Seq<char>, start: int, i: int, c: char)
    requires
        0 <= start,
        0 <= i,
        start + i <= s.len(),
    ensures
        find_from(s.subrange(start, s.len() as int), i, c) == find_from(s, start + i, c) - start,
    decreases s.len() - start - i,
{
    let sub = s.subrange(start, s.len() as int);
    if start + i < s.len() {
        assert(sub[i] == s[start + i]);
        if s[start + i] != c {
            lemma_find_from_shift(s, start, i + 1, c);
        }
    }
}


/// The first position at or after `i` where `t` occurs in `s`; the length of
/// `s` when it does not.
pub open spec fn find_sub_from(s: Seq<char>, t: Seq<char>, i: int) -> int
    decreases s.len() - i,
{
    if 0 <= i && i + t.len() <= s.len() {
        if matches_at(s, t, i) {
            i
        } else {
            find_sub_from(s, t, i + 1)
        }
    } else {
        s.len() as int
    }
}

/// What `find_sub_from` promises: a position in range before which `t` does
/// not occur, and an occurrence of `t` unless it is the length.
pub proof fn lemma_find_sub_from(s: Seq<char>, t: Seq<char>, i: int)
    requires
        0 <= i <= s.len(),
    ensures
        i <= find_sub_from(s, t, i) <= s.len(),
        forall|j: int| i <= j < find_sub_from(s, t, i) ==> !matches_at(s, t, j),
        find_sub_from(s, t, i) < s.len() ==> matches_at(s, t, find_sub_from(s, t, i)),
    decreases s.len() - i,
{
    if i + t.len() <= s.len() && !matches_at(s, t, i) {
        lemma_find_sub_from(s, t, i + 1);
    } else {
        assert forall|j: int| i <= j < find_sub_from(s, t, i) implies !matches_at(s, t, j) by {
            if matches_at(s, t, j) {
                assert(j + t.len() <= s.len());
            }
        }
    }
}

/// Finds the first occurrence of `needle` in `haystack`; the length of
/// `haystack` when there is none.
pub fn find_substring(haystack: &str, needle: &str) -> (r: usize)
    ensures
        r == find_sub_from(haystack@, needle@, 0),
        r <= haystack@.len(),
{
    proof {
        lemma_find_sub_from(haystack@, needle@, 0);
    }
    let n = haystack.unicode_len();
    let m = needle.unicode_len();
    if m > n {
        return n;
    }
    let mut i: usize = 0;
    while i <= n - m
        invariant
            m <= n,
            n == haystack@.len(),
            m == needle@.len(),
            i <= n - m + 1,
            forall|p: int| 0 <= p < i ==> !matches_at(haystack@, needle@, p),
        decreases n - m + 1 - i,
    {
        let mut j: usize = 0;
        let mut hit = true;
        while j < m
            invariant
                m <= n,
                n == haystack@.len(),
                m == needle@.len(),
                i <= n - m,
                j <= m,
                hit ==> forall|q: int| 0 <= q < j ==> haystack@[i + q] == #[trigger] needle@[q],
                !hit ==> !matches_at(haystack@, needle@, i as int),
            decreases m - j,
        {
            if haystack.get_char(i + j) != needle.get_char(j) {
                proof {
                    assert(haystack@[i as int + j as int] != needle@[j as int]);
                    assert(!matches_at(haystack@, needle@, i as int));
                }
                hit = false;
                j = m;
            } else {
                proof {
                    if hit {
                        assert forall|q: int|
                            0 <= q < j + 1 implies haystack@[i + q] == #[trigger] needle@[q] by {
                        }
                    }
                }
                j = j + 1;
            }
        }
        if hit {
            proof {
                assert(matches_at(haystack@, needle@, i as int));
                lemma_find_sub_from(haystack@, needle@, 0);
                let f = find_sub_from(haystack@, needle@, 0);
                if f < i {
                    assert(matches_at(haystack@, needle@, f));
                    assert(false);
                }
                if f > i as int {
                    assert(!matches_at(haystack@, needle@, i as int));
                    assert(false);
                }
            }
            return i;
        }
        i = i + 1;
    }
    proof {
        assert forall|p: int| !matches_at(haystack@, needle@, p) by {
            if 0 <= p && p + needle@.len() <= haystack@.len() {
                assert(p < i);
            }
        }
        let f = find_sub_from(haystack@, needle@, 0);
        if f < haystack@.len() {
            assert(matches_at(haystack@, needle@, f));
            assert(false);
        }
    }
    n
}

} // verus!
