//! Verified string primitives: substring search (case-sensitive and
//! ASCII-case-insensitive), trimming, splitting, line iteration, and
//! signed decimal parsing. All results are pinned to spec functions
//! over `Seq<char>`.

use vstd::prelude::*;

verus! {

/// `pat` occurs in `s` starting at position `i`.
pub open spec fn spec_match_at(s: Seq<char>, pat: Seq<char>, i: int) -> bool {
    0 <= i && i + pat.len() <= s.len() && s.subrange(i, i + pat.len() as int) == pat
}

/// `pat` occurs somewhere in `s`.
pub open spec fn spec_contains(s: Seq<char>, pat: Seq<char>) -> bool {
    exists|i: int| spec_match_at(s, pat, i)
}

/// Compares the characters of `s` at offset `i` against all of `pat`.
fn match_at(s: &str, i: usize, pat: &str, n: usize, m: usize) -> (r: bool)
    requires
        n == s@.len(),
        m == pat@.len(),
        i + m <= n,
    ensures
        r == spec_match_at(s@, pat@, i as int),
{
    let mut j: usize = 0;
    while j < m
        invariant
            n == s@.len(),
            m == pat@.len(),
            i + m <= n,
            0 <= j <= m,
            forall|k: int| 0 <= k < j ==> s@[i + k] == pat@[k],
        decreases m - j,
    {
        if s.get_char(i + j) != pat.get_char(j) {
            assert(s@.subrange(i as int, i + m) != pat@) by {
                assert(s@.subrange(i as int, i + m)[j as int] == s@[i + j]);
            }
            return false;
        }
        j += 1;
    }
    assert(s@.subrange(i as int, i + m) =~= pat@);
    true
}

/// Substring search by scanning every offset.
pub fn str_contains(s: &str, pat: &str) -> (r: bool)
    ensures
        r == spec_contains(s@, pat@),
{
    let n = s.unicode_len();
    let m = pat.unicode_len();
    if m == 0 {
        assert(spec_match_at(s@, pat@, 0)) by {
            assert(s@.subrange(0, 0) =~= pat@);
        }
        return true;
    }
    if m > n {
        assert(!spec_contains(s@, pat@));
        return false;
    }
    let mut i: usize = 0;
    while i <= n - m
        invariant
            n == s@.len(),
            m == pat@.len(),
            0 < m <= n,
            0 <= i <= n - m + 1,
            forall|k: int| 0 <= k < i ==> !spec_match_at(s@, pat@, k),
        decreases n - m - i + 1,
    {
        if match_at(s, i, pat, n, m) {
            return true;
        }
        i += 1;
    }
    assert(forall|k: int| spec_match_at(s@, pat@, k) ==> 0 <= k <= n - m);
    false
}

/// `s` begins with `p`.
pub open spec fn spec_starts_with(s: Seq<char>, p: Seq<char>) -> bool {
    p.len() <= s.len() && s.take(p.len() as int) == p
}

/// Prefix test per [`spec_starts_with`].
pub fn str_starts_with(s: &str, p: &str) -> (r: bool)
    ensures
        r == spec_starts_with(s@, p@),
{
    let n = s.unicode_len();
    let m = p.unicode_len();
    if m > n {
        return false;
    }
    let r = match_at(s, 0, p, n, m);
    proof {
        assert(s@.subrange(0, m as int) =~= s@.take(m as int));
    }
    r
}

/// ASCII lowercasing of one character; every other character is unchanged.
pub open spec fn spec_lower_char(c: char) -> char {
    if c == 'A' { 'a' } else if c == 'B' { 'b' } else if c == 'C' { 'c' }
    else if c == 'D' { 'd' } else if c == 'E' { 'e' } else if c == 'F' { 'f' }
    else if c == 'G' { 'g' } else if c == 'H' { 'h' } else if c == 'I' { 'i' }
    else if c == 'J' { 'j' } else if c == 'K' { 'k' } else if c == 'L' { 'l' }
    else if c == 'M' { 'm' } else if c == 'N' { 'n' } else if c == 'O' { 'o' }
    else if c == 'P' { 'p' } else if c == 'Q' { 'q' } else if c == 'R' { 'r' }
    else if c == 'S' { 's' } else if c == 'T' { 't' } else if c == 'U' { 'u' }
    else if c == 'V' { 'v' } else if c == 'W' { 'w' } else if c == 'X' { 'x' }
    else if c == 'Y' { 'y' } else if c == 'Z' { 'z' }
    else { c }
}

/// `s` lowercased character by character (ASCII letters only).
pub open spec fn spec_lower(s: Seq<char>) -> Seq<char> {
    s.map_values(|c: char| spec_lower_char(c))
}

/// Exec mirror of [`spec_lower_char`].
pub fn lower_char(c: char) -> (r: char)
    ensures
        r == spec_lower_char(c),
{
    match c {
        'A' => 'a', 'B' => 'b', 'C' => 'c', 'D' => 'd', 'E' => 'e', 'F' => 'f',
        'G' => 'g', 'H' => 'h', 'I' => 'i', 'J' => 'j', 'K' => 'k', 'L' => 'l',
        'M' => 'm', 'N' => 'n', 'O' => 'o', 'P' => 'p', 'Q' => 'q', 'R' => 'r',
        'S' => 's', 'T' => 't', 'U' => 'u', 'V' => 'v', 'W' => 'w', 'X' => 'x',
        'Y' => 'y', 'Z' => 'z',
        _ => c,
    }
}

/// Compares `s` at offset `i` against all of `pat`, ignoring ASCII case.
fn match_at_ci(s: &str, i: usize, pat: &str, n: usize, m: usize) -> (r: bool)
    requires
        n == s@.len(),
        m == pat@.len(),
        i + m <= n,
    ensures
        r == spec_match_at(spec_lower(s@), spec_lower(pat@), i as int),
{
    let mut j: usize = 0;
    while j < m
        invariant
            n == s@.len(),
            m == pat@.len(),
            i + m <= n,
            0 <= j <= m,
            forall|k: int| 0 <= k < j ==> spec_lower_char(s@[i + k]) == spec_lower_char(pat@[k]),
        decreases m - j,
    {
        if lower_char(s.get_char(i + j)) != lower_char(pat.get_char(j)) {
            assert(spec_lower(s@).subrange(i as int, i + m) != spec_lower(pat@)) by {
                assert(spec_lower(s@).subrange(i as int, i + m)[j as int]
                    == spec_lower_char(s@[i + j]));
                assert(spec_lower(pat@)[j as int] == spec_lower_char(pat@[j as int]));
            }
            return false;
        }
        j += 1;
    }
    assert(spec_lower(s@).subrange(i as int, i + m) =~= spec_lower(pat@)) by {
        assert(forall|k: int| 0 <= k < m ==>
            #[trigger] spec_lower(s@).subrange(i as int, i + m)[k] == spec_lower_char(s@[i + k]));
    }
    true
}

/// Substring search ignoring ASCII case.
pub fn str_contains_ci(s: &str, pat: &str) -> (r: bool)
    ensures
        r == spec_contains(spec_lower(s@), spec_lower(pat@)),
{
    let n = s.unicode_len();
    let m = pat.unicode_len();
    assert(spec_lower(s@).len() == n);
    assert(spec_lower(pat@).len() == m);
    if m == 0 {
        assert(spec_match_at(spec_lower(s@), spec_lower(pat@), 0)) by {
            assert(spec_lower(s@).subrange(0, 0) =~= spec_lower(pat@));
        }
        return true;
    }
    if m > n {
        assert(!spec_contains(spec_lower(s@), spec_lower(pat@)));
        return false;
    }
    let mut i: usize = 0;
    while i <= n - m
        invariant
            n == s@.len(),
            m == pat@.len(),
            0 < m <= n,
            0 <= i <= n - m + 1,
            forall|k: int| 0 <= k < i ==> !spec_match_at(spec_lower(s@), spec_lower(pat@), k),
        decreases n - m - i + 1,
    {
        if match_at_ci(s, i, pat, n, m) {
            return true;
        }
        i += 1;
    }
    assert(forall|k: int|
        spec_match_at(spec_lower(s@), spec_lower(pat@), k) ==> 0 <= k <= n - m);
    false
}

/// The whitespace characters that [`spec_trim`] removes.
pub open spec fn spec_is_space(c: char) -> bool {
    c == ' ' || c == '\t' || c == '\r' || c == '\n'
}

/// `s` without leading whitespace.
pub open spec fn spec_trim_start(s: Seq<char>) -> Seq<char>
    decreases s.len(),
{
    if s.len() > 0 && spec_is_space(s[0]) {
        spec_trim_start(s.skip(1))
    } else {
        s
    }
}

/// `s` without trailing whitespace.
pub open spec fn spec_trim_end(s: Seq<char>) -> Seq<char>
    decreases s.len(),
{
    if s.len() > 0 && spec_is_space(s[s.len() - 1]) {
        spec_trim_end(s.drop_last())
    } else {
        s
    }
}

/// `s` without leading and trailing whitespace.
pub open spec fn spec_trim(s: Seq<char>) -> Seq<char> {
    spec_trim_end(spec_trim_start(s))
}

/// If the first `a` characters are spaces, trimming the front drops exactly them.
proof fn lemma_trim_start_skip(s: Seq<char>, a: int)
    requires
        0 <= a <= s.len(),
        forall|k: int| 0 <= k < a ==> spec_is_space(s[k]),
        a == s.len() || !spec_is_space(s[a]),
    ensures
        spec_trim_start(s) == s.skip(a),
    decreases a,
{
    if a == 0 {
        assert(s.skip(0) =~= s);
    } else {
        lemma_trim_start_skip(s.skip(1), a - 1);
        assert(s.skip(1).skip(a - 1) =~= s.skip(a));
    }
}

/// If the characters from `b` on are spaces, trimming the back drops exactly them.
proof fn lemma_trim_end_take(s: Seq<char>, b: int)
    requires
        0 <= b <= s.len(),
        forall|k: int| b <= k < s.len() ==> spec_is_space(s[k]),
        b == 0 || !spec_is_space(s[b - 1]),
    ensures
        spec_trim_end(s) == s.take(b),
    decreases s.len() - b,
{
    if b == s.len() {
        assert(s.take(b) =~= s);
    } else {
        lemma_trim_end_take(s.drop_last(), b);
        assert(s.drop_last().take(b) =~= s.take(b));
    }
}

/// Exec whitespace test matching [`spec_is_space`].
pub fn is_space(c: char) -> (r: bool)
    ensures
        r == spec_is_space(c),
{
    c == ' ' || c == '\t' || c == '\r' || c == '\n'
}

/// Removes leading and trailing whitespace, returning a slice of `s`.
pub fn trim(s: &str) -> (r: &str)
    ensures
        r@ == spec_trim(s@),
{
    let n = s.unicode_len();
    let mut a: usize = 0;
    while a < n && is_space(s.get_char(a))
        invariant
            n == s@.len(),
            0 <= a <= n,
            forall|k: int| 0 <= k < a ==> spec_is_space(s@[k]),
        decreases n - a,
    {
        a += 1;
    }
    proof {
        lemma_trim_start_skip(s@, a as int);
    }
    let mut b: usize = n;
    while b > a && is_space(s.get_char(b - 1))
        invariant
            n == s@.len(),
            0 <= a <= b <= n,
            forall|k: int| 0 <= k < a ==> spec_is_space(s@[k]),
            forall|k: int| b <= k < n ==> spec_is_space(s@[k]),
        decreases b,
    {
        b -= 1;
    }
    let r = s.substring_char(a, b);
    proof {
        let t = s@.skip(a as int);
        if b == a {
            // Everything from `a` on is whitespace: the trimmed string is empty.
            lemma_trim_end_take(t, 0);
        } else {
            lemma_trim_end_take(t, b - a);
        }
        assert(t.take(b - a) =~= s@.subrange(a as int, b as int));
    }
    r
}

/// Index of the first occurrence of `c` in `s`, if any.
pub open spec fn spec_find(s: Seq<char>, c: char) -> Option<int>
    decreases s.len(),
{
    if s.len() == 0 {
        None
    } else if s[0] == c {
        Some(0)
    } else {
        match spec_find(s.skip(1), c) {
            None => None,
            Some(i) => Some(i + 1),
        }
    }
}

/// A found index is in range and is the first occurrence.
proof fn lemma_find_bounds(s: Seq<char>, c: char)
    ensures
        match spec_find(s, c) {
            None => forall|k: int| 0 <= k < s.len() ==> s[k] != c,
            Some(i) => 0 <= i < s.len() && s[i] == c && forall|k: int| 0 <= k < i ==> s[k] != c,
        },
    decreases s.len(),
{
    if s.len() > 0 && s[0] != c {
        lemma_find_bounds(s.skip(1), c);
        match spec_find(s.skip(1), c) {
            None => {
                assert forall|k: int| 0 <= k < s.len() implies s[k] != c by {
                    if k > 0 {
                        assert(s.skip(1)[k - 1] != c);
                    }
                }
            },
            Some(i) => {
                assert(s[i + 1] == s.skip(1)[i]);
                assert forall|k: int| 0 <= k < i + 1 implies s[k] != c by {
                    if k > 0 {
                        assert(s.skip(1)[k - 1] != c);
                    }
                }
            },
        }
    }
}

/// A scan that saw no `c` before `i` and `c` at `i` pins down [`spec_find`].
proof fn lemma_find_at(s: Seq<char>, c: char, i: int)
    requires
        0 <= i < s.len(),
        s[i] == c,
        forall|k: int| 0 <= k < i ==> s[k] != c,
    ensures
        spec_find(s, c) == Some(i),
    decreases i,
{
    if i > 0 {
        lemma_find_at(s.skip(1), c, i - 1);
    }
}

/// A scan that saw no `c` anywhere pins [`spec_find`] to `None`.
proof fn lemma_find_none(s: Seq<char>, c: char)
    requires
        forall|k: int| 0 <= k < s.len() ==> s[k] != c,
    ensures
        spec_find(s, c) == None::<int>,
    decreases s.len(),
{
    if s.len() > 0 {
        lemma_find_none(s.skip(1), c);
    }
}

/// The parts of `s` between occurrences of `sep`, in order. Always
/// non-empty; splitting an empty sequence gives one empty part.
pub open spec fn spec_split(s: Seq<char>, sep: char) -> Seq<Seq<char>>
    decreases s.len() via spec_split_decreases
{
    match spec_find(s, sep) {
        None => seq![s],
        Some(i) => seq![s.take(i)] + spec_split(s.skip(i + 1), sep),
    }
}

#[via_fn]
proof fn spec_split_decreases(s: Seq<char>, sep: char) {
    lemma_find_bounds(s, sep);
}

/// Splitting yields at least one part.
pub proof fn lemma_split_nonempty(s: Seq<char>, sep: char)
    ensures
        spec_split(s, sep).len() >= 1,
{
}

/// The views of a vector of string slices.
pub open spec fn parts_view(v: Seq<&str>) -> Seq<Seq<char>> {
    v.map_values(|p: &str| p@)
}

/// Splits `s` at every occurrence of `sep`, as `str::split` does for a
/// character pattern.
pub fn split_char<'a>(s: &'a str, sep: char) -> (parts: Vec<&'a str>)
    ensures
        parts_view(parts@) == spec_split(s@, sep),
{
    let n = s.unicode_len();
    let mut parts: Vec<&'a str> = Vec::new();
    let mut start: usize = 0;
    let mut i: usize = 0;
    proof {
        assert(s@.skip(0) =~= s@);
        assert(parts_view(parts@) + spec_split(s@, sep) =~= spec_split(s@, sep));
    }
    while i < n
        invariant
            n == s@.len(),
            0 <= start <= i <= n,
            forall|k: int| start <= k < i ==> s@[k] != sep,
            spec_split(s@, sep) == parts_view(parts@) + spec_split(s@.skip(start as int), sep),
        decreases n - i,
    {
        if s.get_char(i) == sep {
            let part = s.substring_char(start, i);
            proof {
                let rest = s@.skip(start as int);
                assert(forall|k: int| 0 <= k < i - start ==> rest[k] != sep);
                lemma_find_at(rest, sep, i - start);
                assert(rest.take(i - start) =~= s@.subrange(start as int, i as int));
                assert(rest.skip(i - start + 1) =~= s@.skip(i + 1));
                assert(parts_view(parts@.push(part)) =~=
                    parts_view(parts@) + seq![part@]);
                assert(parts_view(parts@) + spec_split(rest, sep) =~=
                    parts_view(parts@.push(part)) + spec_split(s@.skip(i + 1), sep));
            }
            parts.push(part);
            start = i + 1;
        }
        i += 1;
    }
    let last = s.substring_char(start, n);
    proof {
        let rest = s@.skip(start as int);
        assert(forall|k: int| 0 <= k < rest.len() ==> rest[k] != sep);
        lemma_find_none(rest, sep);
        assert(rest =~= s@.subrange(start as int, n as int));
        assert(parts_view(parts@.push(last)) =~= parts_view(parts@) + seq![last@]);
        assert(parts_view(parts@) + seq![rest] =~= parts_view(parts@.push(last)));
    }
    parts.push(last);
    parts
}

/// A part with one trailing carriage return removed.
pub open spec fn spec_strip_cr(p: Seq<char>) -> Seq<char> {
    if p.len() > 0 && p[p.len() - 1] == '\r' {
        p.drop_last()
    } else {
        p
    }
}

/// The lines of `s`: the parts between newline characters, each with a
/// trailing carriage return removed, and without the empty part that a
/// trailing newline would otherwise add.
pub open spec fn spec_lines(s: Seq<char>) -> Seq<Seq<char>> {
    if s.len() == 0 {
        Seq::empty()
    } else {
        let parts = spec_split(s, '\n');
        let kept = if parts[parts.len() - 1].len() == 0 {
            parts.drop_last()
        } else {
            parts
        };
        kept.map_values(|p: Seq<char>| spec_strip_cr(p))
    }
}

/// Splits `s` into lines per [`spec_lines`].
pub fn split_lines<'a>(s: &'a str) -> (ls: Vec<&'a str>)
    ensures
        parts_view(ls@) == spec_lines(s@),
{
    let mut ls: Vec<&'a str> = Vec::new();
    if s.unicode_len() == 0 {
        assert(parts_view(ls@) =~= spec_lines(s@));
        return ls;
    }
    let parts = split_char(s, '\n');
    proof {
        lemma_split_nonempty(s@, '\n');
    }
    let mut count = parts.len();
    if parts[count - 1].unicode_len() == 0 {
        count -= 1;
    }
    let ghost kept = if spec_split(s@, '\n')[spec_split(s@, '\n').len() - 1].len() == 0 {
        spec_split(s@, '\n').drop_last()
    } else {
        spec_split(s@, '\n')
    };
    assert(parts_view(parts@).take(count as int) =~= kept);
    let mut j: usize = 0;
    while j < count
        invariant
            count <= parts@.len(),
            parts_view(parts@).take(count as int) == kept,
            0 <= j <= count,
            parts_view(ls@) == kept.take(j as int).map_values(|p: Seq<char>| spec_strip_cr(p)),
        decreases count - j,
    {
        let p = parts[j];
        assert(p@ == kept[j as int]);
        let pl = p.unicode_len();
        let q: &str = if pl > 0 && p.get_char(pl - 1) == '\r' {
            let q0 = p.substring_char(0, pl - 1);
            assert(q0@ =~= spec_strip_cr(p@));
            q0
        } else {
            assert(p@ == spec_strip_cr(p@));
            p
        };
        proof {
            assert(parts_view(ls@).len() == j);
            assert(ls@.len() == j);
            assert(q@ == spec_strip_cr(kept[j as int]));
            assert forall|k: int| 0 <= k < j + 1 implies
                #[trigger] parts_view(ls@.push(q))[k]
                    == spec_strip_cr(kept.take(j + 1)[k]) by {
                assert(kept.take(j + 1)[k] == kept[k]);
                if k < j {
                    assert(ls@.push(q)[k] == ls@[k]);
                    assert(parts_view(ls@)[k] ==
                        kept.take(j as int).map_values(|p: Seq<char>| spec_strip_cr(p))[k]);
                    assert(kept.take(j as int)[k] == kept[k]);
                } else {
                    assert(ls@.push(q)[k] == q);
                }
            }
            assert(parts_view(ls@.push(q)) =~=
                kept.take(j + 1).map_values(|x: Seq<char>| spec_strip_cr(x)));
        }
        ls.push(q);
        j += 1;
    }
    assert(kept.take(count as int) =~= kept);
    assert(parts_view(ls@) =~= spec_lines(s@));
    ls
}

/// `c` is an ASCII decimal digit.
pub open spec fn spec_is_digit(c: char) -> bool {
    c == '0' || c == '1' || c == '2' || c == '3' || c == '4'
    || c == '5' || c == '6' || c == '7' || c == '8' || c == '9'
}

/// The value of an ASCII decimal digit (zero for anything else).
pub open spec fn spec_digit_val(c: char) -> int {
    if c == '1' { 1 } else if c == '2' { 2 } else if c == '3' { 3 }
    else if c == '4' { 4 } else if c == '5' { 5 } else if c == '6' { 6 }
    else if c == '7' { 7 } else if c == '8' { 8 } else if c == '9' { 9 }
    else { 0 }
}

/// `s` is non-empty and made of ASCII digits only.
pub open spec fn spec_all_digits(s: Seq<char>) -> bool {
    s.len() > 0 && forall|k: int| 0 <= k < s.len() ==> spec_is_digit(s[k])
}

/// The unsigned value of a digit string.
pub open spec fn spec_digits_val(s: Seq<char>) -> int
    decreases s.len(),
{
    if s.len() == 0 {
        0
    } else {
        spec_digits_val(s.drop_last()) * 10 + spec_digit_val(s.last())
    }
}

/// The value of a digit string is non-negative.
proof fn lemma_digits_val_nonneg(s: Seq<char>)
    ensures
        spec_digits_val(s) >= 0,
    decreases s.len(),
{
    if s.len() > 0 {
        lemma_digits_val_nonneg(s.drop_last());
    }
}

/// Extending a digit string cannot shrink its value.
proof fn lemma_digits_val_mono(s: Seq<char>, k: int)
    requires
        0 <= k <= s.len(),
    ensures
        spec_digits_val(s.take(k)) <= spec_digits_val(s),
    decreases s.len() - k,
{
    if k < s.len() {
        lemma_digits_val_mono(s, k + 1);
        let t = s.take(k + 1);
        assert(t.drop_last() =~= s.take(k));
        lemma_digits_val_nonneg(s.take(k));
        assert(spec_digit_val(t.last()) >= 0);
        assert(spec_digits_val(t) == spec_digits_val(s.take(k)) * 10 + spec_digit_val(t.last()));
        assert(spec_digits_val(s.take(k)) <= spec_digits_val(t));
    } else {
        assert(s.take(k) =~= s);
    }
}

/// Signed decimal parsing with the grammar of `str::parse::<i64>`: an
/// optional sign, then one or more ASCII digits, rejecting any other
/// character and any value outside the `i64` range.
pub open spec fn spec_parse_i64(s: Seq<char>) -> Option<i64> {
    if s.len() == 0 {
        None
    } else {
        let neg = s[0] == '-';
        let digits = if s[0] == '-' || s[0] == '+' { s.skip(1) } else { s };
        if !spec_all_digits(digits) {
            None
        } else {
            let v = spec_digits_val(digits);
            if neg {
                if v <= 0x8000_0000_0000_0000 { Some((-v) as i64) } else { None }
            } else {
                if v <= 0x7fff_ffff_ffff_ffff { Some(v as i64) } else { None }
            }
        }
    }
}

/// Exec digit test and value, matching [`spec_is_digit`] and [`spec_digit_val`].
fn digit_val(c: char) -> (r: Option<u64>)
    ensures
        r is Some <==> spec_is_digit(c),
        r is Some ==> r->0 == spec_digit_val(c),
{
    match c {
        '0' => Some(0), '1' => Some(1), '2' => Some(2), '3' => Some(3), '4' => Some(4),
        '5' => Some(5), '6' => Some(6), '7' => Some(7), '8' => Some(8), '9' => Some(9),
        _ => None,
    }
}

/// Parses `s` as a signed 64-bit decimal integer, per [`spec_parse_i64`].
pub fn parse_i64(s: &str) -> (r: Option<i64>)
    ensures
        r == spec_parse_i64(s@),
{
    let n = s.unicode_len();
    if n == 0 {
        return None;
    }
    let c0 = s.get_char(0);
    let neg = c0 == '-';
    let start: usize = if c0 == '-' || c0 == '+' { 1 } else { 0 };
    let ghost digits = if c0 == '-' || c0 == '+' { s@.skip(1) } else { s@ };
    proof {
        if start == 0 {
            assert(s@.skip(0) =~= s@);
        }
        assert(digits =~= s@.skip(start as int));
    }
    if start == n {
        return None;
    }
    let limit: u64 = if neg { 0x8000_0000_0000_0000 } else { 0x7fff_ffff_ffff_ffff };
    let mut acc: u64 = 0;
    let mut i: usize = start;
    while i < n
        invariant
            n == s@.len(),
            start <= i <= n,
            start < n,
            digits == s@.skip(start as int),
            digits == (if s@[0] == '-' || s@[0] == '+' { s@.skip(1) } else { s@ }),
            neg == (s@[0] == '-'),
            neg ==> limit == 0x8000_0000_0000_0000,
            !neg ==> limit == 0x7fff_ffff_ffff_ffff,
            forall|k: int| start <= k < i ==> spec_is_digit(s@[k]),
            acc == spec_digits_val(s@.subrange(start as int, i as int)),
            acc <= limit,
        decreases n - i,
    {
        let c = s.get_char(i);
        match digit_val(c) {
            None => {
                assert(digits[i - start] == s@[i as int]);
                assert(!spec_all_digits(digits));
                return None;
            },
            Some(d) => {
                proof {
                    assert(s@.subrange(start as int, i + 1).drop_last()
                        =~= s@.subrange(start as int, i as int));
                }
                let wide: u128 = acc as u128 * 10 + d as u128;
                if wide > limit as u128 {
                    // The digits seen so far already overflow; any further
                    // digits can only grow the value.
                    proof {
                        let pre = s@.subrange(start as int, i + 1);
                        assert(spec_digits_val(pre) > limit);
                        if spec_all_digits(digits) {
                            assert(pre =~= digits.take(i + 1 - start));
                            lemma_digits_val_mono(digits, i + 1 - start);
                        }
                    }
                    return None;
                }
                acc = wide as u64;
                assert(acc == spec_digits_val(s@.subrange(start as int, i + 1)));
            },
        }
        i += 1;
    }
    proof {
        assert(s@.subrange(start as int, n as int) =~= digits);
        assert(spec_all_digits(digits));
        assert(acc == spec_digits_val(digits));
    }
    if neg {
        if acc == 0 {
            Some(0)
        } else {
            Some(-((acc - 1) as i64) - 1)
        }
    } else {
        Some(acc as i64)
    }
}

} // verus!
