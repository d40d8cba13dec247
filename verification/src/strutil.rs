use vstd::prelude::*;

verus! {

// Small verified string helpers shared by the version file, manifest and
// launcher logic. All contracts speak about the `Seq<char>` views of the
// strings involved.

/// Relies on String::push: appends exactly the one character to the string.
#[verifier::external_body]
pub fn push_char(s: &mut String, c: char)
    ensures
        final(s)@ == old(s)@.push(c),
{
    s.push(c);
}

/// The characters that the whitespace trimming recognises: the Unicode
/// `White_Space` set, as `str::trim` uses it.
pub open spec fn is_space_char(c: char) -> bool {
    c == ' ' || c == '\t' || c == '\n' || c == '\u{b}' || c == '\u{c}' || c == '\r' || c
        == '\u{85}' || c == '\u{a0}' || c == '\u{1680}' || c == '\u{2000}' || c == '\u{2001}' || c
        == '\u{2002}' || c == '\u{2003}' || c == '\u{2004}' || c == '\u{2005}' || c == '\u{2006}'
        || c == '\u{2007}' || c == '\u{2008}' || c == '\u{2009}' || c == '\u{200a}' || c
        == '\u{2028}' || c == '\u{2029}' || c == '\u{202f}' || c == '\u{205f}' || c == '\u{3000}'
}

/// Whether `c` is one of the whitespace characters that trimming removes.
pub fn is_space(c: char) -> (r: bool)
    ensures
        r == is_space_char(c),
{
    c == ' ' || c == '\t' || c == '\n' || c == '\u{b}' || c == '\u{c}' || c == '\r' || c
        == '\u{85}' || c == '\u{a0}' || c == '\u{1680}' || c == '\u{2000}' || c == '\u{2001}' || c
        == '\u{2002}' || c == '\u{2003}' || c == '\u{2004}' || c == '\u{2005}' || c == '\u{2006}'
        || c == '\u{2007}' || c == '\u{2008}' || c == '\u{2009}' || c == '\u{200a}' || c
        == '\u{2028}' || c == '\u{2029}' || c == '\u{202f}' || c == '\u{205f}' || c == '\u{3000}'
}

/// The sequence without its leading whitespace.
pub open spec fn trim_start(s: Seq<char>) -> Seq<char>
    decreases s.len(),
{
    if s.len() > 0 && is_space_char(s[0]) {
        trim_start(s.drop_first())
    } else {
        s
    }
}

/// The sequence without its trailing whitespace.
pub open spec fn trim_end(s: Seq<char>) -> Seq<char>
    decreases s.len(),
{
    if s.len() > 0 && is_space_char(s.last()) {
        trim_end(s.drop_last())
    } else {
        s
    }
}

/// The sequence without leading and trailing whitespace.
pub open spec fn trimmed(s: Seq<char>) -> Seq<char> {
    trim_end(trim_start(s))
}

/// Trimming the start removes exactly the leading whitespace run.
pub proof fn lemma_trim_start_is_skip(s: Seq<char>, lo: int)
    requires
        0 <= lo <= s.len(),
        forall|k: int| 0 <= k < lo ==> is_space_char(s[k]),
        lo == s.len() || !is_space_char(s[lo]),
    ensures
        trim_start(s) == s.skip(lo),
    decreases lo,
{
    if lo == 0 {
        assert(s.skip(0) =~= s);
    } else {
        assert(is_space_char(s[0]));
        lemma_trim_start_is_skip(s.drop_first(), lo - 1);
        assert(s.drop_first().skip(lo - 1) =~= s.skip(lo));
    }
}

/// Trimming the end removes exactly the trailing whitespace run.
pub proof fn lemma_trim_end_is_take(s: Seq<char>, hi: int)
    requires
        0 <= hi <= s.len(),
        forall|k: int| hi <= k < s.len() ==> is_space_char(s[k]),
        hi == 0 || !is_space_char(s[hi - 1]),
    ensures
        trim_end(s) == s.take(hi),
    decreases s.len(),
{
    if hi == s.len() {
        assert(s.take(hi) =~= s);
    } else {
        assert(is_space_char(s.last()));
        lemma_trim_end_is_take(s.drop_last(), hi);
        assert(s.drop_last().take(hi) =~= s.take(hi));
    }
}

/// Removes leading and trailing whitespace, as `str::trim` does.
pub fn trim_spaces<'a>(s: &'a str) -> (r: &'a str)
    ensures
        r@ == trimmed(s@),
{
    let n = s.unicode_len();
    let mut lo: usize = 0;
    while lo < n && is_space(s.get_char(lo))
        invariant
            n == s@.len(),
            0 <= lo <= n,
            forall|k: int| 0 <= k < lo ==> is_space_char(s@[k]),
        decreases n - lo,
    {
        lo = lo + 1;
    }
    let mut hi: usize = n;
    while hi > lo && is_space(s.get_char(hi - 1))
        invariant
            n == s@.len(),
            lo <= hi <= n,
            forall|k: int| hi <= k < n ==> is_space_char(s@[k]),
        decreases hi,
    {
        hi = hi - 1;
    }
    proof {
        lemma_trim_start_is_skip(s@, lo as int);
        let t = s@.skip(lo as int);
        assert(forall|k: int| hi - lo <= k < t.len() ==> is_space_char(#[trigger] t[k]));
        lemma_trim_end_is_take(t, hi - lo);
        assert(t.take(hi - lo) =~= s@.subrange(lo as int, hi as int));
    }
    s.substring_char(lo, hi)
}

/// Whether the character `c` occurs in `s`.
pub open spec fn contains_char(s: Seq<char>, c: char) -> bool {
    exists|i: int| 0 <= i < s.len() && s[i] == c
}

/// Whether `needle` occurs as a contiguous run inside `hay`.
pub open spec fn contains_seq(hay: Seq<char>, needle: Seq<char>) -> bool {
    exists|k: int|
        0 <= k && k + needle.len() <= hay.len() && #[trigger] hay.subrange(k, k + needle.len())
            == needle
}

/// Whether `s` matches `needle` starting at position `from`.
fn matches_at(s: &str, from: usize, needle: &str) -> (r: bool)
    requires
        from + needle@.len() <= s@.len(),
    ensures
        r == (s@.subrange(from as int, from + needle@.len()) == needle@),
{
    let n = s.unicode_len();
    let m = needle.unicode_len();
    let mut i: usize = 0;
    while i < m
        invariant
            n == s@.len(),
            m == needle@.len(),
            from + m <= n,
            0 <= i <= m,
            forall|k: int| 0 <= k < i ==> s@[from + k] == needle@[k],
        decreases m - i,
    {
        if s.get_char(from + i) != needle.get_char(i) {
            proof {
                let j = i as int;
                assert(s@.subrange(from as int, from + needle@.len())[j] != needle@[j]);
            }
            return false;
        }
        i = i + 1;
    }
    proof {
        assert(s@.subrange(from as int, from + needle@.len()) =~= needle@);
    }
    true
}

/// Whether `needle` occurs as a substring of `hay`, as `str::contains`
/// reports it.
pub fn contains_substring(hay: &str, needle: &str) -> (r: bool)
    ensures
        r == contains_seq(hay@, needle@),
{
    let n = hay.unicode_len();
    let m = needle.unicode_len();
    if m > n {
        return false;
    }
    if m == 0 {
        proof {
            assert(hay@.subrange(0, 0 + needle@.len() as int) =~= needle@);
        }
        return true;
    }
    let mut k: usize = 0;
    while k <= n - m
        invariant
            n == hay@.len(),
            m == needle@.len(),
            1 <= m <= n,
            0 <= k <= n - m + 1,
            forall|j: int|
                0 <= j < k ==> #[trigger] hay@.subrange(j, j + needle@.len()) != needle@,
        decreases n + 1 - k,
    {
        if matches_at(hay, k, needle) {
            return true;
        }
        k = k + 1;
    }
    false
}

/// Whether two strings hold the same characters.
pub fn str_eq(a: &str, b: &str) -> (r: bool)
    ensures
        r == (a@ == b@),
{
    let n = a.unicode_len();
    let m = b.unicode_len();
    if n != m {
        return false;
    }
    let r = matches_at(a, 0, b);
    proof {
        assert(a@.subrange(0, 0 + b@.len() as int) =~= a@);
    }
    r
}

/// The first position at or after `i` where `c` occurs in `s`, or the length
/// of `s` when it does not occur there.
pub open spec fn find_char_from(s: Seq<char>, c: char, i: int) -> int
    decreases s.len() - i,
        when 0 <= i <= s.len()
{
    if i >= s.len() {
        s.len() as int
    } else if s[i] == c {
        i
    } else {
        find_char_from(s, c, i + 1)
    }
}

/// What `find_char_from` returns: a position between `i` and the length,
/// holding `c` if within range, with no occurrence of `c` before it.
pub proof fn lemma_find_char_from(s: Seq<char>, c: char, i: int)
    requires
        0 <= i <= s.len(),
    ensures
        i <= find_char_from(s, c, i) <= s.len(),
        find_char_from(s, c, i) < s.len() ==> s[find_char_from(s, c, i)] == c,
        forall|k: int| i <= k < find_char_from(s, c, i) ==> s[k] != c,
    decreases s.len() - i,
{
    if i < s.len() && s[i] != c {
        lemma_find_char_from(s, c, i + 1);
    }
}

/// Finds the first occurrence of `c` in `s` at or after `from`.
pub fn find_char(s: &str, c: char, from: usize) -> (r: usize)
    requires
        from <= s@.len(),
    ensures
        r == find_char_from(s@, c, from as int),
{
    let n = s.unicode_len();
    let mut j = from;
    while j < n && s.get_char(j) != c
        invariant
            n == s@.len(),
            from <= j <= n,
            forall|k: int| from <= k < j ==> s@[k] != c,
        decreases n - j,
    {
        j = j + 1;
    }
    proof {
        lemma_find_char_from(s@, c, from as int);
        let f = find_char_from(s@, c, from as int);
        if f < j {
            assert(s@[f] == c);
        }
        if j < f {
            assert(s@[j as int] != c);
        }
    }
    j
}

/// A position `j` at or after `p` that holds `c`, or the length when `j` is
/// the length, is what the search finds when nothing before it holds `c`.
pub proof fn lemma_find_char_at(s: Seq<char>, c: char, p: int, j: int)
    requires
        0 <= p <= j <= s.len(),
        forall|k: int| p <= k < j ==> s[k] != c,
        j == s.len() || s[j] == c,
    ensures
        find_char_from(s, c, p) == j,
    decreases j - p,
{
    if p < j {
        lemma_find_char_at(s, c, p + 1, j);
    }
}

/// Splitting into lines from a position is splitting the text after it.
pub proof fn lemma_split_lines_from_is_skip(s: Seq<char>, p: int)
    requires
        0 <= p <= s.len(),
    ensures
        split_lines_from(s, p) == split_lines(s.skip(p)),
    decreases s.len() - p,
{
    let t = s.skip(p);
    if p >= s.len() {
        assert(split_lines(t) =~= Seq::<Seq<char>>::empty());
    } else {
        lemma_find_char_from(s, '\n', p);
        let j = find_char_from(s, '\n', p);
        assert forall|k: int| 0 <= k < j - p implies t[k] != '\n' by {
            assert(t[k] == s[p + k]);
        }
        if j < s.len() {
            assert(t[j - p] == '\n');
        }
        lemma_find_char_at(t, '\n', 0, j - p);
        assert(t.subrange(0, j - p) =~= s.subrange(p, j));
        if j == s.len() {
            assert(split_lines(t) == seq![strip_cr(t.subrange(0, j - p))]);
        } else {
            lemma_split_lines_from_is_skip(s, j + 1);
            lemma_split_lines_from_is_skip(t, j - p + 1);
            assert(t.skip(j - p + 1) =~= s.skip(j + 1));
        }
    }
}

/// The last position strictly before `i` where `c` occurs in `s`, or `-1`
/// when it does not occur there.
pub open spec fn rfind_char_before(s: Seq<char>, c: char, i: int) -> int
    decreases i,
        when 0 <= i <= s.len()
{
    if i <= 0 {
        -1
    } else if s[i - 1] == c {
        i - 1
    } else {
        rfind_char_before(s, c, i - 1)
    }
}

/// What `rfind_char_before` returns: a position below `i` holding `c` when
/// within range, with no occurrence of `c` after it and before `i`.
pub proof fn lemma_rfind_char_before(s: Seq<char>, c: char, i: int)
    requires
        0 <= i <= s.len(),
    ensures
        -1 <= rfind_char_before(s, c, i) < i,
        rfind_char_before(s, c, i) >= 0 ==> s[rfind_char_before(s, c, i)] == c,
        forall|k: int| rfind_char_before(s, c, i) < k < i ==> s[k] != c,
    decreases i,
{
    if i > 0 && s[i - 1] != c {
        lemma_rfind_char_before(s, c, i - 1);
    }
}

/// A line with a trailing carriage return removed, as `lines` strips it.
pub open spec fn strip_cr(line: Seq<char>) -> Seq<char> {
    if line.len() > 0 && line.last() == '\r' {
        line.drop_last()
    } else {
        line
    }
}

/// The lines of `s` from position `pos` on: split at every newline, each
/// line stripped of a trailing carriage return; a trailing newline ends the
/// last line rather than opening an empty one.
pub open spec fn split_lines_from(s: Seq<char>, pos: int) -> Seq<Seq<char>>
    decreases s.len() - pos,
        when 0 <= pos <= s.len()
        via split_lines_from_decreases
{
    if pos >= s.len() {
        Seq::empty()
    } else {
        let j = find_char_from(s, '\n', pos);
        if j == s.len() {
            seq![strip_cr(s.subrange(pos, j))]
        } else {
            seq![strip_cr(s.subrange(pos, j))] + split_lines_from(s, j + 1)
        }
    }
}

#[via_fn]
proof fn split_lines_from_decreases(s: Seq<char>, pos: int) {
    lemma_find_char_from(s, '\n', pos);
}

/// The lines of a whole text.
pub open spec fn split_lines(s: Seq<char>) -> Seq<Seq<char>> {
    split_lines_from(s, 0)
}

/// The concatenation `dir`, `/`, `name`: how the engine joins a directory
/// with an entry beneath it.
pub open spec fn joined_path(dir: Seq<char>, name: Seq<char>) -> Seq<char> {
    dir + "/"@ + name
}

/// Joins a directory path and a name beneath it with a `/` separator.
pub fn join_path(dir: &str, name: &str) -> (r: String)
    ensures
        r@ == joined_path(dir@, name@),
{
    let mut out = dir.to_owned();
    out.append("/");
    out.append(name);
    out
}

/// The character sequences of a string list.
pub open spec fn strings_view(v: Seq<String>) -> Seq<Seq<char>> {
    v.map(|i: int, s: String| s@)
}

/// The character for one decimal digit value.
pub open spec fn dec_digit_char(d: int) -> char {
    if d == 0 {
        '0'
    } else if d == 1 {
        '1'
    } else if d == 2 {
        '2'
    } else if d == 3 {
        '3'
    } else if d == 4 {
        '4'
    } else if d == 5 {
        '5'
    } else if d == 6 {
        '6'
    } else if d == 7 {
        '7'
    } else if d == 8 {
        '8'
    } else {
        '9'
    }
}

/// The decimal digit string of a natural number, most significant digit
/// first, with no leading zeros (a single `0` for zero).
pub open spec fn dec_digits(n: nat) -> Seq<char>
    decreases n,
{
    if n < 10 {
        seq![dec_digit_char(n as int)]
    } else {
        dec_digits(n / 10).push(dec_digit_char((n % 10) as int))
    }
}

fn digit_char(d: u64) -> (r: char)
    requires
        d < 10,
    ensures
        r == dec_digit_char(d as int),
{
    match d {
        0 => '0',
        1 => '1',
        2 => '2',
        3 => '3',
        4 => '4',
        5 => '5',
        6 => '6',
        7 => '7',
        8 => '8',
        _ => '9',
    }
}

/// The decimal text of an unsigned number.
pub fn u64_to_string(n: u64) -> (r: String)
    ensures
        r@ == dec_digits(n as nat),
    decreases n,
{
    if n < 10 {
        let mut s = String::new();
        push_char(&mut s, digit_char(n));
        proof {
            assert(s@ =~= dec_digits(n as nat));
        }
        s
    } else {
        let mut s = u64_to_string(n / 10);
        push_char(&mut s, digit_char(n % 10));
        s
    }
}

} // verus!
