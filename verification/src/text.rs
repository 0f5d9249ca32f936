//! Character-level string operations used across the browser engine:
//! substring search, prefixes, trimming, splitting, ASCII case mapping and
//! decimal formatting, each stated over the `Seq<char>` view of a string.
use vstd::prelude::*;

verus! {

// ---------------------------------------------------------------------------
// Specifications
// ---------------------------------------------------------------------------

/// `t` occurs in `s` starting at index `i`.
pub open spec fn occurs_at(s: Seq<char>, t: Seq<char>, i: int) -> bool {
    0 <= i && i + t.len() <= s.len() && s.subrange(i, i + t.len()) == t
}

/// `t` is a substring of `s` (the empty sequence is a substring of every sequence).
pub open spec fn contains_seq(s: Seq<char>, t: Seq<char>) -> bool {
    exists|i: int| #[trigger] occurs_at(s, t, i)
}

/// `s` begins with `t`.
pub open spec fn starts_with_seq(s: Seq<char>, t: Seq<char>) -> bool {
    occurs_at(s, t, 0)
}

/// Index of the first occurrence of `t` in `s` at or after `i`, or -1.
pub open spec fn find_from(s: Seq<char>, t: Seq<char>, i: int) -> int
    decreases s.len() + 1 - i,
{
    if i < 0 || i + t.len() > s.len() {
        -1
    } else if occurs_at(s, t, i) {
        i
    } else {
        find_from(s, t, i + 1)
    }
}

/// Index of the first occurrence of `t` in `s`, or -1.
pub open spec fn find_first(s: Seq<char>, t: Seq<char>) -> int {
    find_from(s, t, 0)
}

/// Index of the first occurrence of the character `c` in `s` at or after `i`, or -1.
pub open spec fn find_char_from(s: Seq<char>, c: char, i: int) -> int
    decreases s.len() - i,
{
    if i < 0 || i >= s.len() {
        -1
    } else if s[i] == c {
        i
    } else {
        find_char_from(s, c, i + 1)
    }
}

/// `s` with every leading `c` removed.
pub open spec fn trim_start_char(s: Seq<char>, c: char) -> Seq<char>
    decreases s.len(),
{
    if s.len() > 0 && s[0] == c {
        trim_start_char(s.drop_first(), c)
    } else {
        s
    }
}

/// `s` with every trailing `c` removed.
pub open spec fn trim_end_char(s: Seq<char>, c: char) -> Seq<char>
    decreases s.len(),
{
    if s.len() > 0 && s.last() == c {
        trim_end_char(s.drop_last(), c)
    } else {
        s
    }
}

/// `s` with every leading and trailing `c` removed (what `str::trim_matches(c)` returns).
pub open spec fn trim_char(s: Seq<char>, c: char) -> Seq<char> {
    trim_end_char(trim_start_char(s, c), c)
}

/// The pieces of `s` between occurrences of the separator `sep`, as
/// `str::split(sep)` yields them: empty pieces included, one more piece
/// than there are separators.
pub open spec fn split_char(s: Seq<char>, sep: char) -> Seq<Seq<char>>
    decreases s.len(),
{
    if s.len() == 0 {
        seq![Seq::<char>::empty()]
    } else {
        let r = split_char(s.drop_last(), sep);
        if s.last() == sep {
            r.push(Seq::<char>::empty())
        } else {
            r.update(r.len() - 1, r.last().push(s.last()))
        }
    }
}

/// The characters for which `char::is_whitespace` holds (Unicode `White_Space`).
pub open spec fn is_ws(c: char) -> bool {
    ||| ('\u{9}' <= c && c <= '\u{d}')
    ||| c == ' '
    ||| c == '\u{85}'
    ||| c == '\u{a0}'
    ||| c == '\u{1680}'
    ||| ('\u{2000}' <= c && c <= '\u{200a}')
    ||| c == '\u{2028}'
    ||| c == '\u{2029}'
    ||| c == '\u{202f}'
    ||| c == '\u{205f}'
    ||| c == '\u{3000}'
}

/// `s` without its leading whitespace.
pub open spec fn trim_ws_start(s: Seq<char>) -> Seq<char>
    decreases s.len(),
{
    if s.len() > 0 && is_ws(s[0]) {
        trim_ws_start(s.drop_first())
    } else {
        s
    }
}

/// `s` without its trailing whitespace.
pub open spec fn trim_ws_end(s: Seq<char>) -> Seq<char>
    decreases s.len(),
{
    if s.len() > 0 && is_ws(s.last()) {
        trim_ws_end(s.drop_last())
    } else {
        s
    }
}

/// `s` without leading and trailing whitespace (what `str::trim` returns).
pub open spec fn trim_ws(s: Seq<char>) -> Seq<char> {
    trim_ws_end(trim_ws_start(s))
}

/// Completed words and the word in progress after reading `s` from left to right.
pub open spec fn words_acc(s: Seq<char>) -> (Seq<Seq<char>>, Seq<char>)
    decreases s.len(),
{
    if s.len() == 0 {
        (Seq::empty(), Seq::empty())
    } else {
        let (ws, cur) = words_acc(s.drop_last());
        let c = s.last();
        if is_ws(c) {
            if cur.len() > 0 {
                (ws.push(cur), Seq::empty())
            } else {
                (ws, Seq::empty())
            }
        } else {
            (ws, cur.push(c))
        }
    }
}

/// The maximal runs of non-whitespace characters of `s`, in order
/// (what `str::split_whitespace` yields).
pub open spec fn words(s: Seq<char>) -> Seq<Seq<char>> {
    let (ws, cur) = words_acc(s);
    if cur.len() > 0 {
        ws.push(cur)
    } else {
        ws
    }
}

/// ASCII lowercase of one character; every other character is kept.
pub open spec fn ascii_lower(c: char) -> char {
    if 'A' <= c && c <= 'Z' {
        ((c as u32) + 32) as char
    } else {
        c
    }
}

/// ASCII lowercase of every character of `s`.
pub open spec fn ascii_lower_seq(s: Seq<char>) -> Seq<char> {
    Seq::new(s.len(), |i: int| ascii_lower(s[i]))
}

/// Every character of `s` is ASCII.
pub open spec fn all_ascii(s: Seq<char>) -> bool {
    forall|i: int| 0 <= i < s.len() ==> (#[trigger] s[i] as u32) < 128
}

/// The decimal digit character for `d < 10`.
pub open spec fn digit_char(d: nat) -> char {
    (('0' as u32) + d) as char
}

/// Decimal representation of `n`, without sign or leading zeros.
pub open spec fn decimal(n: nat) -> Seq<char>
    decreases n,
{
    if n < 10 {
        seq![digit_char(n)]
    } else {
        decimal(n / 10).push(digit_char(n % 10))
    }
}

/// The characters of each string of `v`.
pub open spec fn strs(v: Seq<String>) -> Seq<Seq<char>> {
    v.map_values(|s: String| s@)
}

/// The full Unicode lowercase mapping of `s`, as `str::to_lowercase` computes it.
pub uninterp spec fn lowercase_of(s: Seq<char>) -> Seq<char>;

// ---------------------------------------------------------------------------
// Lemmas
// ---------------------------------------------------------------------------

/// Whatever `find_from` reports is a real occurrence, and nothing lies before it.
pub proof fn lemma_find_from(s: Seq<char>, t: Seq<char>, i: int)
    requires
        0 <= i,
    ensures
        find_from(s, t, i) == -1 || (i <= find_from(s, t, i) && occurs_at(s, t, find_from(s, t, i))),
        find_from(s, t, i) == -1 ==> forall|k: int| i <= k ==> !#[trigger] occurs_at(s, t, k),
        find_from(s, t, i) != -1 ==> forall|k: int|
            i <= k < find_from(s, t, i) ==> !#[trigger] occurs_at(s, t, k),
    decreases s.len() + 1 - i,
{
    if i + t.len() > s.len() {
    } else if occurs_at(s, t, i) {
    } else {
        lemma_find_from(s, t, i + 1);
    }
}

/// Whatever `find_char_from` reports holds `c`, and no `c` lies before it.
pub proof fn lemma_find_char_from(s: Seq<char>, c: char, i: int)
    requires
        0 <= i,
    ensures
        find_char_from(s, c, i) == -1 || (i <= find_char_from(s, c, i) < s.len() && s[find_char_from(
            s,
            c,
            i,
        )] == c),
        find_char_from(s, c, i) == -1 ==> forall|k: int| i <= k < s.len() ==> s[k] != c,
        find_char_from(s, c, i) != -1 ==> forall|k: int| i <= k < find_char_from(s, c, i) ==> s[k] != c,
    decreases s.len() - i,
{
    if i < s.len() && s[i] != c {
        lemma_find_char_from(s, c, i + 1);
    }
}

/// `trim_start_char` drops exactly the leading run of `c`.
pub proof fn lemma_trim_start(s: Seq<char>, c: char, i: int)
    requires
        0 <= i <= s.len(),
        forall|k: int| 0 <= k < i ==> s[k] == c,
        i == s.len() || s[i] != c,
    ensures
        trim_start_char(s, c) == s.subrange(i, s.len() as int),
    decreases i,
{
    if i == 0 {
        assert(s.subrange(0, s.len() as int) =~= s);
    } else {
        let d = s.drop_first();
        assert forall|k: int| 0 <= k < i - 1 implies d[k] == c by {
            assert(d[k] == s[k + 1]);
        }
        lemma_trim_start(d, c, i - 1);
        assert(d.subrange(i - 1, d.len() as int) =~= s.subrange(i, s.len() as int));
    }
}

/// `trim_end_char` drops exactly the trailing run of `c`.
pub proof fn lemma_trim_end(s: Seq<char>, c: char, j: int)
    requires
        0 <= j <= s.len(),
        forall|k: int| j <= k < s.len() ==> s[k] == c,
        j == 0 || s[j - 1] != c,
    ensures
        trim_end_char(s, c) == s.subrange(0, j),
    decreases s.len() - j,
{
    if j == s.len() {
        assert(s.subrange(0, s.len() as int) =~= s);
    } else {
        let d = s.drop_last();
        lemma_trim_end(d, c, j);
        assert(d.subrange(0, j) =~= s.subrange(0, j));
    }
}

/// `trim_ws_start` drops exactly the leading whitespace run.
pub proof fn lemma_trim_ws_start(s: Seq<char>, i: int)
    requires
        0 <= i <= s.len(),
        forall|k: int| 0 <= k < i ==> is_ws(#[trigger] s[k]),
        i == s.len() || !is_ws(s[i]),
    ensures
        trim_ws_start(s) == s.subrange(i, s.len() as int),
    decreases i,
{
    if i == 0 {
        assert(s.subrange(0, s.len() as int) =~= s);
    } else {
        let d = s.drop_first();
        assert(is_ws(s[0]));
        assert forall|k: int| 0 <= k < i - 1 implies is_ws(#[trigger] d[k]) by {
            assert(d[k] == s[k + 1]);
        }
        lemma_trim_ws_start(d, i - 1);
        assert(d.subrange(i - 1, d.len() as int) =~= s.subrange(i, s.len() as int));
    }
}

/// `trim_ws_end` drops exactly the trailing whitespace run.
pub proof fn lemma_trim_ws_end(s: Seq<char>, j: int)
    requires
        0 <= j <= s.len(),
        forall|k: int| j <= k < s.len() ==> is_ws(#[trigger] s[k]),
        j == 0 || !is_ws(s[j - 1]),
    ensures
        trim_ws_end(s) == s.subrange(0, j),
    decreases s.len() - j,
{
    if j == s.len() {
        assert(s.subrange(0, s.len() as int) =~= s);
    } else {
        let d = s.drop_last();
        assert(is_ws(s[s.len() - 1]));
        lemma_trim_ws_end(d, j);
        assert(d.subrange(0, j) =~= s.subrange(0, j));
    }
}

// ---------------------------------------------------------------------------
// Executable operations
// ---------------------------------------------------------------------------

/// The characters of `s`, in order.
pub fn chars_of(s: &str) -> (v: Vec<char>)
    ensures
        v@ == s@,
{
    let mut v: Vec<char> = Vec::new();
    let n = s.unicode_len();
    let mut i: usize = 0;
    while i < n
        invariant
            n == s@.len(),
            i <= n,
            v@ == s@.subrange(0, i as int),
        decreases n - i,
    {
        let c = s.get_char(i);
        v.push(c);
        i = i + 1;
        assert(v@ =~= s@.subrange(0, i as int));
    }
    assert(v@ =~= s@);
    v
}

/// Appends one character to a string (std's `String::push`).
#[verifier::external_body]
pub(crate) fn push_char(s: &mut String, c: char)
    ensures
        final(s)@ == old(s)@.push(c),
{
    s.push(c);
}

/// A string holding exactly the characters `v[from..to]`.
pub fn string_of_range(v: &Vec<char>, from: usize, to: usize) -> (r: String)
    requires
        from <= to <= v.len(),
    ensures
        r@ == v@.subrange(from as int, to as int),
{
    let mut r = String::new();
    let mut i = from;
    while i < to
        invariant
            from <= i <= to <= v.len(),
            r@ == v@.subrange(from as int, i as int),
        decreases to - i,
    {
        push_char(&mut r, v[i]);
        i = i + 1;
        assert(r@ =~= v@.subrange(from as int, i as int));
    }
    r
}

/// A string holding exactly the characters of `v`.
pub fn string_of_chars(v: &Vec<char>) -> (r: String)
    ensures
        r@ == v@,
{
    let r = string_of_range(v, 0, v.len());
    assert(v@.subrange(0, v@.len() as int) =~= v@);
    r
}

/// Whether `t` occurs in `s` at index `i`.
pub fn occurs_at_exec(s: &Vec<char>, t: &Vec<char>, i: usize) -> (b: bool)
    ensures
        b == occurs_at(s@, t@, i as int),
{
    let n = s.len();
    let m = t.len();
    if i > n || m > n - i {
        return false;
    }
    let mut k: usize = 0;
    while k < m
        invariant
            n == s@.len(),
            m == t@.len(),
            i + m <= n,
            k <= t@.len(),
            forall|j: int| 0 <= j < k ==> s@[i + j] == t@[j],
        decreases t.len() - k,
    {
        if s[i + k] != t[k] {
            assert(s@.subrange(i as int, i + t@.len())[k as int] != t@[k as int]);
            return false;
        }
        k = k + 1;
    }
    assert(s@.subrange(i as int, i + t@.len()) =~= t@);
    true
}

/// Index of the first occurrence of `t` in `s` at or after `start`.
pub fn find_from_exec(s: &Vec<char>, t: &Vec<char>, start: usize) -> (r: Option<usize>)
    ensures
        match r {
            Some(p) => p as int == find_from(s@, t@, start as int),
            None => find_from(s@, t@, start as int) == -1,
        },
{
    let n = s.len();
    let m = t.len();
    if m > n || start > n - m {
        return None;
    }
    let mut i = start;
    loop
        invariant
            n == s@.len(),
            m == t@.len(),
            start <= i <= n - m,
            find_from(s@, t@, start as int) == find_from(s@, t@, i as int),
        decreases n - m - i,
    {
        if occurs_at_exec(s, t, i) {
            return Some(i);
        }
        if i == n - m {
            assert(find_from(s@, t@, i + 1) == -1);
            return None;
        }
        i = i + 1;
    }
}

/// Whether `t` is a substring of `s`.
pub fn seq_contains(s: &Vec<char>, t: &Vec<char>) -> (b: bool)
    ensures
        b == contains_seq(s@, t@),
{
    let r = find_from_exec(s, t, 0);
    proof {
        lemma_find_from(s@, t@, 0);
    }
    match r {
        Some(p) => {
            assert(occurs_at(s@, t@, p as int));
            true
        },
        None => false,
    }
}

/// Whether `t` is a substring of `s` (what `str::contains(&str)` returns).
pub fn str_contains(s: &str, t: &str) -> (b: bool)
    ensures
        b == contains_seq(s@, t@),
{
    let sv = chars_of(s);
    let tv = chars_of(t);
    seq_contains(&sv, &tv)
}

/// Whether `s` begins with `t` (what `str::starts_with(&str)` returns).
pub fn str_starts_with(s: &str, t: &str) -> (b: bool)
    ensures
        b == starts_with_seq(s@, t@),
{
    let sv = chars_of(s);
    let tv = chars_of(t);
    occurs_at_exec(&sv, &tv, 0)
}

/// Whether two strings hold the same characters.
pub fn str_eq(a: &str, b: &str) -> (r: bool)
    ensures
        r == (a@ == b@),
{
    let av = chars_of(a);
    let bv = chars_of(b);
    if av.len() != bv.len() {
        return false;
    }
    let r = occurs_at_exec(&av, &bv, 0);
    proof {
        if r {
            assert(av@.subrange(0, bv@.len() as int) =~= av@);
        } else {
            assert(av@.subrange(0, bv@.len() as int) =~= av@);
        }
    }
    r
}

/// Index of the first occurrence of `c` in `s` at or after `start`.
pub fn find_char_exec(s: &Vec<char>, c: char, start: usize) -> (r: Option<usize>)
    ensures
        match r {
            Some(p) => p as int == find_char_from(s@, c, start as int),
            None => find_char_from(s@, c, start as int) == -1,
        },
{
    let mut i = start;
    while i < s.len()
        invariant
            start <= i,
            find_char_from(s@, c, start as int) == find_char_from(s@, c, i as int),
        decreases s.len() - i,
    {
        if s[i] == c {
            return Some(i);
        }
        i = i + 1;
    }
    None
}

/// `s` with every leading and trailing `c` removed (`str::trim_matches(c)`).
pub fn trim_char_exec(s: &Vec<char>, c: char) -> (r: Vec<char>)
    ensures
        r@ == trim_char(s@, c),
{
    let n = s.len();
    let mut i: usize = 0;
    while i < n && s[i] == c
        invariant
            n == s@.len(),
            i <= n,
            forall|k: int| 0 <= k < i ==> s@[k] == c,
        decreases n - i,
    {
        i = i + 1;
    }
    proof {
        lemma_trim_start(s@, c, i as int);
    }
    let ghost mid = s@.subrange(i as int, n as int);
    let mut j: usize = n;
    while j > i && s[j - 1] == c
        invariant
            n == s@.len(),
            i <= j <= n,
            forall|k: int| j <= k < n ==> s@[k] == c,
        decreases j,
    {
        j = j - 1;
    }
    proof {
        assert forall|k: int| j - i <= k < mid.len() implies mid[k] == c by {
            assert(mid[k] == s@[i + k]);
        }
        if j > i {
            assert(mid[j - i - 1] == s@[j - 1]);
        }
        lemma_trim_end(mid, c, j - i);
        assert(mid.subrange(0, j - i) =~= s@.subrange(i as int, j as int));
    }
    let mut r: Vec<char> = Vec::new();
    let mut k = i;
    while k < j
        invariant
            i <= k <= j <= n == s@.len(),
            r@ == s@.subrange(i as int, k as int),
        decreases j - k,
    {
        r.push(s[k]);
        k = k + 1;
        assert(r@ =~= s@.subrange(i as int, k as int));
    }
    r
}

/// Lemma: one more character extends `split_char` in the way the scanner does.
proof fn lemma_split_step(s: Seq<char>, sep: char, i: int)
    requires
        0 <= i < s.len(),
    ensures
        split_char(s.subrange(0, i + 1), sep) == ({
            let r = split_char(s.subrange(0, i), sep);
            if s[i] == sep {
                r.push(Seq::<char>::empty())
            } else {
                r.update(r.len() - 1, r.last().push(s[i]))
            }
        }),
{
    let p = s.subrange(0, i + 1);
    assert(p.drop_last() =~= s.subrange(0, i));
    assert(p.last() == s[i]);
}

/// `split_char` always yields at least one piece.
pub proof fn lemma_split_nonempty(s: Seq<char>, sep: char)
    ensures
        split_char(s, sep).len() >= 1,
    decreases s.len(),
{
    if s.len() > 0 {
        lemma_split_nonempty(s.drop_last(), sep);
    }
}

/// The pieces of `s` between occurrences of `sep` (`str::split(sep)`).
pub fn split_char_exec(s: &Vec<char>, sep: char) -> (r: Vec<Vec<char>>)
    ensures
        r@.len() == split_char(s@, sep).len(),
        forall|k: int| 0 <= k < r@.len() ==> (#[trigger] r@[k])@ == split_char(s@, sep)[k],
{
    let mut done: Vec<Vec<char>> = Vec::new();
    let mut cur: Vec<char> = Vec::new();
    let mut i: usize = 0;
    proof {
        assert(s@.subrange(0, 0) =~= Seq::<char>::empty());
    }
    while i < s.len()
        invariant
            i <= s@.len(),
            done@.len() + 1 == split_char(s@.subrange(0, i as int), sep).len(),
            forall|k: int| 0 <= k < done@.len() ==> (#[trigger] done@[k])@ == split_char(
                s@.subrange(0, i as int),
                sep,
            )[k],
            cur@ == split_char(s@.subrange(0, i as int), sep).last(),
        decreases s.len() - i,
    {
        proof {
            lemma_split_step(s@, sep, i as int);
            lemma_split_nonempty(s@.subrange(0, i as int), sep);
        }
        if s[i] == sep {
            let finished = cur;
            done.push(finished);
            cur = Vec::new();
        } else {
            cur.push(s[i]);
        }
        i = i + 1;
    }
    proof {
        assert(s@.subrange(0, s@.len() as int) =~= s@);
    }
    done.push(cur);
    done
}

/// Unfolding of `words_acc` for a prefix extended by one character.
proof fn lemma_words_step(s: Seq<char>, i: int)
    requires
        0 <= i < s.len(),
    ensures
        words_acc(s.subrange(0, i + 1)) == ({
            let (ws, cur) = words_acc(s.subrange(0, i));
            let c = s[i];
            if is_ws(c) {
                if cur.len() > 0 {
                    (ws.push(cur), Seq::<char>::empty())
                } else {
                    (ws, Seq::<char>::empty())
                }
            } else {
                (ws, cur.push(c))
            }
        }),
{
    let p = s.subrange(0, i + 1);
    assert(p.drop_last() =~= s.subrange(0, i));
    assert(p.last() == s[i]);
}

/// Whether `c` is whitespace (`char::is_whitespace`).
pub fn is_ws_exec(c: char) -> (b: bool)
    ensures
        b == is_ws(c),
{
    ('\u{9}' <= c && c <= '\u{d}') || c == ' ' || c == '\u{85}' || c == '\u{a0}' || c
        == '\u{1680}' || ('\u{2000}' <= c && c <= '\u{200a}') || c == '\u{2028}' || c
        == '\u{2029}' || c == '\u{202f}' || c == '\u{205f}' || c == '\u{3000}'
}

/// The whitespace-separated words of `s` (`str::split_whitespace`).
pub fn words_exec(s: &Vec<char>) -> (r: Vec<Vec<char>>)
    ensures
        r@.len() == words(s@).len(),
        forall|k: int| 0 <= k < r@.len() ==> (#[trigger] r@[k])@ == words(s@)[k],
{
    let mut done: Vec<Vec<char>> = Vec::new();
    let mut cur: Vec<char> = Vec::new();
    let mut i: usize = 0;
    proof {
        assert(s@.subrange(0, 0) =~= Seq::<char>::empty());
    }
    while i < s.len()
        invariant
            i <= s@.len(),
            done@.len() == words_acc(s@.subrange(0, i as int)).0.len(),
            forall|k: int| 0 <= k < done@.len() ==> (#[trigger] done@[k])@ == words_acc(
                s@.subrange(0, i as int),
            ).0[k],
            cur@ == words_acc(s@.subrange(0, i as int)).1,
        decreases s.len() - i,
    {
        proof {
            lemma_words_step(s@, i as int);
        }
        let c = s[i];
        if is_ws_exec(c) {
            if cur.len() > 0 {
                let finished = cur;
                done.push(finished);
            }
            cur = Vec::new();
        } else {
            cur.push(c);
        }
        i = i + 1;
    }
    proof {
        assert(s@.subrange(0, s@.len() as int) =~= s@);
    }
    if cur.len() > 0 {
        done.push(cur);
    }
    done
}

/// ASCII lowercase of one character.
pub fn ascii_lower_exec(c: char) -> (r: char)
    ensures
        r == ascii_lower(c),
{
    if 'A' <= c && c <= 'Z' {
        let b: u8 = c as u8;
        (b + 32) as char
    } else {
        c
    }
}

/// ASCII lowercase of every character of `s`.
pub fn ascii_lower_vec(s: &Vec<char>) -> (r: Vec<char>)
    ensures
        r@ == ascii_lower_seq(s@),
{
    let mut r: Vec<char> = Vec::new();
    let mut i: usize = 0;
    while i < s.len()
        invariant
            i <= s@.len(),
            r@ == ascii_lower_seq(s@.subrange(0, i as int)),
        decreases s.len() - i,
    {
        let c = ascii_lower_exec(s[i]);
        r.push(c);
        i = i + 1;
        assert(r@ =~= ascii_lower_seq(s@.subrange(0, i as int)));
    }
    assert(s@.subrange(0, s@.len() as int) =~= s@);
    r
}

/// Whether every character of `s` is ASCII.
pub fn all_ascii_exec(s: &Vec<char>) -> (b: bool)
    ensures
        b == all_ascii(s@),
{
    let mut i: usize = 0;
    while i < s.len()
        invariant
            i <= s@.len(),
            forall|k: int| 0 <= k < i ==> (#[trigger] s@[k] as u32) < 128,
        decreases s.len() - i,
    {
        if (s[i] as u32) >= 128 {
            return false;
        }
        i = i + 1;
    }
    true
}

/// The decimal digit character of `d`.
fn digit_exec(d: u64) -> (c: char)
    requires
        d < 10,
    ensures
        c == digit_char(d as nat),
{
    let b: u8 = (48 + d) as u8;
    b as char
}

/// Decimal representation of `n` (what `format!("{}", n)` writes).
pub fn u64_to_decimal(n: u64) -> (r: String)
    ensures
        r@ == decimal(n as nat),
{
    // Digits are produced least significant first, then reversed.
    let mut rev: Vec<char> = Vec::new();
    let mut m = n;
    while m >= 10
        invariant
            decimal(n as nat) == decimal(m as nat) + rev@.reverse(),
        decreases m,
    {
        let d = m % 10;
        let c = digit_exec(d);
        proof {
            assert(decimal(m as nat) == decimal((m / 10) as nat).push(digit_char((m % 10) as nat)));
            assert(decimal((m / 10) as nat).push(c) + rev@.reverse() =~= decimal((m / 10) as nat)
                + rev@.push(c).reverse());
        }
        rev.push(c);
        m = m / 10;
    }
    let c = digit_exec(m);
    rev.push(c);
    proof {
        assert(decimal(m as nat) == seq![c]);
        assert(seq![c] + rev@.drop_last().reverse() =~= rev@.reverse());
    }
    let mut r = String::new();
    let mut k = rev.len();
    while k > 0
        invariant
            k <= rev@.len(),
            r@ == rev@.subrange(k as int, rev@.len() as int).reverse(),
        decreases k,
    {
        k = k - 1;
        push_char(&mut r, rev[k]);
        assert(r@ =~= rev@.subrange(k as int, rev@.len() as int).reverse());
    }
    assert(rev@.subrange(0, rev@.len() as int) =~= rev@);
    r
}

/// The characters `v[from..to]`.
pub fn copy_range(v: &Vec<char>, from: usize, to: usize) -> (r: Vec<char>)
    requires
        from <= to <= v@.len(),
    ensures
        r@ == v@.subrange(from as int, to as int),
{
    let mut r: Vec<char> = Vec::new();
    let mut k = from;
    while k < to
        invariant
            from <= k <= to <= v@.len(),
            r@ == v@.subrange(from as int, k as int),
        decreases to - k,
    {
        r.push(v[k]);
        k = k + 1;
        assert(r@ =~= v@.subrange(from as int, k as int));
    }
    r
}

/// `s` without leading and trailing whitespace (`str::trim`).
pub fn trim_ws_exec(s: &Vec<char>) -> (r: Vec<char>)
    ensures
        r@ == trim_ws(s@),
{
    let n = s.len();
    let mut i: usize = 0;
    while i < n && is_ws_exec(s[i])
        invariant
            n == s@.len(),
            i <= n,
            forall|k: int| 0 <= k < i ==> is_ws(#[trigger] s@[k]),
        decreases n - i,
    {
        i = i + 1;
    }
    proof {
        lemma_trim_ws_start(s@, i as int);
    }
    let ghost mid = s@.subrange(i as int, n as int);
    let mut j: usize = n;
    while j > i && is_ws_exec(s[j - 1])
        invariant
            n == s@.len(),
            i <= j <= n,
            forall|k: int| j <= k < n ==> is_ws(#[trigger] s@[k]),
        decreases j,
    {
        j = j - 1;
    }
    proof {
        assert forall|k: int| j - i <= k < mid.len() implies is_ws(#[trigger] mid[k]) by {
            assert(mid[k] == s@[i + k]);
        }
        if j > i {
            assert(mid[j - i - 1] == s@[j - 1]);
        }
        lemma_trim_ws_end(mid, j - i);
        assert(mid.subrange(0, j - i) =~= s@.subrange(i as int, j as int));
    }
    copy_range(s, i, j)
}

/// A copy of a list of strings.
pub fn clone_strings(v: &Vec<String>) -> (r: Vec<String>)
    ensures
        r@ == v@,
{
    let mut r: Vec<String> = Vec::new();
    let mut i: usize = 0;
    while i < v.len()
        invariant
            i <= v@.len(),
            r@ == v@.subrange(0, i as int),
        decreases v.len() - i,
    {
        r.push(v[i].clone());
        i = i + 1;
        assert(r@ =~= v@.subrange(0, i as int));
    }
    assert(v@.subrange(0, v@.len() as int) =~= v@);
    r
}

/// std's `str::to_lowercase`. The contract names the result, and states
/// the one case the documentation makes plain: on ASCII text the Unicode
/// lowercase mapping maps `A`..`Z` to `a`..`z` and keeps every other
/// character.
#[verifier::external_body]
pub(crate) fn to_lowercase(s: &str) -> (r: String)
    ensures
        r@ == lowercase_of(s@),
        all_ascii(s@) ==> r@ == ascii_lower_seq(s@),
{
    s.to_lowercase()
}

} // verus!
