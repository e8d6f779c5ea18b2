//! Character-level string operations with their specifications.
use vstd::prelude::*;

verus! {

/// The Unicode `White_Space` property, which `char::is_whitespace` follows.
pub open spec fn is_white_space(c: char) -> bool {
    let n = c as u32;
    ||| 0x09 <= n <= 0x0D
    ||| n == 0x20
    ||| n == 0x85
    ||| n == 0xA0
    ||| n == 0x1680
    ||| 0x2000 <= n <= 0x200A
    ||| n == 0x2028
    ||| n == 0x2029
    ||| n == 0x202F
    ||| n == 0x205F
    ||| n == 0x3000
}

/// `s` with its leading white space removed.
pub open spec fn trim_start(s: Seq<char>) -> Seq<char>
    decreases s.len(),
{
    if s.len() > 0 && is_white_space(s[0]) {
        trim_start(s.drop_first())
    } else {
        s
    }
}

/// `s` with its trailing white space removed.
pub open spec fn trim_end(s: Seq<char>) -> Seq<char>
    decreases s.len(),
{
    if s.len() > 0 && is_white_space(s.last()) {
        trim_end(s.drop_last())
    } else {
        s
    }
}

/// `s` with white space removed at both ends, as `str::trim` does.
pub open spec fn trim(s: Seq<char>) -> Seq<char> {
    trim_end(trim_start(s))
}

/// `s` holds nothing but white space (its trimmed form is empty).
pub open spec fn is_blank(s: Seq<char>) -> bool {
    trim(s).len() == 0
}

/// The index of the first occurrence of `c` in `s`.
pub open spec fn first_index_of(s: Seq<char>, c: char) -> Option<int>
    decreases s.len(),
{
    if s.len() == 0 {
        None
    } else if s[0] == c {
        Some(0)
    } else {
        match first_index_of(s.drop_first(), c) {
            Some(i) => Some(i + 1),
            None => None,
        }
    }
}

pub proof fn lemma_first_index_of_props(s: Seq<char>, c: char)
    ensures
        match first_index_of(s, c) {
            Some(i) => 0 <= i < s.len() && s[i] == c && forall|j: int| 0 <= j < i ==> s[j] != c,
            None => !s.contains(c),
        },
    decreases s.len(),
{
    if s.len() > 0 && s[0] != c {
        let t = s.drop_first();
        lemma_first_index_of_props(t, c);
        match first_index_of(t, c) {
            Some(i) => {
                assert forall|j: int| 0 <= j < i + 1 implies s[j] != c by {
                    if j > 0 {
                        assert(s[j] == t[j - 1]);
                    }
                }
            },
            None => {
                if s.contains(c) {
                    let k = choose|k: int| 0 <= k < s.len() && s[k] == c;
                    assert(t[k - 1] == c);
                }
            },
        }
    }
}

/// `s` split around the first occurrence of `c`, as `str::split_once` does.
pub open spec fn split_once(s: Seq<char>, c: char) -> Option<(Seq<char>, Seq<char>)> {
    match first_index_of(s, c) {
        Some(i) => Some((s.subrange(0, i), s.subrange(i + 1, s.len() as int))),
        None => None,
    }
}

/// `s` without its first character when that character is `c`.
pub open spec fn strip_prefix(s: Seq<char>, c: char) -> Option<Seq<char>> {
    if s.len() > 0 && s[0] == c {
        Some(s.drop_first())
    } else {
        None
    }
}

pub proof fn lemma_first_index_of(s: Seq<char>, c: char, i: int)
    requires
        0 <= i < s.len(),
        s[i] == c,
        forall|j: int| 0 <= j < i ==> s[j] != c,
    ensures
        first_index_of(s, c) == Some(i),
{
    lemma_first_index_of_props(s, c);
    assert(s.contains(c));
}

/// The part before the first separator holds no separator.
pub proof fn lemma_split_once_parts(s: Seq<char>, c: char)
    ensures
        split_once(s, c) matches Some(p) ==> !p.0.contains(c) && s == p.0 + seq![c] + p.1,
{
    lemma_first_index_of_props(s, c);
    if let Some(p) = split_once(s, c) {
        let i = first_index_of(s, c)->Some_0;
        assert(p.0 =~= s.subrange(0, i));
        if p.0.contains(c) {
            let k = choose|k: int| 0 <= k < p.0.len() && p.0[k] == c;
            assert(s[k] == c);
        }
        assert(s =~= p.0 + seq![c] + p.1);
    }
}

/// Decides the Unicode `White_Space` property of `c`.
pub fn is_whitespace_char(c: char) -> (r: bool)
    ensures
        r == is_white_space(c),
{
    let n = c as u32;
    (0x09 <= n && n <= 0x0D) || n == 0x20 || n == 0x85 || n == 0xA0 || n == 0x1680 || (0x2000
        <= n && n <= 0x200A) || n == 0x2028 || n == 0x2029 || n == 0x202F || n == 0x205F || n
        == 0x3000
}

proof fn lemma_trim_start_skip(s: Seq<char>, i: int)
    requires
        0 <= i < s.len(),
        is_white_space(s[i]),
    ensures
        trim_start(s.subrange(i, s.len() as int)) == trim_start(s.subrange(i + 1, s.len() as int)),
{
    let t = s.subrange(i, s.len() as int);
    assert(t.drop_first() =~= s.subrange(i + 1, s.len() as int));
}

proof fn lemma_trim_end_skip(s: Seq<char>, j: int)
    requires
        0 < j <= s.len(),
        is_white_space(s[j - 1]),
    ensures
        trim_end(s.subrange(0, j)) == trim_end(s.subrange(0, j - 1)),
{
    let t = s.subrange(0, j);
    assert(t.drop_last() =~= s.subrange(0, j - 1));
}

/// `s` with white space removed at both ends.
pub fn trim_str(s: &str) -> (r: &str)
    ensures
        r@ == trim(s@),
{
    let len = s.unicode_len();
    let mut i: usize = 0;
    assert(s@.subrange(0, len as int) =~= s@);
    while i < len && is_whitespace_char(s.get_char(i))
        invariant
            len == s@.len(),
            i <= len,
            trim_start(s@) == trim_start(s@.subrange(i as int, len as int)),
        decreases len - i,
    {
        proof {
            lemma_trim_start_skip(s@, i as int);
        }
        i = i + 1;
    }
    let ghost rest = s@.subrange(i as int, len as int);
    assert(trim_start(rest) == rest);
    let mut j: usize = len;
    assert(rest.subrange(0, (j - i) as int) =~= rest);
    while j > i && is_whitespace_char(s.get_char(j - 1))
        invariant
            len == s@.len(),
            i <= j <= len,
            rest == s@.subrange(i as int, len as int),
            trim_end(rest) == trim_end(rest.subrange(0, (j - i) as int)),
        decreases j,
    {
        proof {
            assert(rest[(j - 1 - i) as int] == s@[j - 1]);
            lemma_trim_end_skip(rest, (j - i) as int);
        }
        j = j - 1;
    }
    let r = s.substring_char(i, j);
    assert(r@ =~= rest.subrange(0, (j - i) as int));
    r
}

/// Decides whether `s` holds nothing but white space.
pub fn is_blank_str(s: &str) -> (r: bool)
    ensures
        r == is_blank(s@),
{
    trim_str(s).unicode_len() == 0
}

/// Decides whether `a` and `b` hold the same characters.
pub fn str_eq(a: &str, b: &str) -> (r: bool)
    ensures
        r == (a@ == b@),
{
    let n = a.unicode_len();
    let m = b.unicode_len();
    if n != m {
        return false;
    }
    let mut i: usize = 0;
    while i < n
        invariant
            n == a@.len(),
            m == b@.len(),
            n == m,
            i <= n,
            forall|k: int| 0 <= k < i ==> a@[k] == b@[k],
        decreases n - i,
    {
        if a.get_char(i) != b.get_char(i) {
            return false;
        }
        i = i + 1;
    }
    assert(a@ =~= b@);
    true
}

/// The index of the first occurrence of `c` in `s`.
pub fn find_char(s: &str, c: char) -> (r: Option<usize>)
    ensures
        r matches Some(i) ==> first_index_of(s@, c) == Some(i as int) && i < s@.len() && s@[i as int]
            == c && forall|j: int| 0 <= j < i ==> s@[j] != c,
        r is None ==> first_index_of(s@, c) is None && !s@.contains(c),
{
    let n = s.unicode_len();
    let mut i: usize = 0;
    while i < n
        invariant
            n == s@.len(),
            i <= n,
            forall|k: int| 0 <= k < i ==> s@[k] != c,
        decreases n - i,
    {
        if s.get_char(i) == c {
            proof {
                lemma_first_index_of(s@, c, i as int);
            }
            return Some(i);
        }
        i = i + 1;
    }
    proof {
        lemma_first_index_of_props(s@, c);
    }
    None
}

/// Decides whether `c` occurs in `s`.
pub fn contains_char(s: &str, c: char) -> (r: bool)
    ensures
        r == s@.contains(c),
{
    match find_char(s, c) {
        Some(i) => true,
        None => false,
    }
}

/// Decides whether `s` begins with `c`.
pub fn starts_with_char(s: &str, c: char) -> (r: bool)
    ensures
        r == (s@.len() > 0 && s@[0] == c),
{
    s.unicode_len() > 0 && s.get_char(0) == c
}

/// `s` without its first character when that character is `c`.
pub fn strip_prefix_char(s: &str, c: char) -> (r: Option<&str>)
    ensures
        r matches Some(t) ==> strip_prefix(s@, c) == Some(t@),
        r is None ==> strip_prefix(s@, c) is None,
{
    let n = s.unicode_len();
    if n > 0 && s.get_char(0) == c {
        let t = s.substring_char(1, n);
        assert(t@ =~= s@.drop_first());
        Some(t)
    } else {
        None
    }
}

/// `s` split around the first occurrence of `c`.
pub fn split_once_char(s: &str, c: char) -> (r: Option<(&str, &str)>)
    ensures
        r matches Some(p) ==> split_once(s@, c) == Some((p.0@, p.1@)),
        r is None ==> split_once(s@, c) is None,
{
    let n = s.unicode_len();
    match find_char(s, c) {
        Some(i) => {
            let left = s.substring_char(0, i);
            let right = s.substring_char(i + 1, n);
            Some((left, right))
        },
        None => None,
    }
}

/// `needle` occurs in `haystack`.
pub open spec fn contains_seq(haystack: Seq<char>, needle: Seq<char>) -> bool {
    exists|i: int|
        0 <= i && i + needle.len() <= haystack.len() && #[trigger] haystack.subrange(
            i,
            i + needle.len(),
        ) == needle
}

/// Decides whether `needle` occurs in `haystack`.
pub fn contains_str(haystack: &str, needle: &str) -> (r: bool)
    ensures
        r == contains_seq(haystack@, needle@),
{
    let n = haystack.unicode_len();
    let m = needle.unicode_len();
    if m > n {
        assert forall|i: int|
            0 <= i && i + needle@.len() <= haystack@.len() implies #[trigger] haystack@.subrange(
            i,
            i + needle@.len(),
        ) != needle@ by {}
        return false;
    }
    let last = n - m;
    let mut i: usize = 0;
    loop
        invariant
            n == haystack@.len(),
            m == needle@.len(),
            m <= n,
            last == n - m,
            i <= last,
            forall|k: int| 0 <= k < i ==> #[trigger] haystack@.subrange(k, k + m) != needle@,
        decreases last - i,
    {
        let mut j: usize = 0;
        let mut matched = true;
        while j < m
            invariant
                n == haystack@.len(),
                m == needle@.len(),
                i + m <= n,
                j <= m,
                matched ==> forall|t: int| 0 <= t < j ==> haystack@[i + t] == needle@[t],
                !matched ==> haystack@.subrange(i as int, i + m) != needle@,
            decreases m - j,
        {
            if matched && haystack.get_char(i + j) != needle.get_char(j) {
                assert(haystack@.subrange(i as int, i + m)[j as int] != needle@[j as int]);
                matched = false;
            }
            j = j + 1;
        }
        if matched {
            assert(haystack@.subrange(i as int, i + m) =~= needle@);
            return true;
        }
        if i == last {
            assert forall|k: int|
                0 <= k && k + needle@.len() <= haystack@.len() implies #[trigger] haystack@.subrange(
                k,
                k + needle@.len(),
            ) != needle@ by {
                assert(k <= i);
            }
            return false;
        }
        i = i + 1;
    }
}

} // verus!
