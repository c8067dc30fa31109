//! Character-level text utilities: whitespace trimming and character
//! search, each with an exact mathematical specification over `Seq<char>`.

use vstd::prelude::*;

verus! {

/// A character counted as whitespace when trimming: the Unicode
/// `White_Space` set, exactly as `char::is_whitespace` accepts it.
pub open spec fn is_space_char(c: char) -> bool {
    c == ' ' || c == '\t' || c == '\n' || c == '\u{0b}' || c == '\u{0c}' || c == '\r'
        || c == '\u{85}' || c == '\u{a0}' || c == '\u{1680}' || c == '\u{2000}' || c == '\u{2001}'
        || c == '\u{2002}' || c == '\u{2003}' || c == '\u{2004}' || c == '\u{2005}'
        || c == '\u{2006}' || c == '\u{2007}' || c == '\u{2008}' || c == '\u{2009}'
        || c == '\u{200a}' || c == '\u{2028}' || c == '\u{2029}' || c == '\u{202f}'
        || c == '\u{205f}' || c == '\u{3000}'
}

/// Runtime test for [`is_space_char`].
pub fn is_space(c: char) -> (r: bool)
    ensures
        r == is_space_char(c),
{
    c == ' ' || c == '\t' || c == '\n' || c == '\u{0b}' || c == '\u{0c}' || c == '\r'
        || c == '\u{85}' || c == '\u{a0}' || c == '\u{1680}' || c == '\u{2000}' || c == '\u{2001}'
        || c == '\u{2002}' || c == '\u{2003}' || c == '\u{2004}' || c == '\u{2005}'
        || c == '\u{2006}' || c == '\u{2007}' || c == '\u{2008}' || c == '\u{2009}'
        || c == '\u{200a}' || c == '\u{2028}' || c == '\u{2029}' || c == '\u{202f}'
        || c == '\u{205f}' || c == '\u{3000}'
}

/// The sequence with its leading whitespace removed.
pub open spec fn trim_start_spec(s: Seq<char>) -> Seq<char>
    decreases s.len(),
{
    if s.len() > 0 && is_space_char(s[0]) {
        trim_start_spec(s.drop_first())
    } else {
        s
    }
}

/// The sequence with its trailing whitespace removed.
pub open spec fn trim_end_spec(s: Seq<char>) -> Seq<char>
    decreases s.len(),
{
    if s.len() > 0 && is_space_char(s.last()) {
        trim_end_spec(s.drop_last())
    } else {
        s
    }
}

/// The sequence with leading and trailing whitespace removed, as
/// `str::trim` leaves it.
pub open spec fn trim_spec(s: Seq<char>) -> Seq<char> {
    trim_end_spec(trim_start_spec(s))
}

proof fn lemma_trim_start_skip(s: Seq<char>, i: int)
    requires
        0 <= i <= s.len(),
        forall|j: int| 0 <= j < i ==> is_space_char(s[j]),
        i == s.len() || !is_space_char(s[i]),
    ensures
        trim_start_spec(s) == s.skip(i),
    decreases i,
{
    if i == 0 {
        assert(s.skip(0) =~= s);
    } else {
        let t = s.drop_first();
        assert(is_space_char(s[0]));
        assert(forall|j: int| 0 <= j < i - 1 ==> is_space_char(t[j]));
        lemma_trim_start_skip(t, i - 1);
        assert(t.skip(i - 1) =~= s.skip(i));
    }
}

proof fn lemma_trim_end_take(s: Seq<char>, i: int)
    requires
        0 <= i <= s.len(),
        forall|j: int| i <= j < s.len() ==> is_space_char(s[j]),
        i == 0 || !is_space_char(s[i - 1]),
    ensures
        trim_end_spec(s) == s.take(i),
    decreases s.len() - i,
{
    if i == s.len() {
        assert(s.take(i) =~= s);
    } else {
        let t = s.drop_last();
        assert(is_space_char(s.last()));
        assert(forall|j: int| i <= j < t.len() ==> is_space_char(t[j]));
        lemma_trim_end_take(t, i);
        assert(t.take(i) =~= s.take(i));
    }
}

/// Both-ends whitespace trim; the verified counterpart of `str::trim`.
pub fn trim(s: &str) -> (r: &str)
    ensures
        r@ == trim_spec(s@),
{
    let len = s.unicode_len();
    let mut lo: usize = 0;
    while lo < len && is_space(s.get_char(lo))
        invariant
            0 <= lo <= len,
            len == s@.len(),
            forall|j: int| 0 <= j < lo ==> is_space_char(s@[j]),
        decreases len - lo,
    {
        lo = lo + 1;
    }
    let mut hi: usize = len;
    while hi > lo && is_space(s.get_char(hi - 1))
        invariant
            lo <= hi <= len,
            len == s@.len(),
            forall|j: int| hi <= j < len ==> is_space_char(s@[j]),
        decreases hi,
    {
        hi = hi - 1;
    }
    proof {
        lemma_trim_start_skip(s@, lo as int);
        let t = s@.skip(lo as int);
        assert(forall|j: int| hi - lo <= j < t.len() ==> is_space_char(t[j]));
        lemma_trim_end_take(t, hi - lo);
        assert(t.take(hi - lo) =~= s@.subrange(lo as int, hi as int));
    }
    s.substring_char(lo, hi)
}

/// Position of the first occurrence of `c` in `s`, if any.
pub open spec fn find_char_spec(s: Seq<char>, c: char) -> Option<int>
    decreases s.len(),
{
    if s.len() == 0 {
        None
    } else if s[0] == c {
        Some(0int)
    } else {
        match find_char_spec(s.drop_first(), c) {
            Some(i) => Some(i + 1),
            None => None,
        }
    }
}

/// What [`find_char_spec`] returns: the first index holding `c`, or
/// `None` when `c` never occurs.
pub proof fn lemma_find_char(s: Seq<char>, c: char)
    ensures
        match find_char_spec(s, c) {
            Some(i) => 0 <= i < s.len() && s[i] == c && (forall|j: int| 0 <= j < i ==> s[j] != c),
            None => forall|j: int| 0 <= j < s.len() ==> s[j] != c,
        },
    decreases s.len(),
{
    if s.len() == 0 {
    } else if s[0] == c {
    } else {
        let t = s.drop_first();
        lemma_find_char(t, c);
        match find_char_spec(t, c) {
            Some(i) => {
                assert(forall|j: int| 0 <= j < i + 1 ==> s[j] != c) by {
                    assert(forall|j: int| 1 <= j < i + 1 ==> s[j] == t[j - 1]);
                }
            },
            None => {
                assert(forall|j: int| 0 <= j < s.len() ==> s[j] != c) by {
                    assert(forall|j: int| 1 <= j < s.len() ==> s[j] == t[j - 1]);
                }
            },
        }
    }
}

/// First occurrence of `c` in `s`; the verified counterpart of `str::find`.
pub fn find_char(s: &str, c: char) -> (r: Option<usize>)
    ensures
        match r {
            Some(i) => find_char_spec(s@, c) == Some(i as int),
            None => find_char_spec(s@, c) is None,
        },
{
    let len = s.unicode_len();
    let mut i: usize = 0;
    while i < len
        invariant
            0 <= i <= len,
            len == s@.len(),
            forall|j: int| 0 <= j < i ==> s@[j] != c,
        decreases len - i,
    {
        if s.get_char(i) == c {
            proof {
                lemma_find_char(s@, c);
            }
            return Some(i);
        }
        i = i + 1;
    }
    proof {
        lemma_find_char(s@, c);
    }
    None
}

/// Position of the last occurrence of `c` in `s`, if any.
pub open spec fn rfind_char_spec(s: Seq<char>, c: char) -> Option<int>
    decreases s.len(),
{
    if s.len() == 0 {
        None
    } else if s.last() == c {
        Some(s.len() - 1)
    } else {
        rfind_char_spec(s.drop_last(), c)
    }
}

/// What [`rfind_char_spec`] returns: the last index holding `c`, or
/// `None` when `c` never occurs.
pub proof fn lemma_rfind_char(s: Seq<char>, c: char)
    ensures
        match rfind_char_spec(s, c) {
            Some(i) => 0 <= i < s.len() && s[i] == c && (forall|j: int|
                i < j < s.len() ==> s[j] != c),
            None => forall|j: int| 0 <= j < s.len() ==> s[j] != c,
        },
    decreases s.len(),
{
    if s.len() == 0 {
    } else if s.last() == c {
    } else {
        let t = s.drop_last();
        lemma_rfind_char(t, c);
        assert(forall|j: int| 0 <= j < t.len() ==> s[j] == t[j]);
        match rfind_char_spec(t, c) {
            Some(i) => {
                assert(forall|j: int| i < j < s.len() ==> s[j] != c) by {
                    assert(s[s.len() - 1] != c);
                }
            },
            None => {
                assert(forall|j: int| 0 <= j < s.len() ==> s[j] != c) by {
                    assert(s[s.len() - 1] != c);
                }
            },
        }
    }
}

/// Last occurrence of `c` in `s`; the verified counterpart of `str::rfind`.
pub fn rfind_char(s: &str, c: char) -> (r: Option<usize>)
    ensures
        match r {
            Some(i) => rfind_char_spec(s@, c) == Some(i as int),
            None => rfind_char_spec(s@, c) is None,
        },
{
    let len = s.unicode_len();
    let mut i: usize = len;
    while i > 0
        invariant
            0 <= i <= len,
            len == s@.len(),
            forall|j: int| i <= j < len ==> s@[j] != c,
        decreases i,
    {
        if s.get_char(i - 1) == c {
            proof {
                lemma_rfind_char(s@, c);
            }
            return Some(i - 1);
        }
        i = i - 1;
    }
    proof {
        lemma_rfind_char(s@, c);
    }
    None
}

/// The sequence with every trailing double-quote character removed, as
/// `str::trim_end_matches('"')` leaves it.
pub open spec fn trim_end_quotes_spec(s: Seq<char>) -> Seq<char>
    decreases s.len(),
{
    if s.len() > 0 && s.last() == '"' {
        trim_end_quotes_spec(s.drop_last())
    } else {
        s
    }
}

proof fn lemma_trim_end_quotes_take(s: Seq<char>, i: int)
    requires
        0 <= i <= s.len(),
        forall|j: int| i <= j < s.len() ==> s[j] == '"',
        i == 0 || s[i - 1] != '"',
    ensures
        trim_end_quotes_spec(s) == s.take(i),
    decreases s.len() - i,
{
    if i == s.len() {
        assert(s.take(i) =~= s);
    } else {
        let t = s.drop_last();
        assert(s.last() == '"');
        assert(forall|j: int| i <= j < t.len() ==> t[j] == '"');
        lemma_trim_end_quotes_take(t, i);
        assert(t.take(i) =~= s.take(i));
    }
}

/// Removes every trailing `"` character; the verified counterpart of
/// `str::trim_end_matches('"')`.
pub fn trim_end_quotes(s: &str) -> (r: &str)
    ensures
        r@ == trim_end_quotes_spec(s@),
{
    let len = s.unicode_len();
    let mut h: usize = len;
    while h > 0 && s.get_char(h - 1) == '"'
        invariant
            0 <= h <= len,
            len == s@.len(),
            forall|j: int| h <= j < len ==> s@[j] == '"',
        decreases h,
    {
        h = h - 1;
    }
    proof {
        lemma_trim_end_quotes_take(s@, h as int);
        assert(s@.take(h as int) =~= s@.subrange(0, h as int));
    }
    s.substring_char(0, h)
}

} // verus!
