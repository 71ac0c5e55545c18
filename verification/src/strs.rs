//! Character-sequence helpers shared by the manifest parser: prefix tests,
//! whitespace classification and trimming, and character searches.

use vstd::prelude::*;
use vstd::string::StrSliceExecFns;

verus! {

/// `p` is a prefix of `s`.
pub open spec fn seq_starts_with(s: Seq<char>, p: Seq<char>) -> bool {
    p.len() <= s.len() && s.subrange(0, p.len() as int) == p
}

pub fn str_starts_with(s: &str, p: &str) -> (r: bool)
    ensures
        r == seq_starts_with(s@, p@),
{
    let sl = s.unicode_len();
    let pl = p.unicode_len();
    if pl > sl {
        return false;
    }
    let mut i: usize = 0;
    while i < pl
        invariant
            pl == p@.len(),
            sl == s@.len(),
            pl <= sl,
            i <= pl,
            forall|j: int| 0 <= j < i ==> s@[j] == p@[j],
        decreases pl - i,
    {
        if s.get_char(i) != p.get_char(i) {
            assert(s@.subrange(0, p@.len() as int)[i as int] == s@[i as int]);
            return false;
        }
        i += 1;
    }
    assert(s@.subrange(0, pl as int) =~= p@);
    true
}

/// `str::strip_prefix`: the remainder of `s` after `p`, when `p` leads it.
pub fn str_strip_prefix<'a>(s: &'a str, p: &str) -> (r: Option<&'a str>)
    ensures
        match r {
            Some(t) => seq_starts_with(s@, p@) && t@ == s@.skip(p@.len() as int),
            None => !seq_starts_with(s@, p@),
        },
{
    if str_starts_with(s, p) {
        let sl = s.unicode_len();
        let pl = p.unicode_len();
        let t = s.substring_char(pl, sl);
        assert(t@ =~= s@.skip(p@.len() as int));
        Some(t)
    } else {
        None
    }
}

/// The position of the first occurrence of `c` in `s`.
pub open spec fn first_index_of(s: Seq<char>, c: char) -> Option<int>
    decreases s.len(),
{
    if s.len() == 0 {
        None
    } else if s[0] == c {
        Some(0)
    } else {
        match first_index_of(s.skip(1), c) {
            Some(i) => Some(i + 1),
            None => None,
        }
    }
}

pub proof fn lemma_first_index_of_at(s: Seq<char>, c: char, i: int)
    requires
        0 <= i <= s.len(),
        forall|j: int| 0 <= j < i ==> s[j] != c,
        i < s.len() ==> s[i] == c,
    ensures
        first_index_of(s, c) == if i < s.len() {
            Some(i)
        } else {
            None::<int>
        },
    decreases i,
{
    if i == 0 {
        if s.len() > 0 {
        }
    } else {
        assert(s[0] != c);
        lemma_first_index_of_at(s.skip(1), c, i - 1);
    }
}

pub proof fn lemma_first_index_of_none(s: Seq<char>, c: char)
    requires
        first_index_of(s, c) is None,
    ensures
        forall|j: int| 0 <= j < s.len() ==> s[j] != c,
    decreases s.len(),
{
    if s.len() > 0 {
        lemma_first_index_of_none(s.skip(1), c);
        assert forall|j: int| 0 <= j < s.len() implies s[j] != c by {
            if j > 0 {
                assert(s.skip(1)[j - 1] != c);
            }
        }
    }
}

pub fn str_find(s: &str, c: char) -> (r: Option<usize>)
    ensures
        match r {
            Some(i) => i < s@.len() && s@[i as int] == c && first_index_of(s@, c) == Some(i as int),
            None => first_index_of(s@, c) is None,
        },
{
    let l = s.unicode_len();
    let mut i: usize = 0;
    while i < l
        invariant
            l == s@.len(),
            i <= l,
            forall|j: int| 0 <= j < i ==> s@[j] != c,
        decreases l - i,
    {
        if s.get_char(i) == c {
            proof {
                lemma_first_index_of_at(s@, c, i as int);
            }
            return Some(i);
        }
        i += 1;
    }
    proof {
        lemma_first_index_of_at(s@, c, l as int);
    }
    None
}

/// The position of the last occurrence of `c` in `s`.
pub open spec fn last_index_of(s: Seq<char>, c: char) -> Option<int>
    decreases s.len(),
{
    if s.len() == 0 {
        None
    } else if s.last() == c {
        Some(s.len() - 1)
    } else {
        last_index_of(s.drop_last(), c)
    }
}

pub proof fn lemma_last_index_of_at(s: Seq<char>, c: char, i: int)
    requires
        0 <= i <= s.len(),
        forall|j: int| i <= j < s.len() ==> s[j] != c,
        i > 0 ==> s[i - 1] == c,
    ensures
        last_index_of(s, c) == if i > 0 {
            Some(i - 1)
        } else {
            None::<int>
        },
    decreases s.len() - i,
{
    if i == s.len() {
        if i == 0 {
        }
    } else {
        assert(s.last() != c);
        assert(s.drop_last() =~= s.subrange(0, s.len() - 1));
        lemma_last_index_of_at(s.drop_last(), c, i);
    }
}

pub fn str_rfind(s: &str, c: char) -> (r: Option<usize>)
    ensures
        match r {
            Some(i) => i < s@.len() && s@[i as int] == c && last_index_of(s@, c) == Some(i as int),
            None => last_index_of(s@, c) is None,
        },
{
    let l = s.unicode_len();
    let mut i: usize = l;
    while i > 0
        invariant
            l == s@.len(),
            i <= l,
            forall|j: int| i <= j < l ==> s@[j] != c,
        decreases i,
    {
        if s.get_char(i - 1) == c {
            proof {
                lemma_last_index_of_at(s@, c, i as int);
            }
            return Some(i - 1);
        }
        i -= 1;
    }
    proof {
        lemma_last_index_of_at(s@, c, 0);
    }
    None
}

/// The two character sequences are equal.
pub fn str_eq(a: &str, b: &str) -> (r: bool)
    ensures
        r == (a@ == b@),
{
    let al = a.unicode_len();
    let bl = b.unicode_len();
    if al != bl {
        return false;
    }
    let mut i: usize = 0;
    while i < al
        invariant
            al == a@.len(),
            bl == b@.len(),
            al == bl,
            i <= al,
            forall|j: int| 0 <= j < i ==> a@[j] == b@[j],
        decreases al - i,
    {
        if a.get_char(i) != b.get_char(i) {
            return false;
        }
        i += 1;
    }
    assert(a@ =~= b@);
    true
}

/// The characters that `str::trim` removes: Unicode `White_Space`.
pub open spec fn is_ws(c: char) -> bool {
    c == ' ' || c == '\t' || c == '\n' || c == '\r' || c as u32 == 0x000B || c as u32 == 0x000C
        || c as u32 == 0x0085 || c as u32 == 0x00A0 || c as u32 == 0x1680 || (0x2000 <= c as u32
        && c as u32 <= 0x200A) || c as u32 == 0x2028 || c as u32 == 0x2029 || c as u32 == 0x202F
        || c as u32 == 0x205F || c as u32 == 0x3000
}

pub fn is_ws_char(c: char) -> (r: bool)
    ensures
        r == is_ws(c),
{
    c == ' ' || c == '\t' || c == '\n' || c == '\r' || c as u32 == 0x000B || c as u32 == 0x000C
        || c as u32 == 0x0085 || c as u32 == 0x00A0 || c as u32 == 0x1680 || (0x2000 <= c as u32
        && c as u32 <= 0x200A) || c as u32 == 0x2028 || c as u32 == 0x2029 || c as u32 == 0x202F
        || c as u32 == 0x205F || c as u32 == 0x3000
}

/// Every character of `s` is whitespace; true of the empty sequence.
pub open spec fn seq_all_ws(s: Seq<char>) -> bool {
    forall|i: int| 0 <= i < s.len() ==> is_ws(s[i])
}

pub fn str_is_blank(s: &str) -> (r: bool)
    ensures
        r == seq_all_ws(s@),
{
    let l = s.unicode_len();
    let mut i: usize = 0;
    while i < l
        invariant
            l == s@.len(),
            i <= l,
            forall|j: int| 0 <= j < i ==> is_ws(s@[j]),
        decreases l - i,
    {
        if !is_ws_char(s.get_char(i)) {
            return false;
        }
        i += 1;
    }
    true
}

/// How many whitespace characters `s` begins with.
pub open spec fn leading_ws(s: Seq<char>) -> int
    decreases s.len(),
{
    if s.len() == 0 {
        0
    } else if is_ws(s[0]) {
        1 + leading_ws(s.skip(1))
    } else {
        0
    }
}

/// How many whitespace characters `s` ends with.
pub open spec fn trailing_ws(s: Seq<char>) -> int
    decreases s.len(),
{
    if s.len() == 0 {
        0
    } else if is_ws(s.last()) {
        1 + trailing_ws(s.drop_last())
    } else {
        0
    }
}

/// `s` with leading and trailing whitespace removed, as `str::trim` leaves it.
pub open spec fn trim_seq(s: Seq<char>) -> Seq<char> {
    if seq_all_ws(s) {
        Seq::empty()
    } else {
        s.subrange(leading_ws(s), s.len() - trailing_ws(s))
    }
}

proof fn lemma_leading_ws_at(s: Seq<char>, i: int)
    requires
        0 <= i <= s.len(),
        forall|j: int| 0 <= j < i ==> is_ws(s[j]),
        i < s.len() ==> !is_ws(s[i]),
    ensures
        leading_ws(s) == i,
    decreases i,
{
    if i == 0 {
        if s.len() > 0 {
            assert(!is_ws(s[0]));
        }
    } else {
        assert(is_ws(s[0]));
        lemma_leading_ws_at(s.skip(1), i - 1);
    }
}

proof fn lemma_trailing_ws_at(s: Seq<char>, i: int)
    requires
        0 <= i <= s.len(),
        forall|j: int| s.len() - i <= j < s.len() ==> is_ws(s[j]),
        i < s.len() ==> !is_ws(s[s.len() - i - 1]),
    ensures
        trailing_ws(s) == i,
    decreases i,
{
    if i == 0 {
        if s.len() > 0 {
            assert(!is_ws(s.last()));
        }
    } else {
        assert(is_ws(s.last()));
        lemma_trailing_ws_at(s.drop_last(), i - 1);
    }
}

fn first_non_ws(s: &str) -> (r: Option<usize>)
    ensures
        match r {
            Some(i) => i < s@.len() && !is_ws(s@[i as int]) && forall|j: int|
                0 <= j < i ==> is_ws(s@[j]),
            None => seq_all_ws(s@),
        },
{
    let l = s.unicode_len();
    let mut i: usize = 0;
    while i < l
        invariant
            l == s@.len(),
            i <= l,
            forall|j: int| 0 <= j < i ==> is_ws(s@[j]),
        decreases l - i,
    {
        if !is_ws_char(s.get_char(i)) {
            return Some(i);
        }
        i += 1;
    }
    None
}

fn last_non_ws(s: &str) -> (r: Option<usize>)
    ensures
        match r {
            Some(i) => i < s@.len() && !is_ws(s@[i as int]) && forall|j: int|
                i < j < s@.len() ==> is_ws(s@[j]),
            None => seq_all_ws(s@),
        },
{
    let l = s.unicode_len();
    let mut i: usize = l;
    while i > 0
        invariant
            l == s@.len(),
            i <= l,
            forall|j: int| i <= j < l ==> is_ws(s@[j]),
        decreases i,
    {
        if !is_ws_char(s.get_char(i - 1)) {
            return Some(i - 1);
        }
        i -= 1;
    }
    None
}

/// `str::trim`, returning `None` when nothing but whitespace is left.
pub fn str_trim_nonempty<'a>(s: &'a str) -> (r: Option<&'a str>)
    ensures
        match r {
            Some(t) => trim_seq(s@) == t@ && t@.len() > 0,
            None => trim_seq(s@).len() == 0,
        },
{
    let l = s.unicode_len();
    let a = match first_non_ws(s) {
        Some(a) => a,
        None => {
            return None;
        },
    };
    let b = match last_non_ws(s) {
        Some(b) => b,
        None => {
            return None;
        },
    };
    assert(a <= b) by {
        if b < a {
            assert(is_ws(s@[a as int]));
        }
    }
    proof {
        lemma_leading_ws_at(s@, a as int);
        lemma_trailing_ws_at(s@, s@.len() - b - 1);
        assert(!seq_all_ws(s@));
    }
    let t = s.substring_char(a, b + 1);
    assert(t@ == trim_seq(s@));
    Some(t)
}

} // verus!
