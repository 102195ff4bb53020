//! Verified string helpers: equality, prefix and substring search, case
//! folding, whitespace trimming, line splitting, and decimal rendering.
//! These are the building blocks for header parsing, search, and display
//! labels elsewhere in the crate.
use vstd::prelude::*;

verus! {

use vstd::string::StrSliceExecFns;

/// Unicode lowercasing as performed by `str::to_lowercase`. The full folding
/// table is far too large to state here; the result depends on the input
/// characters alone, so it is only given a name.
pub uninterp spec fn lower_of(s: Seq<char>) -> Seq<char>;

/// Relies on str::to_lowercase: the result is a function of the characters
/// alone, and an empty string stays empty.
#[verifier::external_body]
pub(crate) fn lowercase(s: &str) -> (r: String)
    ensures
        r@ == lower_of(s@),
        s@.len() == 0 ==> r@.len() == 0,
{
    s.to_lowercase()
}

/// Relies on String::push: appends exactly the one character.
#[verifier::external_body]
pub(crate) fn push_char(s: &mut String, c: char)
    ensures
        final(s)@ == old(s)@.push(c),
{
    s.push(c)
}

/// String equality by contents.
pub fn str_eq(a: &str, b: &str) -> (r: bool)
    ensures
        r == (a@ == b@),
{
    a.to_owned() == b.to_owned()
}

/// `p` occurs in `s` starting at character position `i`.
pub open spec fn sub_match(s: Seq<char>, p: Seq<char>, i: int) -> bool {
    &&& 0 <= i
    &&& i + p.len() <= s.len()
    &&& forall|j: int| 0 <= j < p.len() ==> s[i + j] == p[j]
}

/// `p` occurs somewhere in `s`.
pub open spec fn contains_seq(s: Seq<char>, p: Seq<char>) -> bool {
    exists|i: int| sub_match(s, p, i)
}

/// Does `p` occur in `s` starting at position `i`?
fn match_at(s: &str, p: &str, i: usize, s_len: usize, p_len: usize) -> (r: bool)
    requires
        s_len == s@.len(),
        p_len == p@.len(),
        i + p_len <= s_len,
    ensures
        r == sub_match(s@, p@, i as int),
{
    let mut j: usize = 0;
    while j < p_len
        invariant
            j <= p_len,
            s_len == s@.len(),
            p_len == p@.len(),
            i + p_len <= s_len,
            forall|k: int| 0 <= k < j ==> s@[i + k] == p@[k],
        decreases p_len - j,
    {
        if s.get_char(i + j) != p.get_char(j) {
            return false;
        }
        j = j + 1;
    }
    true
}

/// Character position of the first occurrence of `p` in `s`, if any.
pub fn find_sub(s: &str, p: &str) -> (r: Option<usize>)
    ensures
        match r {
            Some(i) => sub_match(s@, p@, i as int) && forall|k: int|
                0 <= k < i ==> !sub_match(s@, p@, k),
            None => forall|k: int| !sub_match(s@, p@, k),
        },
{
    let s_len = s.unicode_len();
    let p_len = p.unicode_len();
    if p_len > s_len {
        return None;
    }
    let mut i: usize = 0;
    while i <= s_len - p_len
        invariant
            p_len <= s_len,
            i <= s_len - p_len + 1,
            s_len == s@.len(),
            p_len == p@.len(),
            forall|k: int| 0 <= k < i ==> !sub_match(s@, p@, k),
        decreases s_len - p_len - i + 1,
    {
        if match_at(s, p, i, s_len, p_len) {
            return Some(i);
        }
        i = i + 1;
    }
    None
}

/// Does `p` occur anywhere in `s`?
pub fn contains_sub(s: &str, p: &str) -> (r: bool)
    ensures
        r == contains_seq(s@, p@),
{
    find_sub(s, p).is_some()
}

/// `p` is a prefix of `s`.
pub open spec fn has_prefix_seq(s: Seq<char>, p: Seq<char>) -> bool {
    sub_match(s, p, 0)
}

/// Does `s` start with `p`?
pub fn has_prefix(s: &str, p: &str) -> (r: bool)
    ensures
        r == has_prefix_seq(s@, p@),
{
    let s_len = s.unicode_len();
    let p_len = p.unicode_len();
    if p_len > s_len {
        return false;
    }
    match_at(s, p, 0, s_len, p_len)
}

/// Character position of the first occurrence of the character `c` in `s`.
pub fn find_char(s: &str, c: char) -> (r: Option<usize>)
    ensures
        match r {
            Some(i) => i < s@.len() && s@[i as int] == c && forall|k: int|
                0 <= k < i ==> s@[k] != c,
            None => forall|k: int| 0 <= k < s@.len() ==> s@[k] != c,
        },
{
    let s_len = s.unicode_len();
    let mut i: usize = 0;
    while i < s_len
        invariant
            i <= s_len,
            s_len == s@.len(),
            forall|k: int| 0 <= k < i ==> s@[k] != c,
        decreases s_len - i,
    {
        if s.get_char(i) == c {
            return Some(i);
        }
        i = i + 1;
    }
    None
}

/// Copy of the characters of `s` from position `from` (inclusive) to `to`
/// (exclusive).
pub fn substring_copy(s: &str, from: usize, to: usize) -> (r: String)
    requires
        from <= to <= s@.len(),
    ensures
        r@ == s@.subrange(from as int, to as int),
{
    s.substring_char(from, to).to_owned()
}

/// Horizontal and vertical whitespace stripped from field values.
pub open spec fn is_hspace(c: char) -> bool {
    c == ' ' || c == '\t' || c == '\r' || c == '\n'
}

/// Is `c` whitespace in the sense of `is_hspace`?
pub fn hspace(c: char) -> (r: bool)
    ensures
        r == is_hspace(c),
{
    c == ' ' || c == '\t' || c == '\r' || c == '\n'
}

/// `s` with its leading whitespace removed.
pub open spec fn trim_front_of(s: Seq<char>) -> Seq<char>
    decreases s.len(),
{
    if s.len() > 0 && is_hspace(s[0]) {
        trim_front_of(s.drop_first())
    } else {
        s
    }
}

/// `s` with its trailing whitespace removed.
pub open spec fn trim_back_of(s: Seq<char>) -> Seq<char>
    decreases s.len(),
{
    if s.len() > 0 && is_hspace(s.last()) {
        trim_back_of(s.drop_last())
    } else {
        s
    }
}

/// `s` with whitespace removed from both ends.
pub open spec fn trim_of(s: Seq<char>) -> Seq<char> {
    trim_back_of(trim_front_of(s))
}

proof fn lemma_trim_front_skip(s: Seq<char>, i: int)
    requires
        0 <= i <= s.len(),
        forall|k: int| 0 <= k < i ==> is_hspace(s[k]),
    ensures
        trim_front_of(s) == trim_front_of(s.skip(i)),
    decreases i,
{
    if i > 0 {
        assert(s.drop_first() =~= s.skip(1));
        lemma_trim_front_skip(s.skip(1), i - 1);
        assert(s.skip(1).skip(i - 1) =~= s.skip(i));
    } else {
        assert(s.skip(0) =~= s);
    }
}

proof fn lemma_trim_back_take(s: Seq<char>, i: int)
    requires
        0 <= i <= s.len(),
        forall|k: int| i <= k < s.len() ==> is_hspace(s[k]),
    ensures
        trim_back_of(s) == trim_back_of(s.take(i)),
    decreases s.len() - i,
{
    if i < s.len() {
        assert(s.drop_last() =~= s.take(s.len() - 1));
        lemma_trim_back_take(s.take(s.len() - 1), i);
        assert(s.take(s.len() - 1).take(i) =~= s.take(i));
    } else {
        assert(s.take(s.len() as int) =~= s);
    }
}

/// `s` with whitespace removed from both ends.
pub fn trim(s: &str) -> (r: String)
    ensures
        r@ == trim_of(s@),
{
    let s_len = s.unicode_len();
    let mut start: usize = 0;
    while start < s_len && hspace(s.get_char(start))
        invariant
            start <= s_len,
            s_len == s@.len(),
            forall|k: int| 0 <= k < start ==> is_hspace(s@[k]),
        decreases s_len - start,
    {
        start = start + 1;
    }
    let mut end: usize = s_len;
    while end > start && hspace(s.get_char(end - 1))
        invariant
            start <= end <= s_len,
            s_len == s@.len(),
            forall|k: int| 0 <= k < start ==> is_hspace(s@[k]),
            forall|k: int| end <= k < s_len ==> is_hspace(s@[k]),
        decreases end,
    {
        end = end - 1;
    }
    let r = substring_copy(s, start, end);
    proof {
        lemma_trim_front_skip(s@, start as int);
        if start < end {
            assert(!is_hspace(s@[start as int]));
            assert(s@.skip(start as int)[0] == s@[start as int]);
            assert(trim_front_of(s@.skip(start as int)) == s@.skip(start as int));
            lemma_trim_back_take(s@.skip(start as int), end - start);
            assert(s@.skip(start as int).take(end - start) =~= s@.subrange(
                start as int,
                end as int,
            ));
            assert(!is_hspace(s@[end - 1]));
            assert(forall|k: int|
                0 <= k < end - start ==> s@.subrange(start as int, end as int)[k] == s@[start
                    + k]);
            assert(s@.subrange(start as int, end as int).last() == s@[end - 1]);
            assert(trim_back_of(s@.subrange(start as int, end as int)) == s@.subrange(
                start as int,
                end as int,
            ));
        } else {
            assert(start == end);
            assert(s@.skip(start as int).len() == s@.len() - start);
            if start < s_len {
                assert(is_hspace(s@[start as int]));
            }
            assert(forall|k: int|
                0 <= k < s@.skip(start as int).len() ==> s@.skip(start as int)[k] == s@[start
                    + k]);
            assert(forall|k: int|
                0 <= k < s@.skip(start as int).len() ==> is_hspace(s@.skip(start as int)[k]));
            lemma_trim_back_take(s@.skip(start as int), 0);
            assert(s@.skip(start as int).take(0) =~= s@.subrange(start as int, end as int));
        }
    }
    r
}

/// The decimal digit character for `d`.
pub open spec fn digit_char(d: int) -> char
    recommends
        0 <= d < 10,
{
    if d == 0 {
        '0'
    } else if d == 1 {
        '1'
    } else if d == 2 {
        '2'
    } else if d == 3 {
        '3'
    } else if d == 4 {
        '4'
    } else if d == 5 {
        '5'
    } else if d == 6 {
        '6'
    } else if d == 7 {
        '7'
    } else if d == 8 {
        '8'
    } else {
        '9'
    }
}

/// The decimal rendering of `n`, most significant digit first.
pub open spec fn dec_of(n: nat) -> Seq<char>
    decreases n,
{
    if n < 10 {
        seq![digit_char(n as int)]
    } else {
        dec_of(n / 10).push(digit_char((n % 10) as int))
    }
}

/// The character for the single decimal digit `d`.
fn digit_exec(d: usize) -> (c: char)
    requires
        d < 10,
    ensures
        c == digit_char(d as int),
{
    if d == 0 {
        '0'
    } else if d == 1 {
        '1'
    } else if d == 2 {
        '2'
    } else if d == 3 {
        '3'
    } else if d == 4 {
        '4'
    } else if d == 5 {
        '5'
    } else if d == 6 {
        '6'
    } else if d == 7 {
        '7'
    } else if d == 8 {
        '8'
    } else {
        '9'
    }
}

/// The decimal rendering of `n`.
pub fn dec_string(n: usize) -> (r: String)
    ensures
        r@ == dec_of(n as nat),
    decreases n,
{
    if n < 10 {
        let mut s = String::new();
        push_char(&mut s, digit_exec(n));
        proof {
            assert(s@ =~= dec_of(n as nat));
        }
        s
    } else {
        proof {
            assert(n / 10 < n && n / 10 >= 1) by (nonlinear_arith)
                requires
                    n >= 10,
            ;
        }
        let mut s = dec_string(n / 10);
        push_char(&mut s, digit_exec(n % 10));
        s
    }
}

/// The lines of `s`: the segments between newline characters. A trailing
/// newline yields a final empty line, matching a split on every `'\n'`.
pub open spec fn lines_of(s: Seq<char>) -> Seq<Seq<char>>
    decreases s.len(),
{
    if exists|i: int| 0 <= i < s.len() && s[i] == '\n' {
        let i = first_newline(s);
        if 0 <= i < s.len() {
            seq![s.take(i)] + lines_of(s.skip(i + 1))
        } else {
            seq![s]
        }
    } else {
        seq![s]
    }
}

/// Position of the first newline in `s`.
pub open spec fn first_newline(s: Seq<char>) -> int {
    choose|i: int| 0 <= i < s.len() && s[i] == '\n' && forall|k: int| 0 <= k < i ==> s[k] != '\n'
}

proof fn lemma_first_newline(s: Seq<char>, i: int)
    requires
        0 <= i < s.len(),
        s[i] == '\n',
        forall|k: int| 0 <= k < i ==> s[k] != '\n',
    ensures
        first_newline(s) == i,
{
    let j = first_newline(s);
    assert(0 <= j < s.len() && s[j] == '\n' && forall|k: int| 0 <= k < j ==> s[k] != '\n');
    if j < i {
        assert(s[j] != '\n');
    }
    if i < j {
        assert(s[i] != '\n');
    }
}

/// The lines of `s`, split on `'\n'`.
#[verifier::rlimit(50)]
pub fn split_lines(s: &str) -> (r: Vec<String>)
    ensures
        r@.map_values(|x: String| x@) == lines_of(s@),
    decreases s@.len(),
{
    let s_len = s.unicode_len();
    match find_char(s, '\n') {
        None => {
            let mut r: Vec<String> = Vec::new();
            r.push(s.to_owned());
            proof {
                assert(r@.map_values(|x: String| x@) =~= lines_of(s@));
            }
            r
        },
        Some(i) => {
            proof {
                lemma_first_newline(s@, i as int);
                assert(lines_of(s@) == seq![s@.take(i as int)] + lines_of(s@.skip(i + 1)));
            }
            let head = substring_copy(s, 0, i);
            let rest = s.substring_char(i + 1, s_len);
            let tail = split_lines(rest);
            let mut r: Vec<String> = Vec::new();
            r.push(head);
            let mut k: usize = 0;
            let tail_len = tail.len();
            while k < tail_len
                invariant
                    k <= tail_len,
                    tail_len == tail@.len(),
                    r@.len() == k + 1,
                    r@[0]@ == s@.take(i as int),
                    forall|j: int| 0 <= j < k ==> r@[j + 1] == tail@[j],
                decreases tail_len - k,
            {
                let item = tail[k].clone();
                r.push(item);
                k = k + 1;
            }
            proof {
                assert(s@.take(i as int) =~= s@.subrange(0, i as int));
                assert(s@.skip(i + 1) =~= s@.subrange(i + 1, s@.len() as int));
                let lhs = r@.map_values(|x: String| x@);
                let rhs = lines_of(s@);
                assert(tail@.map_values(|x: String| x@) == lines_of(s@.skip(i + 1)));
                assert(lhs.len() == rhs.len());
                assert(forall|j: int| 0 <= j < lhs.len() ==> lhs[j] == rhs[j]) by {
                    assert(lhs[0] == s@.take(i as int));
                    assert(forall|j: int|
                        1 <= j < lhs.len() ==> lhs[j] == tail@.map_values(|x: String| x@)[j
                            - 1]);
                }
                assert(lhs =~= rhs);
            }
            r
        },
    }
}

/// ASCII upper-casing of a single character, as a code point.
pub open spec fn ascii_up(c: char) -> int {
    if 97 <= c as int && c as int <= 122 {
        c as int - 32
    } else {
        c as int
    }
}

/// Equality of `a` and `b` up to ASCII case.
pub open spec fn ascii_ci_eq(a: Seq<char>, b: Seq<char>) -> bool {
    a.len() == b.len() && forall|i: int| 0 <= i < a.len() ==> ascii_up(a[i]) == ascii_up(b[i])
}

/// The ASCII-upper-cased code point of `c`.
fn up_exec(c: char) -> (u: u32)
    ensures
        u as int == ascii_up(c),
{
    let u = c as u32;
    if 97 <= u && u <= 122 {
        u - 32
    } else {
        u
    }
}

/// Are `a` and `b` equal up to ASCII case?
pub fn eq_ignore_ascii(a: &str, b: &str) -> (r: bool)
    ensures
        r == ascii_ci_eq(a@, b@),
{
    let a_len = a.unicode_len();
    let b_len = b.unicode_len();
    if a_len != b_len {
        return false;
    }
    let mut i: usize = 0;
    while i < a_len
        invariant
            i <= a_len,
            a_len == a@.len(),
            a_len == b@.len(),
            forall|k: int| 0 <= k < i ==> ascii_up(a@[k]) == ascii_up(b@[k]),
        decreases a_len - i,
    {
        if up_exec(a.get_char(i)) != up_exec(b.get_char(i)) {
            return false;
        }
        i = i + 1;
    }
    true
}

} // verus!
