//! Character sequences: the model that every contract on strings speaks of,
//! and the scanning routines (search, split, trim) built on it.

use vstd::prelude::*;

verus! {

/// The characters of `s`, in order.
pub fn chars_of(s: &str) -> (v: Vec<char>)
    ensures
        v@ == s@,
{
    let mut v: Vec<char> = Vec::new();
    for c in it: s.chars()
        invariant
            it.seq() == s@,
            v@ == it.seq().take(it.index()),
    {
        v.push(c);
    }
    v
}

/// Calls `String::push`. Trusted: the string gains `c` at its end and is
/// otherwise unchanged.
#[verifier::external_body]
fn push_char(s: &mut String, c: char)
    ensures
        final(s)@ == old(s)@.push(c),
{
    s.push(c)
}

/// The string made of the characters of `v`, in order.
pub fn string_of(v: &Vec<char>) -> (s: String)
    ensures
        s@ == v@,
{
    let mut s = String::new();
    let mut i: usize = 0;
    while i < v.len()
        invariant
            i <= v.len(),
            s@ == v@.take(i as int),
        decreases v.len() - i,
    {
        push_char(&mut s, v[i]);
        i += 1;
        assert(s@ =~= v@.take(i as int));
    }
    assert(v@.take(i as int) =~= v@);
    s
}

/// The characters `s[from..to]` as a vector of their own.
pub(crate) fn copy_range(s: &Vec<char>, from: usize, to: usize) -> (r: Vec<char>)
    requires
        from <= to <= s.len(),
    ensures
        r@ == s@.subrange(from as int, to as int),
{
    let mut r: Vec<char> = Vec::new();
    let mut i: usize = from;
    while i < to
        invariant
            from <= i <= to <= s.len(),
            r@ == s@.subrange(from as int, i as int),
        decreases to - i,
    {
        r.push(s[i]);
        i += 1;
        assert(r@ =~= s@.subrange(from as int, i as int));
    }
    r
}

/// Whether `pat` stands in `s` at index `i`.
pub open spec fn occurs_at(s: Seq<char>, pat: Seq<char>, i: int) -> bool {
    0 <= i && i + pat.len() <= s.len() && s.subrange(i, i + pat.len()) == pat
}

/// Whether `pat` stands somewhere in `s`.
pub open spec fn contains(s: Seq<char>, pat: Seq<char>) -> bool {
    exists|i: int| occurs_at(s, pat, i)
}

/// The least index at or after `from` where `pat` stands in `s`.
pub open spec fn first_occurrence(s: Seq<char>, pat: Seq<char>, from: int) -> Option<int>
    decreases s.len() + 1 - from,
{
    if from < 0 || from + pat.len() > s.len() {
        None
    } else if occurs_at(s, pat, from) {
        Some(from)
    } else {
        first_occurrence(s, pat, from + 1)
    }
}

/// The pieces of `s[start..]` between occurrences of the non-empty
/// delimiter `d`, none of which begins before `pos`. Occurrences are taken
/// from the left and do not overlap.
pub open spec fn split_scan(s: Seq<char>, d: Seq<char>, start: int, pos: int) -> Seq<Seq<char>>
    decreases s.len() - pos,
{
    if d.len() == 0 || start < 0 || pos < start {
        Seq::empty()
    } else if pos + d.len() > s.len() {
        seq![s.subrange(start, s.len() as int)]
    } else if occurs_at(s, d, pos) {
        seq![s.subrange(start, pos)] + split_scan(s, d, pos + d.len(), pos + d.len())
    } else {
        split_scan(s, d, start, pos + 1)
    }
}

/// The pieces of `s` between occurrences of `d`. An empty delimiter stands
/// before every character and at the end, so it yields an empty piece, each
/// character, and an empty piece.
pub open spec fn split(s: Seq<char>, d: Seq<char>) -> Seq<Seq<char>> {
    if d.len() == 0 {
        seq![Seq::<char>::empty()] + Seq::new(s.len(), |i: int| seq![s[i]]) + seq![
            Seq::<char>::empty(),
        ]
    } else {
        split_scan(s, d, 0, 0)
    }
}

/// Characters with the Unicode property White_Space.
pub open spec fn is_whitespace(c: char) -> bool {
    let n = c as u32;
    (0x09 <= n <= 0x0D) || n == 0x20 || n == 0x85 || n == 0xA0 || n == 0x1680 || (0x2000 <= n
        <= 0x200A) || n == 0x2028 || n == 0x2029 || n == 0x202F || n == 0x205F || n == 0x3000
}

/// `s` without its leading whitespace.
pub open spec fn trim_start(s: Seq<char>) -> Seq<char>
    decreases s.len(),
{
    if s.len() > 0 && is_whitespace(s.first()) {
        trim_start(s.drop_first())
    } else {
        s
    }
}

/// `s` without its trailing whitespace.
pub open spec fn trim_end(s: Seq<char>) -> Seq<char>
    decreases s.len(),
{
    if s.len() > 0 && is_whitespace(s.last()) {
        trim_end(s.drop_last())
    } else {
        s
    }
}

/// `s` without leading and trailing whitespace.
pub open spec fn trimmed(s: Seq<char>) -> Seq<char> {
    trim_end(trim_start(s))
}

/// Tests a character for the White_Space property.
pub fn char_is_whitespace(c: char) -> (r: bool)
    ensures
        r == is_whitespace(c),
{
    let n: u32 = c as u32;
    (0x09 <= n && n <= 0x0D) || n == 0x20 || n == 0x85 || n == 0xA0 || n == 0x1680 || (0x2000 <= n
        && n <= 0x200A) || n == 0x2028 || n == 0x2029 || n == 0x202F || n == 0x205F || n == 0x3000
}

/// Tests whether `pat` stands in `s` at index `i`.
pub fn matches_at(s: &Vec<char>, pat: &Vec<char>, i: usize) -> (r: bool)
    ensures
        r == occurs_at(s@, pat@, i as int),
{
    if pat.len() > s.len() || i > s.len() - pat.len() {
        return false;
    }
    let mut k: usize = 0;
    while k < pat.len()
        invariant
            k <= pat.len(),
            i + pat.len() <= s.len(),
            forall|j: int| 0 <= j < k ==> s@[i + j] == pat@[j],
        decreases pat.len() - k,
    {
        if s[i + k] != pat[k] {
            assert(s@.subrange(i as int, i + pat.len())[k as int] != pat@[k as int]);
            return false;
        }
        k += 1;
    }
    assert(s@.subrange(i as int, i + pat.len()) =~= pat@);
    true
}

/// Finds the first occurrence of `pat` in `s` at or after `from`.
pub fn find_from(s: &Vec<char>, pat: &Vec<char>, from: usize) -> (r: Option<usize>)
    ensures
        match r {
            Some(i) => first_occurrence(s@, pat@, from as int) == Some(i as int) && from <= i
                && occurs_at(s@, pat@, i as int),
            None => first_occurrence(s@, pat@, from as int) is None,
        },
        r is None ==> forall|j: int| from <= j ==> !occurs_at(s@, pat@, j),
        r matches Some(i) ==> forall|j: int| from <= j < i ==> !occurs_at(s@, pat@, j),
{
    if pat.len() > s.len() {
        return None;
    }
    let last: usize = s.len() - pat.len();
    let mut i: usize = from;
    while i <= last
        invariant
            from <= i,
            last + pat.len() == s.len(),
            first_occurrence(s@, pat@, from as int) == first_occurrence(s@, pat@, i as int),
            forall|j: int| from <= j < i ==> !occurs_at(s@, pat@, j),
        decreases last + 1 - i,
    {
        if matches_at(s, pat, i) {
            return Some(i);
        }
        if i == last {
            assert(first_occurrence(s@, pat@, i + 1) is None);
            return None;
        }
        i += 1;
    }
    None
}

/// Tests whether `pat` stands somewhere in `s`.
pub fn contains_chars(s: &Vec<char>, pat: &Vec<char>) -> (r: bool)
    ensures
        r == contains(s@, pat@),
{
    find_from(s, pat, 0).is_some()
}

/// The character sequences that the vectors of `v` hold.
pub open spec fn rows(v: Seq<Vec<char>>) -> Seq<Seq<char>> {
    Seq::new(v.len(), |i: int| v[i]@)
}

/// The character sequences that the strings of `v` hold.
pub open spec fn texts(v: Seq<String>) -> Seq<Seq<char>> {
    Seq::new(v.len(), |i: int| v[i]@)
}

/// Turns each vector of characters into a `String`.
pub fn strings_of(v: &Vec<Vec<char>>) -> (r: Vec<String>)
    ensures
        texts(r@) == rows(v@),
{
    let mut r: Vec<String> = Vec::new();
    let mut i: usize = 0;
    while i < v.len()
        invariant
            i <= v.len(),
            r.len() == i,
            forall|j: int| 0 <= j < i ==> r@[j]@ == v@[j]@,
        decreases v.len() - i,
    {
        r.push(string_of(&v[i]));
        i += 1;
    }
    assert(texts(r@) =~= rows(v@));
    r
}

/// Splits `s` at the occurrences of `d`.
pub fn split_chars(s: &Vec<char>, d: &Vec<char>) -> (out: Vec<Vec<char>>)
    ensures
        rows(out@) == split(s@, d@),
{
    let mut out: Vec<Vec<char>> = Vec::new();
    if d.len() == 0 {
        out.push(Vec::new());
        let mut i: usize = 0;
        while i < s.len()
            invariant
                i <= s.len(),
                rows(out@) == seq![Seq::<char>::empty()] + Seq::new(
                    i as nat,
                    |k: int| seq![s@[k]],
                ),
            decreases s.len() - i,
        {
            let ghost before = rows(out@);
            out.push(copy_range(s, i, i + 1));
            assert(s@.subrange(i as int, i + 1) =~= seq![s@[i as int]]);
            i += 1;
            assert(rows(out@) =~= before.push(seq![s@[i - 1]]));
            assert(rows(out@) =~= seq![Seq::<char>::empty()] + Seq::new(
                i as nat,
                |k: int| seq![s@[k]],
            ));
        }
        let ghost before = rows(out@);
        out.push(Vec::new());
        assert(rows(out@) =~= before.push(Seq::<char>::empty()));
        assert(rows(out@) =~= split(s@, d@));
        return out;
    }
    let mut start: usize = 0;
    loop
        invariant
            d.len() > 0,
            start <= s.len(),
            rows(out@) + split_scan(s@, d@, start as int, start as int) == split(s@, d@),
        decreases s.len() - start,
    {
        let ghost before = rows(out@);
        match find_from(s, d, start) {
            Some(i) => {
                proof {
                    lemma_scan_skips(s@, d@, start as int, start as int, i as int);
                }
                out.push(copy_range(s, start, i));
                assert(rows(out@) =~= before.push(s@.subrange(start as int, i as int)));
                assert(rows(out@) + split_scan(s@, d@, i + d.len(), i + d.len()) =~= before
                    + split_scan(s@, d@, start as int, start as int));
                start = i + d.len();
            },
            None => {
                proof {
                    lemma_scan_rest(s@, d@, start as int, start as int);
                }
                out.push(copy_range(s, start, s.len()));
                assert(rows(out@) =~= before.push(s@.subrange(start as int, s.len() as int)));
                assert(rows(out@) =~= split(s@, d@));
                return out;
            },
        }
    }
}

/// Scanning may jump over positions where the delimiter does not stand.
pub proof fn lemma_scan_skips(s: Seq<char>, d: Seq<char>, start: int, pos: int, i: int)
    requires
        d.len() > 0,
        0 <= start <= pos <= i,
        occurs_at(s, d, i),
        forall|j: int| pos <= j < i ==> !occurs_at(s, d, j),
    ensures
        split_scan(s, d, start, pos) == seq![s.subrange(start, i)] + split_scan(
            s,
            d,
            i + d.len(),
            i + d.len(),
        ),
    decreases i - pos,
{
    if pos < i {
        lemma_scan_skips(s, d, start, pos + 1, i);
    }
}

/// Where the delimiter stands nowhere from `pos` on, one piece is left.
pub proof fn lemma_scan_rest(s: Seq<char>, d: Seq<char>, start: int, pos: int)
    requires
        d.len() > 0,
        0 <= start <= pos <= s.len(),
        forall|j: int| pos <= j ==> !occurs_at(s, d, j),
    ensures
        split_scan(s, d, start, pos) == seq![s.subrange(start, s.len() as int)],
    decreases s.len() - pos,
{
    if pos + d.len() <= s.len() {
        lemma_scan_rest(s, d, start, pos + 1);
    }
}

/// Dropping one leading whitespace character does not change what
/// `trim_start` leaves.
pub proof fn lemma_trim_start_step(s: Seq<char>, a: int)
    requires
        0 <= a < s.len(),
        is_whitespace(s[a]),
    ensures
        trim_start(s.skip(a)) == trim_start(s.skip(a + 1)),
{
    assert(s.skip(a).drop_first() =~= s.skip(a + 1));
}

/// Dropping one trailing whitespace character does not change what
/// `trim_end` leaves.
pub proof fn lemma_trim_end_step(s: Seq<char>, a: int, b: int)
    requires
        0 <= a < b <= s.len(),
        is_whitespace(s[b - 1]),
    ensures
        trim_end(s.subrange(a, b)) == trim_end(s.subrange(a, b - 1)),
{
    assert(s.subrange(a, b).drop_last() =~= s.subrange(a, b - 1));
}

/// The bounds of `s` without its leading and trailing whitespace.
pub fn trim_bounds(s: &Vec<char>) -> (r: (usize, usize))
    ensures
        r.0 <= r.1 <= s.len(),
        s@.subrange(r.0 as int, r.1 as int) == trimmed(s@),
{
    let mut a: usize = 0;
    assert(s@.skip(0) =~= s@);
    while a < s.len() && char_is_whitespace(s[a])
        invariant
            a <= s.len(),
            trim_start(s@) == trim_start(s@.skip(a as int)),
        decreases s.len() - a,
    {
        proof {
            lemma_trim_start_step(s@, a as int);
        }
        a += 1;
    }
    assert(s@.skip(a as int) =~= s@.subrange(a as int, s.len() as int));
    assert(trim_start(s@) == s@.subrange(a as int, s.len() as int)) by {
        let t = s@.skip(a as int);
        assert(t.len() > 0 ==> t.first() == s@[a as int]);
    }
    let mut b: usize = s.len();
    while b > a && char_is_whitespace(s[b - 1])
        invariant
            a <= b <= s.len(),
            trimmed(s@) == trim_end(s@.subrange(a as int, b as int)),
        decreases b,
    {
        proof {
            lemma_trim_end_step(s@, a as int, b as int);
        }
        b -= 1;
    }
    assert(trim_end(s@.subrange(a as int, b as int)) == s@.subrange(a as int, b as int)) by {
        let t = s@.subrange(a as int, b as int);
        assert(t.len() > 0 ==> t.last() == s@[b - 1]);
    }
    (a, b)
}

/// `s` without leading and trailing whitespace.
pub fn trim_chars(s: &Vec<char>) -> (r: Vec<char>)
    ensures
        r@ == trimmed(s@),
{
    let (a, b) = trim_bounds(s);
    copy_range(s, a, b)
}

} // verus!
