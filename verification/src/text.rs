//! Character-level helpers for the strings the library takes apart.
//!
//! Strings are handled as sequences of `char`: every position below is a
//! character position, never a byte offset.

use vstd::prelude::*;

verus! {

/// Whether `c` is white space in the sense of Unicode's `White_Space` property.
pub open spec fn is_space(c: char) -> bool {
    let n = c as u32;
    ||| 0x09 <= n <= 0x0D
    ||| n == 0x20
    ||| n == 0x85
    ||| n == 0xA0
    ||| n == 0x1680
    ||| 0x2000 <= n <= 0x200A
    ||| n == 0x2028
    ||| n == 0x2029
    ||| n == 0x202F
    ||| n == 0x205F
    ||| n == 0x3000
}

/// A set of characters that a scan runs over.
#[derive(Clone, Copy, Debug)]
pub enum CharClass {
    /// White space.
    Space,
    /// Everything but white space.
    Word,
    /// The one character given.
    Only(char),
    /// Everything but the one character given.
    Except(char),
}

impl CharClass {
    /// Whether `c` belongs to the class.
    pub open spec fn holds(self, c: char) -> bool {
        match self {
            CharClass::Space => is_space(c),
            CharClass::Word => !is_space(c),
            CharClass::Only(d) => c == d,
            CharClass::Except(d) => c != d,
        }
    }

    /// Whether `c` belongs to the class.
    pub fn contains(self, c: char) -> (r: bool)
        ensures
            r == self.holds(c),
    {
        match self {
            CharClass::Space => is_space_char(c),
            CharClass::Word => !is_space_char(c),
            CharClass::Only(d) => c == d,
            CharClass::Except(d) => c != d,
        }
    }
}

/// Whether `c` is white space.
pub fn is_space_char(c: char) -> (r: bool)
    ensures
        r == is_space(c),
{
    let n: u32 = c as u32;
    (0x09 <= n && n <= 0x0D) || n == 0x20 || n == 0x85 || n == 0xA0 || n == 0x1680 || (0x2000 <= n
        && n <= 0x200A) || n == 0x2028 || n == 0x2029 || n == 0x202F || n == 0x205F || n == 0x3000
}

/// The first position at or after `from` whose character is outside `class`,
/// or the length of `s` where the run reaches the end.
pub open spec fn skip(s: Seq<char>, from: int, class: CharClass) -> int
    decreases s.len() - from,
{
    if 0 <= from < s.len() && class.holds(s[from]) {
        skip(s, from + 1, class)
    } else {
        from
    }
}

/// The position behind the last character before `to` that is outside
/// `class`, or 0 where the run reaches the start.
pub open spec fn skip_back(s: Seq<char>, to: int, class: CharClass) -> int
    decreases to,
{
    if 0 < to <= s.len() && class.holds(s[to - 1]) {
        skip_back(s, to - 1, class)
    } else {
        to
    }
}

/// `s` without the characters of `class` at its two ends.
pub open spec fn trimmed(s: Seq<char>, class: CharClass) -> Seq<char> {
    let a = skip(s, 0, class);
    let b = skip_back(s, s.len() as int, class);
    if a < b {
        s.subrange(a, b)
    } else {
        Seq::empty()
    }
}

/// Whether `needle` stands in `hay` at position `at`.
pub open spec fn occurs_at(hay: Seq<char>, needle: Seq<char>, at: int) -> bool {
    &&& 0 <= at
    &&& at + needle.len() <= hay.len()
    &&& hay.subrange(at, at + needle.len()) == needle
}

/// Whether `needle` stands somewhere in `hay`.
pub open spec fn contains_seq(hay: Seq<char>, needle: Seq<char>) -> bool {
    exists|at: int| occurs_at(hay, needle, at)
}

/// The first position at or after `from` at which `prefix` no longer stands,
/// going in steps of `prefix`.
pub open spec fn skip_prefix(s: Seq<char>, from: int, prefix: Seq<char>) -> int
    decreases s.len() - from,
{
    if prefix.len() > 0 && occurs_at(s, prefix, from) {
        skip_prefix(s, from + prefix.len(), prefix)
    } else {
        from
    }
}

/// The scan of `skip` stays inside the sequence, runs over `class` alone and
/// stops at a character outside it.
pub proof fn lemma_skip(s: Seq<char>, from: int, class: CharClass)
    requires
        0 <= from <= s.len(),
    ensures
        from <= skip(s, from, class) <= s.len(),
        forall|i: int| from <= i < skip(s, from, class) ==> class.holds(#[trigger] s[i]),
        skip(s, from, class) < s.len() ==> !class.holds(s[skip(s, from, class)]),
    decreases s.len() - from,
{
    if from < s.len() && class.holds(s[from]) {
        lemma_skip(s, from + 1, class);
    }
}

/// The scan of `skip_back` stays inside the sequence, runs over `class` alone
/// and stops behind a character outside it.
pub proof fn lemma_skip_back(s: Seq<char>, to: int, class: CharClass)
    requires
        0 <= to <= s.len(),
    ensures
        0 <= skip_back(s, to, class) <= to,
        forall|i: int| skip_back(s, to, class) <= i < to ==> class.holds(#[trigger] s[i]),
        skip_back(s, to, class) > 0 ==> !class.holds(s[skip_back(s, to, class) - 1]),
    decreases to,
{
    if 0 < to && class.holds(s[to - 1]) {
        lemma_skip_back(s, to - 1, class);
    }
}

/// What is left after trimming is a stretch of the text that neither starts
/// nor ends with a character of the class, and everything before and behind
/// it belongs to the class.
pub proof fn lemma_trimmed(s: Seq<char>, class: CharClass)
    ensures
        ({
            let from = skip(s, 0, class);
            let to = skip_back(s, s.len() as int, class);
            &&& forall|i: int| 0 <= i < from ==> class.holds(#[trigger] s[i])
            &&& forall|i: int| to <= i < s.len() ==> class.holds(#[trigger] s[i])
            &&& from < to ==> trimmed(s, class) == s.subrange(from, to) && !class.holds(
                trimmed(s, class).first(),
            ) && !class.holds(trimmed(s, class).last())
            &&& from >= to ==> trimmed(s, class).len() == 0 && forall|i: int|
                0 <= i < s.len() ==> class.holds(#[trigger] s[i])
        }),
{
    lemma_skip(s, 0, class);
    lemma_skip_back(s, s.len() as int, class);
}

/// The texts of a list of strings.
pub open spec fn texts(list: Seq<String>) -> Seq<Seq<char>> {
    Seq::new(list.len(), |i: int| list[i]@)
}

/// Whether `needle` stands in `hay`.
pub fn contains_str(hay: &str, needle: &str) -> (r: bool)
    ensures
        r == contains_seq(hay@, needle@),
{
    contains_chars(&chars_of(hay), &chars_of(needle))
}

/// The characters of `s`, in order.
pub fn chars_of(s: &str) -> (out: Vec<char>)
    ensures
        out@ == s@,
{
    let mut out: Vec<char> = Vec::new();
    let it = s.chars();
    for c in iter: it
        invariant
            out@ == iter.seq().take(iter.index@),
    {
        out.push(c);
    }
    out
}

/// `String::from_iter` over the characters of a vector: the string that holds
/// exactly these characters, in this order.
#[verifier::external_body]
pub(crate) fn string_of(chars: &Vec<char>) -> (out: String)
    ensures
        out@ == chars@,
{
    String::from_iter(chars.iter())
}

/// The characters of `s` from position `from` up to, not including, `to`.
pub fn slice_chars(s: &Vec<char>, from: usize, to: usize) -> (out: Vec<char>)
    requires
        from <= to <= s.len(),
    ensures
        out@ == s@.subrange(from as int, to as int),
{
    let mut out: Vec<char> = Vec::new();
    let mut i: usize = from;
    while i < to
        invariant
            from <= i <= to <= s.len(),
            out@ == s@.subrange(from as int, i as int),
        decreases to - i,
    {
        out.push(s[i]);
        i += 1;
    }
    out
}

/// Appends the characters of `tail` to `out`.
pub fn push_chars(out: &mut Vec<char>, tail: &Vec<char>)
    ensures
        final(out)@ == old(out)@ + tail@,
{
    let mut i: usize = 0;
    while i < tail.len()
        invariant
            i <= tail.len(),
            out@ == old(out)@ + tail@.subrange(0, i as int),
        decreases tail.len() - i,
    {
        out.push(tail[i]);
        i += 1;
    }
    assert(tail@.subrange(0, tail.len() as int) == tail@);
}

/// Runs forward from `from` over the characters of `class`.
pub fn skip_while(s: &Vec<char>, from: usize, class: CharClass) -> (at: usize)
    requires
        from <= s.len(),
    ensures
        at == skip(s@, from as int, class),
        from <= at <= s.len(),
{
    let mut i: usize = from;
    while i < s.len() && class.contains(s[i])
        invariant
            from <= i <= s.len(),
            skip(s@, from as int, class) == skip(s@, i as int, class),
        decreases s.len() - i,
    {
        i += 1;
    }
    i
}

/// Runs backward from `to` over the characters of `class`.
pub fn skip_back_while(s: &Vec<char>, to: usize, class: CharClass) -> (at: usize)
    requires
        to <= s.len(),
    ensures
        at == skip_back(s@, to as int, class),
        at <= to,
{
    let mut i: usize = to;
    while i > 0 && class.contains(s[i - 1])
        invariant
            i <= to <= s.len(),
            skip_back(s@, to as int, class) == skip_back(s@, i as int, class),
        decreases i,
    {
        i -= 1;
    }
    i
}

/// `s` without the characters of `class` at its two ends.
pub fn trim_class(s: &Vec<char>, class: CharClass) -> (out: Vec<char>)
    ensures
        out@ == trimmed(s@, class),
{
    let a = skip_while(s, 0, class);
    let b = skip_back_while(s, s.len(), class);
    if a < b {
        slice_chars(s, a, b)
    } else {
        Vec::new()
    }
}

/// Whether `needle` stands in `hay` at position `at`.
pub fn matches_at(hay: &Vec<char>, needle: &Vec<char>, at: usize) -> (r: bool)
    ensures
        r == occurs_at(hay@, needle@, at as int),
{
    if at > hay.len() || needle.len() > hay.len() - at {
        return false;
    }
    let mut i: usize = 0;
    while i < needle.len()
        invariant
            i <= needle.len(),
            at + needle.len() <= hay.len(),
            forall|j: int| 0 <= j < i ==> hay@[at + j] == needle@[j],
        decreases needle.len() - i,
    {
        if hay[at + i] != needle[i] {
            assert(hay@.subrange(at as int, at + needle.len())[i as int] != needle@[i as int]);
            return false;
        }
        i += 1;
    }
    assert(hay@.subrange(at as int, at + needle.len()) =~= needle@);
    true
}

/// Whether `needle` stands somewhere in `hay`.
pub fn contains_chars(hay: &Vec<char>, needle: &Vec<char>) -> (r: bool)
    ensures
        r == contains_seq(hay@, needle@),
{
    if needle.len() > hay.len() {
        return false;
    }
    let last: usize = hay.len() - needle.len();
    let mut at: usize = 0;
    while at < last
        invariant
            at <= last,
            last == hay.len() - needle.len(),
            forall|j: int| 0 <= j < at ==> !occurs_at(hay@, needle@, j),
        decreases last - at,
    {
        if matches_at(hay, needle, at) {
            return true;
        }
        at += 1;
    }
    matches_at(hay, needle, last)
}

/// Runs forward from `from` over repetitions of `prefix`.
pub fn skip_prefix_while(s: &Vec<char>, from: usize, prefix: &Vec<char>) -> (at: usize)
    requires
        from <= s.len(),
    ensures
        at == skip_prefix(s@, from as int, prefix@),
        from <= at <= s.len(),
{
    let mut i: usize = from;
    if prefix.len() == 0 {
        return i;
    }
    while matches_at(s, prefix, i)
        invariant
            from <= i <= s.len(),
            prefix.len() > 0,
            skip_prefix(s@, from as int, prefix@) == skip_prefix(s@, i as int, prefix@),
        decreases s.len() - i,
    {
        i += prefix.len();
    }
    i
}

/// Whether two strings hold the same characters.
pub fn same_chars(a: &Vec<char>, b: &Vec<char>) -> (r: bool)
    ensures
        r == (a@ == b@),
{
    if a.len() != b.len() {
        return false;
    }
    let r = matches_at(a, b, 0);
    assert(a@.subrange(0, a@.len() as int) == a@);
    r
}

} // verus!
