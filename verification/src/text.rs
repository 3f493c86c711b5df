//! Character-level helpers shared by the parsers and formatters.
//!
//! Text is processed as `Vec<char>` (or `Vec<u8>` for Git's NUL-delimited output) and turned back
//! into `String` at the edges.

use vstd::prelude::*;

verus! {

broadcast use vstd::string::group_string_axioms;

/// What `String::from_utf8_lossy` makes of a byte sequence.
pub uninterp spec fn utf8_lossy(bytes: Seq<u8>) -> Seq<char>;

/// `String::from_utf8_lossy`, owned: replaces invalid sequences with U+FFFD. Besides naming the
/// result, two documented facts are stated: valid UTF-8 comes back unchanged, and since every
/// byte ends up in a character or in a replacement character, bytes give some text.
#[verifier::external_body]
pub fn lossy_string(bytes: &[u8]) -> (s: String)
    ensures
        s@ == utf8_lossy(bytes@),
        vstd::utf8::valid_utf8(bytes@) ==> s@ == vstd::utf8::decode_utf8(bytes@),
        bytes@.len() > 0 ==> s@.len() > 0,
{
    String::from_utf8_lossy(bytes).into_owned()
}

/// `FromIterator<&char> for String`: the string made of exactly these characters.
#[verifier::external_body]
pub fn string_from_chars(chars: &[char]) -> (s: String)
    ensures
        s@ == chars@,
{
    chars.iter().collect()
}

/// The characters of `s`, in order.
pub fn chars_of(s: &str) -> (v: Vec<char>)
    ensures
        v@ == s@,
{
    let mut v: Vec<char> = Vec::new();
    for c in it: s.chars()
        invariant
            it.seq() == s@,
            v@ == it.seq().take(it.index() as int),
    {
        v.push(c);
    }
    v
}

/// Appends every character of `s` to `v`.
pub fn push_str(v: &mut Vec<char>, s: &str)
    ensures
        final(v)@ == old(v)@ + s@,
{
    let chars = chars_of(s);
    push_chars(v, &chars);
}

/// Appends every element of `w` to `v`.
pub fn push_chars(v: &mut Vec<char>, w: &[char])
    ensures
        final(v)@ == old(v)@ + w@,
{
    let ghost start = v@;
    let mut i: usize = 0;
    while i < w.len()
        invariant
            i <= w.len(),
            v@ == start + w@.take(i as int),
        decreases w.len() - i,
    {
        v.push(w[i]);
        i = i + 1;
        assert(w@.take(i as int) =~= w@.take(i - 1) + seq![w@[i - 1]]);
    }
    assert(w@.take(w.len() as int) =~= w@);
}

/// Appends every byte of `w` to `v`.
pub fn push_bytes(v: &mut Vec<u8>, w: &[u8])
    ensures
        final(v)@ == old(v)@ + w@,
{
    let ghost start = v@;
    let mut i: usize = 0;
    while i < w.len()
        invariant
            i <= w.len(),
            v@ == start + w@.take(i as int),
        decreases w.len() - i,
    {
        v.push(w[i]);
        i = i + 1;
        assert(w@.take(i as int) =~= w@.take(i - 1) + seq![w@[i - 1]]);
    }
    assert(w@.take(w.len() as int) =~= w@);
}

/// `s[from..to]` as a new vector.
pub fn slice_chars(s: &[char], from: usize, to: usize) -> (r: Vec<char>)
    requires
        from <= to <= s.len(),
    ensures
        r@ == s@.subrange(from as int, to as int),
{
    let mut r: Vec<char> = Vec::new();
    let mut i: usize = from;
    while i < to
        invariant
            from <= i <= to <= s.len(),
            r@ == s@.subrange(from as int, i as int),
        decreases to - i,
    {
        r.push(s[i]);
        i = i + 1;
        assert(r@ =~= s@.subrange(from as int, i as int));
    }
    r
}

/// `s[from..to]` as a new byte vector.
pub fn slice_bytes(s: &[u8], from: usize, to: usize) -> (r: Vec<u8>)
    requires
        from <= to <= s.len(),
    ensures
        r@ == s@.subrange(from as int, to as int),
{
    let mut r: Vec<u8> = Vec::new();
    let mut i: usize = from;
    while i < to
        invariant
            from <= i <= to <= s.len(),
            r@ == s@.subrange(from as int, i as int),
        decreases to - i,
    {
        r.push(s[i]);
        i = i + 1;
        assert(r@ =~= s@.subrange(from as int, i as int));
    }
    r
}

/// `s` begins with `p`.
pub open spec fn starts_with<A>(s: Seq<A>, p: Seq<A>) -> bool {
    p.len() <= s.len() && s.take(p.len() as int) == p
}

/// `s` ends with `p`.
pub open spec fn ends_with<A>(s: Seq<A>, p: Seq<A>) -> bool {
    p.len() <= s.len() && s.skip(s.len() - p.len()) == p
}

/// `p` occurs in `s` starting at `i`.
pub open spec fn occurs_at<A>(s: Seq<A>, p: Seq<A>, i: int) -> bool {
    0 <= i && i + p.len() <= s.len() && s.subrange(i, i + p.len()) == p
}

/// `p` occurs somewhere in `s`.
pub open spec fn contains_seq<A>(s: Seq<A>, p: Seq<A>) -> bool {
    exists|i: int| occurs_at(s, p, i)
}

/// Whether `p` occurs at position `i` of `s` (chars).
pub fn chars_occur_at(s: &[char], p: &[char], i: usize) -> (r: bool)
    ensures
        r == occurs_at(s@, p@, i as int),
{
    if i > s.len() || p.len() > s.len() - i {
        return false;
    }
    let mut k: usize = 0;
    while k < p.len()
        invariant
            i + p.len() <= s.len(),
            k <= p.len(),
            forall|j: int| 0 <= j < k ==> s@[i + j] == p@[j],
        decreases p.len() - k,
    {
        if s[i + k] != p[k] {
            assert(s@.subrange(i as int, i + p.len())[k as int] != p@[k as int]);
            return false;
        }
        k = k + 1;
    }
    assert(s@.subrange(i as int, i + p.len()) =~= p@);
    true
}

/// Whether `p` occurs at position `i` of `s` (bytes).
pub fn bytes_occur_at(s: &[u8], p: &[u8], i: usize) -> (r: bool)
    ensures
        r == occurs_at(s@, p@, i as int),
{
    if i > s.len() || p.len() > s.len() - i {
        return false;
    }
    let mut k: usize = 0;
    while k < p.len()
        invariant
            i + p.len() <= s.len(),
            k <= p.len(),
            forall|j: int| 0 <= j < k ==> s@[i + j] == p@[j],
        decreases p.len() - k,
    {
        if s[i + k] != p[k] {
            assert(s@.subrange(i as int, i + p.len())[k as int] != p@[k as int]);
            return false;
        }
        k = k + 1;
    }
    assert(s@.subrange(i as int, i + p.len()) =~= p@);
    true
}

/// `s` begins with `p` (chars).
pub fn chars_start_with(s: &[char], p: &[char]) -> (r: bool)
    ensures
        r == starts_with(s@, p@),
{
    let r = chars_occur_at(s, p, 0);
    proof {
        if r {
            assert(s@.take(p@.len() as int) =~= s@.subrange(0, p@.len() as int));
        }
        if starts_with(s@, p@) {
            assert(s@.take(p@.len() as int) =~= s@.subrange(0, p@.len() as int));
        }
    }
    r
}

/// `s` ends with `p` (chars).
pub fn chars_end_with(s: &[char], p: &[char]) -> (r: bool)
    ensures
        r == ends_with(s@, p@),
{
    if p.len() > s.len() {
        return false;
    }
    let r = chars_occur_at(s, p, s.len() - p.len());
    proof {
        assert(s@.skip(s@.len() - p@.len()) =~= s@.subrange(s@.len() - p@.len(), s@.len() as int));
    }
    r
}

/// `s` begins with `p` (bytes).
pub fn bytes_start_with(s: &[u8], p: &[u8]) -> (r: bool)
    ensures
        r == starts_with(s@, p@),
{
    let r = bytes_occur_at(s, p, 0);
    proof {
        assert(s@.take(p@.len() as int) =~= s@.subrange(0, p@.len() as int));
    }
    r
}

/// `s` ends with `p` (bytes).
pub fn bytes_end_with(s: &[u8], p: &[u8]) -> (r: bool)
    ensures
        r == ends_with(s@, p@),
{
    if p.len() > s.len() {
        return false;
    }
    let r = bytes_occur_at(s, p, s.len() - p.len());
    proof {
        assert(s@.skip(s@.len() - p@.len()) =~= s@.subrange(s@.len() - p@.len(), s@.len() as int));
    }
    r
}

/// The first position at or after `from` where `p` occurs in `s`, if any.
pub open spec fn first_occurrence_from<A>(s: Seq<A>, p: Seq<A>, from: int) -> Option<int>
    decreases s.len() + 1 - from,
{
    if from < 0 || from + p.len() > s.len() {
        None
    } else if occurs_at(s, p, from) {
        Some(from)
    } else {
        first_occurrence_from(s, p, from + 1)
    }
}

/// The first position where `p` occurs in `s`, if any (what `str::find` reports, in characters).
pub open spec fn find_seq<A>(s: Seq<A>, p: Seq<A>) -> Option<int> {
    first_occurrence_from(s, p, 0)
}

pub proof fn lemma_first_occurrence_from<A>(s: Seq<A>, p: Seq<A>, from: int)
    requires
        0 <= from,
    ensures
        first_occurrence_from(s, p, from) matches Some(i) ==> from <= i && occurs_at(s, p, i)
            && forall|j: int| from <= j < i ==> !occurs_at(s, p, j),
        first_occurrence_from(s, p, from) is None ==> forall|j: int|
            from <= j ==> !occurs_at(s, p, j),
    decreases s.len() + 1 - from,
{
    if from + p.len() > s.len() {
    } else if occurs_at(s, p, from) {
    } else {
        lemma_first_occurrence_from(s, p, from + 1);
    }
}

/// The first position at or after `from` where `p` occurs in `s` (chars).
pub fn find_chars_from(s: &[char], p: &[char], from: usize) -> (r: Option<usize>)
    ensures
        r matches Some(i) ==> first_occurrence_from(s@, p@, from as int) == Some(i as int),
        r is None ==> first_occurrence_from(s@, p@, from as int) is None,
{
    if from > s.len() || p.len() > s.len() - from {
        return None;
    }
    if p.len() == 0 {
        assert(s@.subrange(from as int, from as int) =~= p@);
        return Some(from);
    }
    let last = s.len() - p.len();
    let mut i = from;
    while i <= last
        invariant
            from <= i,
            last == s.len() - p.len(),
            p.len() > 0,
            i <= last + 1,
            first_occurrence_from(s@, p@, from as int) == first_occurrence_from(s@, p@, i as int),
        decreases last + 1 - i,
    {
        if chars_occur_at(s, p, i) {
            return Some(i);
        }
        i = i + 1;
    }
    None
}

/// Whether `p` occurs anywhere in `s` (chars).
pub fn chars_contain(s: &[char], p: &[char]) -> (r: bool)
    ensures
        r == contains_seq(s@, p@),
{
    let found = find_chars_from(s, p, 0);
    proof {
        lemma_first_occurrence_from(s@, p@, 0);
    }
    found.is_some()
}

/// Whether the character `c` occurs in `s`.
pub fn has_char(s: &[char], c: char) -> (r: bool)
    ensures
        r == s@.contains(c),
{
    let mut i: usize = 0;
    while i < s.len()
        invariant
            i <= s.len(),
            forall|j: int| 0 <= j < i ==> s@[j] != c,
        decreases s.len() - i,
    {
        if s[i] == c {
            return true;
        }
        i = i + 1;
    }
    false
}

/// Element-wise equality of two character vectors.
pub fn chars_equal(a: &[char], b: &[char]) -> (r: bool)
    ensures
        r == (a@ == b@),
{
    if a.len() != b.len() {
        return false;
    }
    let r = chars_occur_at(a, b, 0);
    proof {
        assert(a@.subrange(0, a@.len() as int) =~= a@);
    }
    r
}

/// Equality of two strings by their characters.
pub fn str_equal(a: &str, b: &str) -> (r: bool)
    ensures
        r == (a@ == b@),
{
    let x = chars_of(a);
    let y = chars_of(b);
    chars_equal(&x, &y)
}

/// ASCII lower-casing of one character, as `char::to_ascii_lowercase` does.
pub open spec fn ascii_lower(c: char) -> char {
    if 'A' <= c && c <= 'Z' {
        ((c as u32) + 32) as char
    } else {
        c
    }
}

/// ASCII lower-casing of a character sequence, as `str::to_ascii_lowercase` does.
pub open spec fn ascii_lower_seq(s: Seq<char>) -> Seq<char> {
    s.map_values(|c: char| ascii_lower(c))
}

pub fn lower_char(c: char) -> (r: char)
    ensures
        r == ascii_lower(c),
{
    if 'A' <= c && c <= 'Z' {
        let code: u8 = ((c as u32) + 32) as u8;
        code as char
    } else {
        c
    }
}

/// ASCII lower-cased copy of `s`.
pub fn lower_chars(s: &[char]) -> (r: Vec<char>)
    ensures
        r@ == ascii_lower_seq(s@),
{
    let mut r: Vec<char> = Vec::new();
    let mut i: usize = 0;
    while i < s.len()
        invariant
            i <= s.len(),
            r@ == ascii_lower_seq(s@.take(i as int)),
        decreases s.len() - i,
    {
        let c = lower_char(s[i]);
        r.push(c);
        i = i + 1;
        assert(r@ =~= ascii_lower_seq(s@.take(i as int)));
    }
    assert(s@.take(s@.len() as int) =~= s@);
    r
}

/// A copy of a list of strings.
pub fn clone_strings(v: &Vec<String>) -> (r: Vec<String>)
    ensures
        r@ == v@,
{
    let mut r: Vec<String> = Vec::new();
    let mut i: usize = 0;
    while i < v.len()
        invariant
            i <= v@.len(),
            r@ == v@.take(i as int),
        decreases v.len() - i,
    {
        r.push(v[i].clone());
        i = i + 1;
        assert(r@ =~= v@.take(i as int));
    }
    assert(v@.take(v@.len() as int) =~= v@);
    r
}

/// A copy of an optional string.
pub fn clone_opt_text(value: &Option<String>) -> (r: Option<String>)
    ensures
        r == *value,
{
    match value {
        Some(s) => Some(s.clone()),
        None => None,
    }
}

} // verus!
