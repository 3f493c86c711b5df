//! Byte-level helpers for Git's NUL- and newline-delimited output.
//!
//! Git's separators are ASCII, and a lossy UTF-8 decoder never merges an ASCII byte into a
//! neighbouring sequence, so splitting and trimming the bytes first and decoding each field
//! afterwards reads the same text as decoding first.

use vstd::prelude::*;

verus! {

/// `b` split at every `sep`, as `slice::split` does: `n` separators give `n + 1` fields.
pub open spec fn split_bytes<A>(b: Seq<A>, sep: A) -> Seq<Seq<A>>
    decreases b.len(),
{
    if b.len() == 0 {
        seq![Seq::<A>::empty()]
    } else {
        let prev = split_bytes(b.drop_last(), sep);
        if b.last() == sep {
            prev.push(Seq::empty())
        } else {
            prev.update(prev.len() - 1, prev.last().push(b.last()))
        }
    }
}

/// The fields of a split, put back together with the separator between them.
pub open spec fn join_bytes<A>(fields: Seq<Seq<A>>, sep: A) -> Seq<A>
    decreases fields.len(),
{
    if fields.len() == 0 {
        Seq::empty()
    } else if fields.len() == 1 {
        fields[0]
    } else {
        join_bytes(fields.drop_last(), sep) + seq![sep] + fields.last()
    }
}

pub proof fn lemma_split_nonempty<A>(b: Seq<A>, sep: A)
    ensures
        split_bytes(b, sep).len() >= 1,
    decreases b.len(),
{
    if b.len() > 0 {
        lemma_split_nonempty(b.drop_last(), sep);
    }
}

/// Splitting loses nothing: joining the fields with the separator gives the input back, and no
/// field holds the separator.
pub proof fn law_split_join_roundtrip<A>(b: Seq<A>, sep: A)
    ensures
        join_bytes(split_bytes(b, sep), sep) == b,
        forall|i: int|
            0 <= i < split_bytes(b, sep).len() ==> !(#[trigger] split_bytes(b, sep)[i]).contains(
                sep,
            ),
    decreases b.len(),
{
    if b.len() > 0 {
        let prev = split_bytes(b.drop_last(), sep);
        law_split_join_roundtrip(b.drop_last(), sep);
        lemma_split_nonempty(b.drop_last(), sep);
        let cur = split_bytes(b, sep);
        if b.last() == sep {
            assert(cur.drop_last() =~= prev);
            assert(join_bytes(cur, sep) =~= b.drop_last() + seq![sep] + Seq::<A>::empty());
            assert(b =~= b.drop_last() + seq![sep]);
        } else {
            let last = prev.last().push(b.last());
            if prev.len() == 1 {
                assert(join_bytes(cur, sep) == cur[0]);
                assert(cur[0] =~= b);
            } else {
                assert(cur.drop_last() =~= prev.drop_last());
                assert(join_bytes(prev, sep) == join_bytes(prev.drop_last(), sep) + seq![sep]
                    + prev.last());
                assert(join_bytes(cur, sep) =~= join_bytes(prev, sep).push(b.last()));
                assert(b =~= b.drop_last().push(b.last()));
            }
        }
        assert forall|i: int| 0 <= i < cur.len() implies !(#[trigger] cur[i]).contains(sep) by {
            if i < prev.len() - 1 || (b.last() == sep && i < prev.len()) {
                assert(cur[i] == prev[i]);
            } else if b.last() != sep {
                let last = prev.last().push(b.last());
                assert(cur[i] == last);
                if last.contains(sep) {
                    let k = choose|k: int| 0 <= k < last.len() && last[k] == sep;
                    if k < prev.last().len() {
                        assert(prev[prev.len() - 1][k] == sep);
                    }
                }
            } else {
                assert(cur[i] =~= Seq::<A>::empty());
            }
        }
    } else {
        assert(split_bytes(b, sep) =~= seq![Seq::<A>::empty()]);
    }
}

/// The fields of `b` between separators.
pub fn split_on(b: &[u8], sep: u8) -> (fields: Vec<Vec<u8>>)
    ensures
        fields@.len() == split_bytes(b@, sep).len(),
        forall|i: int| 0 <= i < fields@.len() ==> (#[trigger] fields@[i])@ == split_bytes(b@, sep)[i],
{
    let mut done: Vec<Vec<u8>> = Vec::new();
    let mut current: Vec<u8> = Vec::new();
    let mut i: usize = 0;
    while i < b.len()
        invariant
            i <= b.len(),
            done@.len() + 1 == split_bytes(b@.take(i as int), sep).len(),
            forall|j: int|
                0 <= j < done@.len() ==> (#[trigger] done@[j])@ == split_bytes(
                    b@.take(i as int),
                    sep,
                )[j],
            current@ == split_bytes(b@.take(i as int), sep).last(),
        decreases b.len() - i,
    {
        proof {
            assert(b@.take(i + 1).drop_last() =~= b@.take(i as int));
            lemma_split_nonempty(b@.take(i as int), sep);
        }
        if b[i] == sep {
            done.push(current);
            current = Vec::new();
        } else {
            current.push(b[i]);
        }
        i = i + 1;
    }
    assert(b@.take(b@.len() as int) =~= b@);
    done.push(current);
    done
}

/// `s` without leading carriage returns and newlines.
pub open spec fn trim_start_newlines(s: Seq<u8>) -> Seq<u8>
    decreases s.len(),
{
    if s.len() > 0 && (s[0] == 13u8 || s[0] == 10u8) {
        trim_start_newlines(s.drop_first())
    } else {
        s
    }
}

/// `s` without trailing carriage returns and newlines.
pub open spec fn trim_end_newlines(s: Seq<u8>) -> Seq<u8>
    decreases s.len(),
{
    if s.len() > 0 && (s.last() == 13u8 || s.last() == 10u8) {
        trim_end_newlines(s.drop_last())
    } else {
        s
    }
}

pub fn trim_start_newlines_exec(s: &[u8]) -> (r: Vec<u8>)
    ensures
        r@ == trim_start_newlines(s@),
{
    let mut k: usize = 0;
    assert(s@.skip(0) =~= s@);
    while k < s.len() && (s[k] == 13u8 || s[k] == 10u8)
        invariant
            k <= s.len(),
            trim_start_newlines(s@) == trim_start_newlines(s@.skip(k as int)),
        decreases s.len() - k,
    {
        assert(s@.skip(k as int).drop_first() =~= s@.skip(k + 1));
        k = k + 1;
    }
    let r = crate::text::slice_bytes(s, k, s.len());
    assert(r@ =~= s@.skip(k as int));
    r
}

pub fn trim_end_newlines_exec(s: &[u8]) -> (r: Vec<u8>)
    ensures
        r@ == trim_end_newlines(s@),
{
    let mut k: usize = s.len();
    assert(s@.take(s@.len() as int) =~= s@);
    while k > 0 && (s[k - 1] == 13u8 || s[k - 1] == 10u8)
        invariant
            k <= s.len(),
            trim_end_newlines(s@) == trim_end_newlines(s@.take(k as int)),
        decreases k,
    {
        assert(s@.take(k as int).drop_last() =~= s@.take(k - 1));
        k = k - 1;
    }
    let r = crate::text::slice_bytes(s, 0, k);
    assert(r@ =~= s@.take(k as int));
    r
}

/// The first position of byte `c` in `s`, if any.
pub open spec fn byte_index(s: Seq<u8>, c: u8) -> Option<int>
    decreases s.len(),
{
    if s.len() == 0 {
        None
    } else if s[0] == c {
        Some(0)
    } else {
        match byte_index(s.drop_first(), c) {
            Some(i) => Some(i + 1),
            None => None,
        }
    }
}

pub proof fn lemma_byte_index(s: Seq<u8>, c: u8)
    ensures
        byte_index(s, c) matches Some(i) ==> 0 <= i < s.len() && s[i] == c && forall|j: int|
            0 <= j < i ==> s[j] != c,
        byte_index(s, c) is None ==> !s.contains(c),
    decreases s.len(),
{
    if s.len() > 0 {
        lemma_byte_index(s.drop_first(), c);
        if let Some(i) = byte_index(s, c) {
            if i > 0 {
                assert forall|j: int| 0 <= j < i implies s[j] != c by {
                    if j > 0 {
                        assert(s.drop_first()[j - 1] == s[j]);
                    }
                }
            }
        }
        if byte_index(s, c) is None {
            if s.contains(c) {
                let k = choose|k: int| 0 <= k < s.len() && s[k] == c;
                assert(s.drop_first()[k - 1] == c);
            }
        }
    }
}

/// Finds the first `c` in `s`.
pub fn find_byte(s: &[u8], c: u8) -> (r: Option<usize>)
    ensures
        r matches Some(i) ==> byte_index(s@, c) == Some(i as int),
        r is None ==> byte_index(s@, c) is None,
{
    let mut k: usize = 0;
    assert(s@.skip(0) =~= s@);
    while k < s.len()
        invariant
            k <= s.len(),
            forall|j: int| 0 <= j < k ==> s@[j] != c,
            byte_index(s@, c) == match byte_index(s@.skip(k as int), c) {
                Some(i) => Some(i + k),
                None => None::<int>,
            },
        decreases s.len() - k,
    {
        if s[k] == c {
            return Some(k);
        }
        assert(s@.skip(k as int).drop_first() =~= s@.skip(k + 1));
        k = k + 1;
    }
    None
}

/// The fields of `s` that are not empty, in order.
pub open spec fn nonempty_fields<A>(s: Seq<Seq<A>>) -> Seq<Seq<A>>
    decreases s.len(),
{
    if s.len() == 0 {
        Seq::empty()
    } else if s.last().len() == 0 {
        nonempty_fields(s.drop_last())
    } else {
        nonempty_fields(s.drop_last()).push(s.last())
    }
}

/// Every field `nonempty_fields` keeps is non-empty.
pub proof fn lemma_nonempty_fields_nonempty<A>(s: Seq<Seq<A>>, i: int)
    ensures
        0 <= i < nonempty_fields(s).len() ==> nonempty_fields(s)[i].len() > 0,
    decreases s.len(),
{
    if s.len() > 0 {
        lemma_nonempty_fields_nonempty(s.drop_last(), i);
    }
}

/// The fields that are not empty, in order.
pub(crate) fn nonempty_fields_of(fields: Vec<Vec<u8>>, Ghost(spec_fields): Ghost<Seq<Seq<u8>>>) -> (r: Vec<
    Vec<u8>,
>)
    requires
        fields@.len() == spec_fields.len(),
        forall|i: int| 0 <= i < fields@.len() ==> (#[trigger] fields@[i])@ == spec_fields[i],
    ensures
        r@.len() == nonempty_fields(spec_fields).len(),
        forall|i: int| 0 <= i < r@.len() ==> (#[trigger] r@[i])@ == nonempty_fields(spec_fields)[i],
{
    let mut r: Vec<Vec<u8>> = Vec::new();
    let mut i: usize = 0;
    while i < fields.len()
        invariant
            i <= fields@.len(),
            fields@.len() == spec_fields.len(),
            forall|j: int| 0 <= j < fields@.len() ==> (#[trigger] fields@[j])@ == spec_fields[j],
            r@.len() == nonempty_fields(spec_fields.take(i as int)).len(),
            forall|j: int|
                0 <= j < r@.len() ==> (#[trigger] r@[j])@ == nonempty_fields(
                    spec_fields.take(i as int),
                )[j],
        decreases fields.len() - i,
    {
        proof {
            assert(spec_fields.take(i + 1).drop_last() =~= spec_fields.take(i as int));
        }
        if fields[i].len() > 0 {
            let f = crate::text::slice_bytes(&fields[i], 0, fields[i].len());
            assert(f@ =~= fields@[i as int]@);
            r.push(f);
        }
        i = i + 1;
    }
    assert(spec_fields.take(spec_fields.len() as int) =~= spec_fields);
    r
}


/// The pieces of `s` between occurrences of the character `sep`.
pub fn split_chars_on(s: &[char], sep: char) -> (fields: Vec<Vec<char>>)
    ensures
        fields@.len() == split_bytes(s@, sep).len(),
        forall|i: int| 0 <= i < fields@.len() ==> (#[trigger] fields@[i])@ == split_bytes(s@, sep)[i],
{
    let mut done: Vec<Vec<char>> = Vec::new();
    let mut current: Vec<char> = Vec::new();
    let mut i: usize = 0;
    while i < s.len()
        invariant
            i <= s.len(),
            done@.len() + 1 == split_bytes(s@.take(i as int), sep).len(),
            forall|j: int|
                0 <= j < done@.len() ==> (#[trigger] done@[j])@ == split_bytes(
                    s@.take(i as int),
                    sep,
                )[j],
            current@ == split_bytes(s@.take(i as int), sep).last(),
        decreases s.len() - i,
    {
        proof {
            assert(s@.take(i + 1).drop_last() =~= s@.take(i as int));
            lemma_split_nonempty(s@.take(i as int), sep);
        }
        if s[i] == sep {
            done.push(current);
            current = Vec::new();
        } else {
            current.push(s[i]);
        }
        i = i + 1;
    }
    assert(s@.take(s@.len() as int) =~= s@);
    done.push(current);
    done
}

/// The pieces that are not empty, in order.
pub fn nonempty_char_fields(fields: &Vec<Vec<char>>) -> (r: Vec<Vec<char>>)
    ensures
        r@.len() == nonempty_fields(fields@.map_values(|f: Vec<char>| f@)).len(),
        forall|i: int|
            0 <= i < r@.len() ==> (#[trigger] r@[i])@ == nonempty_fields(
                fields@.map_values(|f: Vec<char>| f@),
            )[i],
{
    let ghost all = fields@.map_values(|f: Vec<char>| f@);
    let mut r: Vec<Vec<char>> = Vec::new();
    let mut i: usize = 0;
    while i < fields.len()
        invariant
            i <= fields@.len(),
            all == fields@.map_values(|f: Vec<char>| f@),
            r@.len() == nonempty_fields(all.take(i as int)).len(),
            forall|j: int|
                0 <= j < r@.len() ==> (#[trigger] r@[j])@ == nonempty_fields(all.take(i as int))[j],
        decreases fields.len() - i,
    {
        proof {
            assert(all.take(i + 1).drop_last() =~= all.take(i as int));
        }
        if fields[i].len() > 0 {
            let f = crate::text::slice_chars(&fields[i], 0, fields[i].len());
            assert(f@ =~= fields@[i as int]@);
            r.push(f);
        }
        i = i + 1;
    }
    assert(all.take(all.len() as int) =~= all);
    r
}

/// The pieces `fields[from..to]` put back together with `sep` between them.
pub fn join_char_fields(fields: &Vec<Vec<char>>, from: usize, to: usize, sep: char) -> (r: Vec<char>)
    requires
        from <= to <= fields@.len(),
    ensures
        r@ == join_bytes(fields@.map_values(|f: Vec<char>| f@).subrange(from as int, to as int), sep),
{
    let ghost all = fields@.map_values(|f: Vec<char>| f@);
    let mut r: Vec<char> = Vec::new();
    let mut i: usize = from;
    assert(all.subrange(from as int, from as int) =~= Seq::<Seq<char>>::empty());
    while i < to
        invariant
            from <= i <= to <= fields@.len(),
            all == fields@.map_values(|f: Vec<char>| f@),
            r@ == join_bytes(all.subrange(from as int, i as int), sep),
        decreases to - i,
    {
        proof {
            let taken = all.subrange(from as int, i + 1);
            assert(taken.drop_last() =~= all.subrange(from as int, i as int));
            assert(taken.last() == fields@[i as int]@);
        }
        if i > from {
            r.push(sep);
        }
        crate::text::push_chars(&mut r, &fields[i]);
        proof {
            let taken = all.subrange(from as int, i + 1);
            if i == from {
                assert(taken.len() == 1);
                assert(r@ =~= taken[0]);
            } else {
                assert(r@ =~= join_bytes(all.subrange(from as int, i as int), sep) + seq![sep]
                    + taken.last());
            }
        }
        i = i + 1;
    }
    r
}

} // verus!
