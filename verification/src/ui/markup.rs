//! A tiny tag markup (`<bold>`, `<green>`) that renders to ANSI colour or plain text.

use vstd::prelude::*;

use crate::text::{
    chars_of, find_chars_from, find_seq, lemma_first_occurrence_from, occurs_at, push_chars,
    slice_chars, string_from_chars,
};
use crate::util::hex_digit;

verus! {

/// The escape character that starts every ANSI sequence.
pub open spec fn esc() -> char {
    '\x1b'
}

/// The number of known tags.
pub open spec fn tag_count() -> nat {
    8
}

/// The name of tag `i`: bold, dim, red, green, yellow, blue, magenta, cyan.
pub open spec fn tag_name(i: int) -> Seq<char> {
    if i == 0 {
        seq!['b', 'o', 'l', 'd']
    } else if i == 1 {
        seq!['d', 'i', 'm']
    } else if i == 2 {
        seq!['r', 'e', 'd']
    } else if i == 3 {
        seq!['g', 'r', 'e', 'e', 'n']
    } else if i == 4 {
        seq!['y', 'e', 'l', 'l', 'o', 'w']
    } else if i == 5 {
        seq!['b', 'l', 'u', 'e']
    } else if i == 6 {
        seq!['m', 'a', 'g', 'e', 'n', 't', 'a']
    } else {
        seq!['c', 'y', 'a', 'n']
    }
}

/// The ANSI sequence that tag `i` switches on: `ESC [ 1 m`, `ESC [ 2 m`, `ESC [ 31 m` .. `ESC [ 36 m`.
pub open spec fn tag_code(i: int) -> Seq<char> {
    if i == 0 {
        seq![esc(), '[', '1', 'm']
    } else if i == 1 {
        seq![esc(), '[', '2', 'm']
    } else if i == 2 {
        seq![esc(), '[', '3', '1', 'm']
    } else if i == 3 {
        seq![esc(), '[', '3', '2', 'm']
    } else if i == 4 {
        seq![esc(), '[', '3', '3', 'm']
    } else if i == 5 {
        seq![esc(), '[', '3', '4', 'm']
    } else if i == 6 {
        seq![esc(), '[', '3', '5', 'm']
    } else {
        seq![esc(), '[', '3', '6', 'm']
    }
}

/// `ESC [ 0 m`: every style off.
pub open spec fn reset_code() -> Seq<char> {
    seq![esc(), '[', '0', 'm']
}

/// The index of the known tag called `name`, if any.
pub open spec fn tag_index(name: Seq<char>) -> Option<int> {
    if name == tag_name(0) {
        Some(0)
    } else if name == tag_name(1) {
        Some(1)
    } else if name == tag_name(2) {
        Some(2)
    } else if name == tag_name(3) {
        Some(3)
    } else if name == tag_name(4) {
        Some(4)
    } else if name == tag_name(5) {
        Some(5)
    } else if name == tag_name(6) {
        Some(6)
    } else if name == tag_name(7) {
        Some(7)
    } else {
        None
    }
}

/// `s` without its leading slashes.
pub open spec fn strip_leading_slashes(s: Seq<char>) -> Seq<char>
    decreases s.len(),
{
    if s.len() > 0 && s[0] == '/' {
        strip_leading_slashes(s.drop_first())
    } else {
        s
    }
}

/// `active` with its last occurrence of `tag` removed, if it has one.
pub open spec fn remove_last(active: Seq<int>, tag: int) -> Seq<int>
    decreases active.len(),
{
    if active.len() == 0 {
        active
    } else if active.last() == tag {
        active.drop_last()
    } else {
        remove_last(active.drop_last(), tag).push(active.last())
    }
}

/// The codes that switch every tag in `active` back on, in order.
pub open spec fn active_codes(active: Seq<int>) -> Seq<char>
    decreases active.len(),
{
    if active.len() == 0 {
        Seq::empty()
    } else {
        active_codes(active.drop_last()) + tag_code(active.last())
    }
}

/// The reset written at the end when colour is on and a style is still open.
pub open spec fn final_reset(active: Seq<int>, color: bool) -> Seq<char> {
    if color && active.len() > 0 {
        reset_code()
    } else {
        Seq::empty()
    }
}

/// Rendering of the markup `s` when the tags in `active` are open: known tags become ANSI codes
/// (colour on) or vanish (colour off); unknown tags and stray `<` stay as written.
pub open spec fn render_spec(s: Seq<char>, active: Seq<int>, color: bool) -> Seq<char>
    decreases s.len(),
{
    if s.len() == 0 {
        final_reset(active, color)
    } else if s[0] != '<' {
        seq![s[0]] + render_spec(s.drop_first(), active, color)
    } else {
        match find_seq(s, seq!['>']) {
            None => s + final_reset(active, color),
            Some(end) => {
                proof {
                    lemma_first_occurrence_from(s, seq!['>'], 0);
                }
                let tag = s.subrange(1, end);
                let closing = tag.len() > 0 && tag[0] == '/';
                let name = strip_leading_slashes(tag);
                let rest = s.skip(end + 1);
                match tag_index(name) {
                    None => s.take(end + 1) + render_spec(rest, active, color),
                    Some(t) => if !color {
                        render_spec(rest, active, color)
                    } else if closing {
                        let remaining = remove_last(active, t);
                        reset_code() + active_codes(remaining) + render_spec(
                            rest,
                            remaining,
                            color,
                        )
                    } else {
                        tag_code(t) + render_spec(rest, active.push(t), color)
                    },
                }
            },
        }
    }
}

/// One character of user text made inert: controls become `\xNN`, angle brackets become `‹` `›`.
pub open spec fn escape_char(c: char) -> Seq<char> {
    if (c as u32) <= 0x1f || (0x7f <= (c as u32) && (c as u32) <= 0x9f) {
        seq!['\\', 'x', hex_digit(((c as u32) / 16) as u8), hex_digit(((c as u32) % 16) as u8)]
    } else if c == '<' {
        seq!['\u{2039}']
    } else if c == '>' {
        seq!['\u{203a}']
    } else {
        seq![c]
    }
}

/// User text made inert, character by character.
pub open spec fn escape_spec(s: Seq<char>) -> Seq<char>
    decreases s.len(),
{
    if s.len() == 0 {
        Seq::empty()
    } else {
        escape_spec(s.drop_last()) + escape_char(s.last())
    }
}

proof fn lemma_escape_char_inert(c: char)
    ensures
        !escape_char(c).contains('<'),
        !escape_char(c).contains('>'),
        !escape_char(c).contains(esc()),
{
    let code = c as u32;
    if code <= 0x1f || (0x7f <= code && code <= 0x9f) {
        let hi = (code / 16) as u8;
        let lo = (code % 16) as u8;
        assert(hex_digit(hi) != '<' && hex_digit(hi) != '>' && hex_digit(hi) != esc());
        assert(hex_digit(lo) != '<' && hex_digit(lo) != '>' && hex_digit(lo) != esc());
        let e = escape_char(c);
        assert forall|i: int| 0 <= i < e.len() implies e[i] != '<' && e[i] != '>' && e[i] != esc() by {
        }
    } else {
        let e = escape_char(c);
        assert forall|i: int| 0 <= i < e.len() implies e[i] != '<' && e[i] != '>' && e[i] != esc() by {
        }
    }
}

/// Escaped text holds no `<`, `>` or escape character.
pub proof fn lemma_escape_inert(s: Seq<char>)
    ensures
        !escape_spec(s).contains('<'),
        !escape_spec(s).contains('>'),
        !escape_spec(s).contains(esc()),
    decreases s.len(),
{
    if s.len() > 0 {
        lemma_escape_inert(s.drop_last());
        lemma_escape_char_inert(s.last());
        let a = escape_spec(s.drop_last());
        let b = escape_char(s.last());
        assert forall|i: int| 0 <= i < (a + b).len() implies (a + b)[i] != '<' && (a + b)[i] != '>'
            && (a + b)[i] != esc() by {
            if i < a.len() {
                assert(a[i] == (a + b)[i]);
            } else {
                assert(b[i - a.len()] == (a + b)[i]);
            }
        }
    }
}

/// Markup without `<` renders as itself, followed by the closing reset when styles are open.
pub proof fn lemma_render_without_tags(s: Seq<char>, active: Seq<int>, color: bool)
    requires
        !s.contains('<'),
    ensures
        render_spec(s, active, color) == s + final_reset(active, color),
    decreases s.len(),
{
    if s.len() > 0 {
        assert(s[0] != '<');
        assert(!s.drop_first().contains('<')) by {
            if s.drop_first().contains('<') {
                let i = choose|i: int| 0 <= i < s.drop_first().len() && s.drop_first()[i] == '<';
                assert(s[i + 1] == '<');
            }
        }
        lemma_render_without_tags(s.drop_first(), active, color);
        assert(seq![s[0]] + (s.drop_first() + final_reset(active, color)) =~= s + final_reset(
            active,
            color,
        ));
    } else {
        assert(s + final_reset(active, color) =~= final_reset(active, color));
    }
}

/// Escaped user text passes through rendering unchanged, in colour or not: it can neither open a
/// style nor inject a control sequence.
pub proof fn law_escaped_text_renders_verbatim(text: Seq<char>, color: bool)
    ensures
        render_spec(escape_spec(text), Seq::empty(), color) == escape_spec(text),
{
    lemma_escape_inert(text);
    lemma_render_without_tags(escape_spec(text), Seq::empty(), color);
    assert(escape_spec(text) + final_reset(Seq::empty(), color) =~= escape_spec(text));
}

/// Without colour, rendering never introduces an escape character.
pub proof fn law_plain_render_adds_no_escapes(s: Seq<char>, active: Seq<int>)
    requires
        !s.contains(esc()),
    ensures
        !render_spec(s, active, false).contains(esc()),
    decreases s.len(),
{
    if s.len() > 0 {
        assert(!s.drop_first().contains(esc())) by {
            if s.drop_first().contains(esc()) {
                let i = choose|i: int| 0 <= i < s.drop_first().len() && s.drop_first()[i] == esc();
                assert(s[i + 1] == esc());
            }
        }
        if s[0] != '<' {
            law_plain_render_adds_no_escapes(s.drop_first(), active);
            let r = seq![s[0]] + render_spec(s.drop_first(), active, false);
            assert forall|i: int| 0 <= i < r.len() implies r[i] != esc() by {
                if i > 0 {
                    assert(r[i] == render_spec(s.drop_first(), active, false)[i - 1]);
                }
            }
        } else {
            lemma_first_occurrence_from(s, seq!['>'], 0);
            match find_seq(s, seq!['>']) {
                None => {
                    assert(final_reset(active, false) =~= Seq::<char>::empty());
                    assert(s + final_reset(active, false) =~= s);
                },
                Some(end) => {
                    let rest = s.skip(end + 1);
                    assert(!rest.contains(esc())) by {
                        if rest.contains(esc()) {
                            let i = choose|i: int| 0 <= i < rest.len() && rest[i] == esc();
                            assert(s[end + 1 + i] == esc());
                        }
                    }
                    law_plain_render_adds_no_escapes(rest, active);
                    let tag = s.subrange(1, end);
                    let name = strip_leading_slashes(tag);
                    match tag_index(name) {
                        None => {
                            let head = s.take(end + 1);
                            let r = head + render_spec(rest, active, false);
                            assert forall|i: int| 0 <= i < r.len() implies r[i] != esc() by {
                                if i < head.len() {
                                    assert(r[i] == s[i]);
                                } else {
                                    assert(r[i] == render_spec(rest, active, false)[i - head.len()]);
                                }
                            }
                        },
                        Some(t) => {},
                    }
                },
            }
        }
    } else {
        assert(final_reset(active, false) =~= Seq::<char>::empty());
    }
}

/// Escapes user-provided text so it cannot inject markup or control characters.
pub fn escape_markup(value: &str) -> (escaped: String)
    ensures
        escaped@ == escape_spec(value@),
{
    let s = chars_of(value);
    let mut out: Vec<char> = Vec::new();
    let mut i: usize = 0;
    while i < s.len()
        invariant
            i <= s.len(),
            out@ == escape_spec(s@.take(i as int)),
        decreases s.len() - i,
    {
        let c = s[i];
        let code = c as u32;
        let ghost before = out@;
        proof {
            assert(s@.take(i + 1).drop_last() =~= s@.take(i as int));
        }
        if code <= 0x1f || (0x7f <= code && code <= 0x9f) {
            let hi: u8 = (code / 16) as u8;
            let lo: u8 = (code % 16) as u8;
            out.push('\\');
            out.push('x');
            out.push(hex_char(hi));
            out.push(hex_char(lo));
        } else if c == '<' {
            out.push('\u{2039}');
        } else if c == '>' {
            out.push('\u{203a}');
        } else {
            out.push(c);
        }
        assert(out@ =~= before + escape_char(c));
        i = i + 1;
    }
    assert(s@.take(s@.len() as int) =~= s@);
    string_from_chars(&out)
}

/// The lowercase hex digit for a value below 16.
pub fn hex_char(n: u8) -> (c: char)
    requires
        n < 16,
    ensures
        c == hex_digit(n),
{
    if n < 10 {
        ((n + 48) as u8) as char
    } else {
        ((n + 87) as u8) as char
    }
}

/// Renders markup: ANSI colour when `color` is set, plain text otherwise.
pub fn render_markup(value: &str, color: bool) -> (rendered: String)
    ensures
        rendered@ == render_spec(value@, Seq::empty(), color),
{
    transform(value, color)
}

/// The known tag called `name`, if any.
fn known_tag(name: &[char]) -> (t: Option<usize>)
    ensures
        t matches Some(i) ==> tag_index(name@) == Some(i as int),
        t is None ==> tag_index(name@) is None,
{
    let names: [&str; 8] = ["bold", "dim", "red", "green", "yellow", "blue", "magenta", "cyan"];
    let mut i: usize = 0;
    while i < 8
        invariant
            i <= 8,
            forall|j: int| 0 <= j < i ==> name@ != tag_name(j),
        decreases 8 - i,
    {
        let candidate = tag_name_chars(i);
        if crate::text::chars_equal(name, &candidate) {
            return Some(i);
        }
        i = i + 1;
    }
    None
}

fn tag_name_chars(i: usize) -> (name: Vec<char>)
    requires
        i < 8,
    ensures
        name@ == tag_name(i as int),
{
    let v = if i == 0 {
        vec!['b', 'o', 'l', 'd']
    } else if i == 1 {
        vec!['d', 'i', 'm']
    } else if i == 2 {
        vec!['r', 'e', 'd']
    } else if i == 3 {
        vec!['g', 'r', 'e', 'e', 'n']
    } else if i == 4 {
        vec!['y', 'e', 'l', 'l', 'o', 'w']
    } else if i == 5 {
        vec!['b', 'l', 'u', 'e']
    } else if i == 6 {
        vec!['m', 'a', 'g', 'e', 'n', 't', 'a']
    } else {
        vec!['c', 'y', 'a', 'n']
    };
    assert(v@ =~= tag_name(i as int));
    v
}

fn push_tag_code(out: &mut Vec<char>, i: usize)
    requires
        i < 8,
    ensures
        final(out)@ == old(out)@ + tag_code(i as int),
{
    let code = if i == 0 {
        vec!['\x1b', '[', '1', 'm']
    } else if i == 1 {
        vec!['\x1b', '[', '2', 'm']
    } else if i == 2 {
        vec!['\x1b', '[', '3', '1', 'm']
    } else if i == 3 {
        vec!['\x1b', '[', '3', '2', 'm']
    } else if i == 4 {
        vec!['\x1b', '[', '3', '3', 'm']
    } else if i == 5 {
        vec!['\x1b', '[', '3', '4', 'm']
    } else if i == 6 {
        vec!['\x1b', '[', '3', '5', 'm']
    } else {
        vec!['\x1b', '[', '3', '6', 'm']
    };
    assert(code@ =~= tag_code(i as int));
    push_chars(out, &code);
}

fn push_reset(out: &mut Vec<char>)
    ensures
        final(out)@ == old(out)@ + reset_code(),
{
    let code = vec!['\x1b', '[', '0', 'm'];
    assert(code@ =~= reset_code());
    push_chars(out, &code);
}

/// The tags of `active` as spec integers.
pub open spec fn active_view(active: Seq<usize>) -> Seq<int> {
    active.map_values(|t: usize| t as int)
}

/// Removes the last occurrence of `t` from `active`, as `Vec::remove` at `rposition` does.
fn remove_last_exec(active: &mut Vec<usize>, t: usize)
    ensures
        active_view(final(active)@) == remove_last(active_view(old(active)@), t as int),
        forall|j: int|
            0 <= j < final(active)@.len() ==> old(active)@.contains(#[trigger] final(active)@[j]),
{
    let ghost a = active_view(active@);
    let mut k: usize = active.len();
    while k > 0 && active[k - 1] != t
        invariant
            k <= active.len(),
            a == active_view(active@),
            forall|j: int| k <= j < active.len() ==> active@[j] != t,
        decreases k,
    {
        k = k - 1;
    }
    proof {
        lemma_remove_last_from(a, t as int, k as int);
    }
    let ghost before = active@;
    if k > 0 {
        active.remove(k - 1);
        assert(active_view(active@) =~= a.remove(k - 1));
        assert forall|j: int| 0 <= j < active@.len() implies before.contains(#[trigger] active@[j]) by {
            if j < k - 1 {
                assert(before[j] == active@[j]);
            } else {
                assert(before[j + 1] == active@[j]);
            }
        }
    } else {
        assert forall|j: int| 0 <= j < active@.len() implies before.contains(#[trigger] active@[j]) by {
            assert(before[j] == active@[j]);
        }
    }
}

/// `remove_last` removes the last occurrence: everything after position `k - 1` differs from `t`.
proof fn lemma_remove_last_from(a: Seq<int>, t: int, k: int)
    requires
        0 <= k <= a.len(),
        forall|j: int| k <= j < a.len() ==> a[j] != t,
        k > 0 ==> a[k - 1] == t,
    ensures
        k == 0 ==> remove_last(a, t) == a,
        k > 0 ==> remove_last(a, t) == a.remove(k - 1),
    decreases a.len(),
{
    if a.len() > 0 {
        if a.last() == t {
            assert(k == a.len());
            assert(a.drop_last() =~= a.remove(k - 1));
        } else {
            lemma_remove_last_from(a.drop_last(), t, if k == a.len() {
                k - 1
            } else {
                k
            });
            if k > 0 {
                assert(a.drop_last().remove(k - 1).push(a.last()) =~= a.remove(k - 1));
            } else {
                assert(a.drop_last().push(a.last()) =~= a);
            }
        }
    }
}

/// Writes the codes of every active tag, in order.
fn push_active_codes(out: &mut Vec<char>, active: &Vec<usize>)
    requires
        forall|j: int| 0 <= j < active@.len() ==> active@[j] < 8,
    ensures
        final(out)@ == old(out)@ + active_codes(active_view(active@)),
{
    let ghost start = out@;
    let mut i: usize = 0;
    while i < active.len()
        invariant
            i <= active.len(),
            forall|j: int| 0 <= j < active@.len() ==> active@[j] < 8,
            out@ == start + active_codes(active_view(active@.take(i as int))),
        decreases active.len() - i,
    {
        push_tag_code(out, active[i]);
        proof {
            assert(active_view(active@.take(i + 1)).drop_last() =~= active_view(
                active@.take(i as int),
            ));
        }
        i = i + 1;
    }
    assert(active@.take(active@.len() as int) =~= active@);
}

/// Renders tagged markup, keeping a stack of open styles so a closing tag restores the rest.
fn transform(value: &str, color: bool) -> (rendered: String)
    ensures
        rendered@ == render_spec(value@, Seq::empty(), color),
{
    let s = chars_of(value);
    let mut out: Vec<char> = Vec::new();
    let mut active: Vec<usize> = Vec::new();
    let mut cursor: usize = 0;
    let close = vec!['>'];
    assert(close@ =~= seq!['>']);
    assert(s@.skip(0) =~= s@);
    assert(active_view(active@) =~= Seq::<int>::empty());
    while cursor < s.len()
        invariant
            cursor <= s.len(),
            close@ == seq!['>'],
            forall|j: int| 0 <= j < active@.len() ==> active@[j] < 8,
            out@ + render_spec(s@.skip(cursor as int), active_view(active@), color) == render_spec(
                s@,
                Seq::empty(),
                color,
            ),
        decreases s.len() - cursor,
    {
        let ghost rest_before = s@.skip(cursor as int);
        let ghost out_before = out@;
        let ghost active_before = active_view(active@);
        if s[cursor] != '<' {
            out.push(s[cursor]);
            assert(rest_before.drop_first() =~= s@.skip(cursor + 1));
            assert(out@ + render_spec(s@.skip(cursor + 1), active_view(active@), color)
                =~= out_before + render_spec(rest_before, active_before, color));
            cursor = cursor + 1;
            continue;
        }
        let found = find_chars_from(&s, &close, cursor);
        proof {
            lemma_first_occurrence_from(s@, close@, cursor as int);
            lemma_first_occurrence_from(rest_before, close@, 0);
            lemma_find_shift(s@, close@, cursor as int);
        }
        match found {
            None => {
                let tail = slice_chars(&s, cursor, s.len());
                push_chars(&mut out, &tail);
                assert(tail@ =~= rest_before);
                assert(s@.skip(s@.len() as int) =~= Seq::<char>::empty());
                cursor = s.len();
                assert(render_spec(s@.skip(cursor as int), active_view(active@), color)
                    == final_reset(active_view(active@), color));
                assert(out@ + render_spec(s@.skip(cursor as int), active_view(active@), color)
                    =~= out_before + render_spec(rest_before, active_before, color));
            },
            Some(end) => {
                let rel = end - cursor;
                let tag = slice_chars(&s, cursor + 1, end);
                assert(tag@ =~= rest_before.subrange(1, rel as int));
                let closing = tag.len() > 0 && tag[0] == '/';
                let mut start: usize = 0;
                assert(tag@.skip(0) =~= tag@);
                while start < tag.len() && tag[start] == '/'
                    invariant
                        start <= tag.len(),
                        strip_leading_slashes(tag@) == strip_leading_slashes(tag@.skip(start as int)),
                    decreases tag.len() - start,
                {
                    assert(tag@.skip(start as int).drop_first() =~= tag@.skip(start + 1));
                    start = start + 1;
                }
                let name = slice_chars(&tag, start, tag.len());
                assert(name@ =~= tag@.skip(start as int));
                assert(strip_leading_slashes(name@) == name@);
                let ghost rest_after = s@.skip(end + 1);
                assert(rest_before.skip(rel + 1) =~= rest_after);
                match known_tag(&name) {
                    None => {
                        let head = slice_chars(&s, cursor, end + 1);
                        push_chars(&mut out, &head);
                        assert(head@ =~= rest_before.take(rel + 1));
                    },
                    Some(t) => {
                        if color {
                            if closing {
                                remove_last_exec(&mut active, t);
                                push_reset(&mut out);
                                push_active_codes(&mut out, &active);
                            } else {
                                push_tag_code(&mut out, t);
                                active.push(t);
                                assert(active_view(active@) =~= active_before.push(t as int));
                            }
                        }
                    },
                }
                assert(out@ + render_spec(rest_after, active_view(active@), color) == out_before
                    + render_spec(rest_before, active_before, color));
                cursor = end + 1;
            },
        }
    }
    assert(s@.skip(cursor as int) =~= Seq::<char>::empty());
    if color && active.len() > 0 {
        push_reset(&mut out);
    }
    assert(out@ =~= render_spec(s@, Seq::empty(), color));
    string_from_chars(&out)
}

/// Searching from `cursor` in `s` finds what searching the suffix from 0 finds, shifted.
proof fn lemma_find_shift(s: Seq<char>, p: Seq<char>, cursor: int)
    requires
        0 <= cursor <= s.len(),
    ensures
        first_shift(s, p, cursor),
{
    lemma_first_occurrence_from(s, p, cursor);
    lemma_first_occurrence_from(s.skip(cursor), p, 0);
    let t = s.skip(cursor);
    assert forall|j: int| 0 <= j implies occurs_at(t, p, j) == occurs_at(s, p, j + cursor) by {
        if 0 <= j && j + p.len() <= t.len() {
            assert(t.subrange(j, j + p.len()) =~= s.subrange(j + cursor, j + cursor + p.len()));
        }
    }
    match crate::text::first_occurrence_from(s, p, cursor) {
        Some(i) => {
            assert(occurs_at(t, p, i - cursor));
            match find_seq(t, p) {
                Some(k) => {
                    assert(occurs_at(s, p, k + cursor));
                    if k < i - cursor {
                        assert(!occurs_at(s, p, k + cursor));
                    }
                    if k > i - cursor {
                        assert(!occurs_at(t, p, i - cursor));
                    }
                },
                None => {},
            }
        },
        None => {
            match find_seq(t, p) {
                Some(k) => {
                    assert(occurs_at(s, p, k + cursor));
                },
                None => {},
            }
        },
    }
}

/// The first occurrence found from `cursor` in `s` is the first occurrence in the suffix, shifted.
pub open spec fn first_shift(s: Seq<char>, p: Seq<char>, cursor: int) -> bool {
    match crate::text::first_occurrence_from(s, p, cursor) {
        Some(i) => find_seq(s.skip(cursor), p) == Some(i - cursor),
        None => find_seq(s.skip(cursor), p) is None,
    }
}

} // verus!
