//! The inline fuzzy picker shown by a bare `acre`: which rows a filter keeps, and the frames
//! drawn for them. Reading keys and writing to the terminal happen around it.

use vstd::prelude::*;

use crate::number::{decimal, decimal_spec};
use crate::text::{
    ascii_lower_seq, chars_contain, chars_of, contains_seq, lower_chars, push_chars, push_str,
    string_from_chars,
};
use crate::ui::markup::{escape_spec, render_spec};
use crate::ui::output::Renderer;
use crate::util::{is_subsequence_spec, subsequence_chars};

verus! {

broadcast use vstd::string::group_string_axioms;

#[derive(Debug, Clone)]
pub struct PickerRow<T> {
    pub label: String,
    pub detail: Option<String>,
    pub searchable: String,
    pub value: T,
}

#[derive(Debug, Clone)]
pub enum PickerResult<T> {
    Selected(T),
    Cancelled,
    Interrupted,
}

/// The extended grapheme clusters of a text, as `unicode_segmentation` splits it
/// (`UnicodeSegmentation::graphemes` with `is_extended` set).
pub uninterp spec fn grapheme_clusters(text: Seq<char>) -> Seq<Seq<char>>;

/// The number of terminal columns a text takes, as `unicode_width::UnicodeWidthStr::width`
/// reports it.
pub uninterp spec fn text_width(text: Seq<char>) -> nat;

/// `UnicodeSegmentation::graphemes(text, true)`: the extended grapheme clusters of `text`, in
/// order. The contract names the result; what a cluster is takes Unicode's segmentation rules.
#[verifier::external_body]
fn graphemes(text: &str) -> (clusters: Vec<String>)
    ensures
        crate::order::views(clusters@) == grapheme_clusters(text@),
{
    unicode_segmentation::UnicodeSegmentation::graphemes(text, true).map(|g| g.to_owned()).collect()
}

/// `UnicodeWidthStr::width(text)`: the columns the text takes in a terminal. The contract
/// names the result; the width of each character comes from Unicode's tables.
#[verifier::external_body]
fn display_width(text: &str) -> (width: usize)
    ensures
        width == text_width(text@),
{
    unicode_width::UnicodeWidthStr::width(text)
}

/// The texts of `s`, one after another.
pub open spec fn concat(s: Seq<Seq<char>>) -> Seq<char>
    decreases s.len(),
{
    if s.len() == 0 {
        Seq::empty()
    } else {
        concat(s.drop_last()) + s.last()
    }
}

/// How many leading clusters from `j` on fit into `remaining` columns, one after another.
pub open spec fn fitting(clusters: Seq<Seq<char>>, j: int, remaining: int) -> nat
    decreases clusters.len() - j,
{
    if j < 0 || j >= clusters.len() || text_width(clusters[j]) > remaining {
        0
    } else {
        1 + fitting(clusters, j + 1, remaining - text_width(clusters[j]))
    }
}

/// The columns the fitting clusters from `j` on take.
pub open spec fn fitting_width(clusters: Seq<Seq<char>>, j: int, remaining: int) -> nat
    decreases clusters.len() - j,
{
    if j < 0 || j >= clusters.len() || text_width(clusters[j]) > remaining {
        0
    } else {
        text_width(clusters[j]) + fitting_width(clusters, j + 1, remaining - text_width(clusters[j]))
    }
}

/// One styled part: `<style>text</style>`, or the bare text when the style is empty.
pub open spec fn styled(style: Seq<char>, text: Seq<char>) -> Seq<char> {
    if style.len() == 0 {
        text
    } else {
        seq!['<'] + style + seq!['>'] + text + seq!['<', '/'] + style + seq!['>']
    }
}

/// The markup of the parts from `i` on within `remaining` columns: each part keeps the
/// clusters that fit, and the line stops after the first part that did not fit whole.
pub open spec fn line_markup(parts: Seq<(Seq<char>, Seq<char>)>, i: int, remaining: int) -> Seq<char>
    decreases parts.len() - i,
{
    if i < 0 || i >= parts.len() {
        Seq::empty()
    } else {
        let clusters = grapheme_clusters(escape_spec(parts[i].1));
        let k = fitting(clusters, 0, remaining);
        let piece = styled(parts[i].0, concat(clusters.take(k as int)));
        if k < clusters.len() {
            piece
        } else {
            piece + line_markup(parts, i + 1, remaining - fitting_width(clusters, 0, remaining))
        }
    }
}

/// The columns all parts take, escaped.
pub open spec fn parts_width(parts: Seq<(Seq<char>, Seq<char>)>) -> nat
    decreases parts.len(),
{
    if parts.len() == 0 {
        0
    } else {
        parts_width(parts.drop_last()) + text_width(escape_spec(parts.last().1))
    }
}

pub open spec fn part_views(parts: Seq<(&str, &str)>) -> Seq<(Seq<char>, Seq<char>)> {
    parts.map_values(|p: (&str, &str)| (p.0@, p.1@))
}

/// A picker line: the styled parts clipped to `width` columns without splitting a grapheme,
/// with `…` in the last column when anything was cut, rendered as a terminal would get it.
pub open spec fn line_spec(color: bool, parts: Seq<(Seq<char>, Seq<char>)>, width: nat) -> Seq<char> {
    if width == 0 {
        Seq::empty()
    } else {
        let clipped = parts_width(parts) > width;
        let room = if clipped {
            width - 1
        } else {
            width as int
        };
        let markup = line_markup(parts, 0, room);
        render_spec(
            if clipped {
                markup.push('\u{2026}')
            } else {
                markup
            },
            Seq::empty(),
            color,
        )
    }
}

/// Whether the parts are wider than `width`, without overflowing.
fn wider_than(renderer: &Renderer, parts: &[(&str, &str)], width: usize) -> (r: bool)
    ensures
        r == (parts_width(part_views(parts@)) > width),
{
    let ghost ps = part_views(parts@);
    let mut total: usize = 0;
    let mut i: usize = 0;
    while i < parts.len()
        invariant
            i <= parts@.len(),
            ps == part_views(parts@),
            total == parts_width(ps.take(i as int)),
            total <= width,
        decreases parts.len() - i,
    {
        proof {
            assert(ps.take(i + 1).drop_last() =~= ps.take(i as int));
        }
        let escaped = renderer.value(parts[i].1);
        let w = display_width(escaped.as_str());
        if w > width - total {
            proof {
                lemma_parts_width_grows(ps, i + 1, ps.len() as int);
                assert(ps.take(ps.len() as int) =~= ps);
            }
            return true;
        }
        total = total + w;
        i = i + 1;
    }
    assert(ps.take(ps.len() as int) =~= ps);
    false
}

proof fn lemma_parts_width_grows(ps: Seq<(Seq<char>, Seq<char>)>, i: int, j: int)
    requires
        0 <= i <= j <= ps.len(),
    ensures
        parts_width(ps.take(i)) <= parts_width(ps.take(j)),
    decreases j - i,
{
    if i < j {
        lemma_parts_width_grows(ps, i, j - 1);
        assert(ps.take(j).drop_last() =~= ps.take(j - 1));
    }
}

/// The clusters of `clusters` that fit into `remaining` columns, and the columns they take.
fn fit(clusters: &Vec<String>, remaining: usize) -> (r: (usize, usize))
    ensures
        r.0 == fitting(crate::order::views(clusters@), 0, remaining as int),
        r.1 == fitting_width(crate::order::views(clusters@), 0, remaining as int),
        r.1 <= remaining,
        r.0 <= clusters@.len(),
{
    let ghost cs = crate::order::views(clusters@);
    let mut k: usize = 0;
    let mut used: usize = 0;
    while k < clusters.len()
        invariant
            k <= clusters@.len(),
            cs == crate::order::views(clusters@),
            used <= remaining,
            fitting(cs, 0, remaining as int) == k + fitting(cs, k as int, remaining - used),
            fitting_width(cs, 0, remaining as int) == used + fitting_width(cs, k as int, remaining - used),
        decreases clusters.len() - k,
    {
        let w = display_width(clusters[k].as_str());
        if w > remaining - used {
            return (k, used);
        }
        used = used + w;
        k = k + 1;
    }
    (k, used)
}

/// The markup of the parts from `i` on, within `remaining` columns.
fn markup_from(renderer: &Renderer, parts: &[(&str, &str)], i: usize, remaining: usize) -> (r: Vec<char>)
    requires
        i <= parts@.len(),
    ensures
        r@ == line_markup(part_views(parts@), i as int, remaining as int),
    decreases parts@.len() - i,
{
    let ghost ps = part_views(parts@);
    if i >= parts.len() {
        return Vec::new();
    }
    let (style, value) = parts[i];
    let escaped = renderer.value(value);
    let clusters = graphemes(escaped.as_str());
    let ghost cs = crate::order::views(clusters@);
    let (k, used) = fit(&clusters, remaining);
    let mut taken: Vec<char> = Vec::new();
    let mut j: usize = 0;
    while j < k
        invariant
            j <= k <= clusters@.len(),
            cs == crate::order::views(clusters@),
            taken@ == concat(cs.take(j as int)),
        decreases k - j,
    {
        proof {
            assert(cs.take(j + 1).drop_last() =~= cs.take(j as int));
        }
        push_str(&mut taken, clusters[j].as_str());
        j = j + 1;
    }
    let mut out: Vec<char> = Vec::new();
    let style_chars = chars_of(style);
    if style_chars.len() == 0 {
        out = taken;
    } else {
        out.push('<');
        push_chars(&mut out, &style_chars);
        out.push('>');
        push_chars(&mut out, &taken);
        out.push('<');
        out.push('/');
        push_chars(&mut out, &style_chars);
        out.push('>');
    }
    assert(out@ =~= styled(ps[i as int].0, concat(cs.take(k as int))));
    if k < clusters.len() {
        return out;
    }
    let rest = markup_from(renderer, parts, i + 1, remaining - used);
    push_chars(&mut out, &rest);
    out
}

/// One line of the picker: the styled `parts`, escaped, clipped to `width` columns.
pub fn format_line(renderer: &Renderer, parts: &[(&str, &str)], width: usize) -> (line: String)
    ensures
        line@ == line_spec(renderer.color, part_views(parts@), width as nat),
{
    if width == 0 {
        return String::new();
    }
    let clipped = wider_than(renderer, parts, width);
    let room = if clipped {
        width - 1
    } else {
        width
    };
    let mut markup = markup_from(renderer, parts, 0, room);
    if clipped {
        markup.push('\u{2026}');
    }
    let text = string_from_chars(&markup);
    renderer.format(text.as_str(), true)
}

/// A row matches a filter when its searchable text, ignoring ASCII case, holds the filter or
/// holds its characters in order. An empty filter matches every row.
pub open spec fn row_matches(searchable: Seq<char>, filter: Seq<char>) -> bool {
    let needle = ascii_lower_seq(filter);
    let haystack = ascii_lower_seq(searchable);
    needle.len() == 0 || contains_seq(haystack, needle) || is_subsequence_spec(needle, haystack)
}

/// The positions of the rows among the first `n` that match `filter`, in order.
pub open spec fn matching_rows<T>(rows: Seq<PickerRow<T>>, filter: Seq<char>, n: int) -> Seq<int>
    decreases n,
{
    if n <= 0 || n > rows.len() {
        Seq::empty()
    } else if row_matches(rows[n - 1].searchable@, filter) {
        matching_rows(rows, filter, n - 1).push(n - 1)
    } else {
        matching_rows(rows, filter, n - 1)
    }
}

proof fn lemma_matching_rows_in_range<T>(rows: Seq<PickerRow<T>>, filter: Seq<char>, n: int)
    requires
        0 <= n <= rows.len(),
    ensures
        forall|m: int|
            0 <= m < matching_rows(rows, filter, n).len() ==> 0 <= #[trigger] matching_rows(rows, filter, n)[m] < n,
    decreases n,
{
    if n > 0 {
        lemma_matching_rows_in_range(rows, filter, n - 1);
        let prev = matching_rows(rows, filter, n - 1);
        let cur = matching_rows(rows, filter, n);
        assert forall|m: int| 0 <= m < cur.len() implies 0 <= #[trigger] cur[m] < n by {
            if m < prev.len() {
                assert(cur[m] == prev[m]);
            }
        }
    }
}

/// The positions of the rows a filter keeps, in order.
pub fn visible_rows<T>(rows: &[PickerRow<T>], filter: &str) -> (r: Vec<usize>)
    ensures
        r@.map_values(|k: usize| k as int) == matching_rows(rows@, filter@, rows@.len() as int),
{
    let needle = lower_chars(&chars_of(filter));
    let mut r: Vec<usize> = Vec::new();
    let mut i: usize = 0;
    while i < rows.len()
        invariant
            i <= rows@.len(),
            needle@ == ascii_lower_seq(filter@),
            r@.map_values(|k: usize| k as int) == matching_rows(rows@, filter@, i as int),
        decreases rows.len() - i,
    {
        let haystack = lower_chars(&chars_of(rows[i].searchable.as_str()));
        let keep = needle.len() == 0 || chars_contain(&haystack, &needle) || subsequence_chars(
            &needle,
            &haystack,
        );
        let ghost before = r@.map_values(|k: usize| k as int);
        if keep {
            r.push(i);
            assert(r@.map_values(|k: usize| k as int) =~= before.push(i as int));
        }
        i = i + 1;
    }
    r
}

pub open spec fn selected_marker() -> Seq<char> {
    seq!['\u{203a}', ' ']
}

/// The parts of one row: marker, label, and the detail when there is one.
pub open spec fn row_parts<T>(row: PickerRow<T>, is_selected: bool) -> Seq<(Seq<char>, Seq<char>)> {
    let head = seq![
        ("green"@, if is_selected {
            selected_marker()
        } else {
            seq![' ', ' ']
        }),
        ("blue"@, row.label@),
    ];
    match row.detail {
        Some(detail) => head + seq![(Seq::<char>::empty(), seq![' ', ' ']), ("dim"@, detail@)],
        None => head,
    }
}

/// The layout of a frame for a terminal of `columns` by `rows_high`.
pub struct FrameLayout {
    pub width: nat,
    pub spacious: bool,
    pub show_title: bool,
    pub show_footer: bool,
    pub capacity: int,
}

pub open spec fn frame_layout(columns: u16, rows_high: u16) -> FrameLayout {
    let width = if columns >= 1 { (columns - 1) as nat } else { 0 };
    let height: int = if rows_high >= 1 { rows_high as int } else { 1 };
    let spacious = height >= 7;
    let show_title = height >= 3;
    let show_footer = height >= 2;
    let chrome = (if show_title { 1int } else { 0 }) + (if show_footer { 1int } else { 0 }) + (if spacious { 2int } else { 0 });
    let capacity = if height - chrome < 13 { height - chrome } else { 13 };
    FrameLayout { width, spacious, show_title, show_footer, capacity }
}

/// The first visible position shown: the selection kept centred where possible, the window
/// filled at either end.
pub open spec fn window_start(selected: int, capacity: int, count: int) -> int {
    let centred = if selected - capacity / 2 > 0 { selected - capacity / 2 } else { 0 };
    let last = if count - capacity > 0 { count - capacity } else { 0 };
    if centred < last { centred } else { last }
}

pub open spec fn footer_text(filter: Seq<char>, width: nat) -> Seq<char> {
    if filter.len() == 0 {
        if width >= 49 {
            "Type to search \u{b7} \u{2191}\u{2193} select \u{b7} Enter open \u{b7} Esc leave"@
        } else {
            "\u{2191}\u{2193} \u{b7} Enter \u{b7} Esc"@
        }
    } else {
        filter + " \u{b7} \u{2191}\u{2193} \u{b7} Enter \u{b7} Esc"@
    }
}

/// The selection after clamping it to the visible rows.
pub open spec fn clamped_selection(selected: int, count: int) -> int {
    if selected >= count {
        if count > 0 { count - 1 } else { 0 }
    } else {
        selected
    }
}

/// How many rows the window shows from `offset` on.
pub open spec fn window_size(count: int, offset: int, capacity: int) -> int {
    if count - offset < capacity { count - offset } else { capacity }
}

/// The lines of a frame once the window is placed: `shown` rows from visible position `offset`.
pub open spec fn frame_lines_at<T>(
    color: bool,
    title: Seq<char>,
    rows: Seq<PickerRow<T>>,
    filter: Seq<char>,
    visible: Seq<int>,
    sel: int,
    l: FrameLayout,
    offset: int,
    shown: int,
) -> Seq<Seq<char>> {
    let title_lines = if l.show_title { seq![line_spec(color, seq![("bold"@, title)], l.width)] } else { Seq::empty() };
    let blank = if l.spacious { seq![Seq::<char>::empty()] } else { Seq::empty() };
    let row_lines = Seq::new(
        shown as nat,
        |t: int| line_spec(color, row_parts(rows[visible[offset + t]], offset + t == sel), l.width),
    );
    let empty_lines = if visible.len() == 0 {
        seq![line_spec(color, seq![("dim"@, "  No matches"@)], l.width)]
    } else {
        Seq::empty()
    };
    let footer = if l.show_footer {
        seq![line_spec(color, seq![("dim"@, footer_text(filter, l.width))], l.width)]
    } else {
        Seq::empty()
    };
    title_lines + blank + row_lines + empty_lines + blank + footer
}

/// The lines of a picker frame: the title, the window of matching rows with the selection
/// marked (or `No matches`), and the key hints, with blank lines around the rows when there is
/// room.
pub open spec fn frame_lines<T>(
    color: bool,
    title: Seq<char>,
    rows: Seq<PickerRow<T>>,
    filter: Seq<char>,
    selected: int,
    columns: u16,
    rows_high: u16,
) -> Seq<Seq<char>> {
    let visible = matching_rows(rows, filter, rows.len() as int);
    let sel = clamped_selection(selected, visible.len() as int);
    let l = frame_layout(columns, rows_high);
    let offset = window_start(sel, l.capacity, visible.len() as int);
    frame_lines_at(color, title, rows, filter, visible, sel, l, offset, window_size(visible.len() as int, offset, l.capacity))
}

/// The lines joined with `\r\n`.
pub open spec fn crlf_join(lines: Seq<Seq<char>>) -> Seq<char>
    decreases lines.len(),
{
    if lines.len() == 0 {
        Seq::empty()
    } else if lines.len() == 1 {
        lines[0]
    } else {
        crlf_join(lines.drop_last()) + seq!['\r', '\n'] + lines.last()
    }
}

/// The bytes written for a frame: clear from the line start down, the lines, then back up to
/// the frame's first line, so the next frame starts where this one did even after a resize.
pub open spec fn frame_text(lines: Seq<Seq<char>>) -> Seq<char> {
    seq!['\r', '\x1b', '[', '0', 'J'] + crlf_join(lines) + (if lines.len() > 1 {
        seq!['\x1b', '['] + decimal_spec((lines.len() - 1) as nat) + seq!['A']
    } else {
        Seq::empty()
    }) + seq!['\r']
}

fn push_line(output: &mut Vec<String>, line: String)
    ensures
        crate::order::views(final(output)@) == crate::order::views(old(output)@).push(line@),
{
    let ghost before = crate::order::views(output@);
    output.push(line);
    assert(crate::order::views(output@) =~= before.push(line@));
}

fn row_line<T>(renderer: &Renderer, row: &PickerRow<T>, is_selected: bool, width: usize) -> (line: String)
    ensures
        line@ == line_spec(renderer.color, row_parts(*row, is_selected), width as nat),
{
    let marker_chars = if is_selected { vec!['\u{203a}', ' '] } else { vec![' ', ' '] };
    let marker = string_from_chars(&marker_chars);
    let gap = string_from_chars(&vec![' ', ' ']);
    let none = String::new();
    match &row.detail {
        Some(detail) => {
            let parts = vec![("green", marker.as_str()), ("blue", row.label.as_str()), (none.as_str(), gap.as_str()), ("dim", detail.as_str())];
            assert(part_views(parts@) =~= row_parts(*row, is_selected));
            format_line(renderer, &parts, width)
        },
        None => {
            let parts = vec![("green", marker.as_str()), ("blue", row.label.as_str())];
            assert(part_views(parts@) =~= row_parts(*row, is_selected));
            format_line(renderer, &parts, width)
        },
    }
}

/// The lines of the rows shown, `shown` of them from visible position `offset` on.
fn window_lines<T>(
    renderer: &Renderer,
    rows: &[PickerRow<T>],
    visible: &Vec<usize>,
    offset: usize,
    shown: usize,
    selected: usize,
    width: usize,
) -> (lines: Vec<String>)
    requires
        offset + shown <= visible@.len(),
        forall|m: int| 0 <= m < visible@.len() ==> #[trigger] visible@[m] < rows@.len(),
    ensures
        crate::order::views(lines@) == Seq::new(
            shown as nat,
            |t: int| line_spec(renderer.color, row_parts(rows@[visible@[offset + t] as int], offset + t == selected), width as nat),
        ),
{
    let ghost row_spec = |t: int| line_spec(renderer.color, row_parts(rows@[visible@[offset + t] as int], offset + t == selected), width as nat);
    let mut output: Vec<String> = Vec::new();
    let total = visible.len();
    let mut t: usize = 0;
    while t < shown
        invariant
            t <= shown,
            total == visible@.len(),
            offset + shown <= visible@.len(),
            forall|m: int| 0 <= m < visible@.len() ==> #[trigger] visible@[m] < rows@.len(),
            crate::order::views(output@) == Seq::new(t as nat, row_spec),
            row_spec == (|t: int| line_spec(renderer.color, row_parts(rows@[visible@[offset + t] as int], offset + t == selected), width as nat)),
        decreases shown - t,
    {
        let index = visible[offset + t];
        let line = row_line(renderer, &rows[index], offset + t == selected, width);
        push_line(&mut output, line);
        assert(Seq::new((t + 1) as nat, row_spec) =~= Seq::new(t as nat, row_spec).push(row_spec(t as int)));
        t = t + 1;
    }
    output
}

fn footer_line(renderer: &Renderer, filter: &str, width: usize) -> (line: String)
    ensures
        line@ == line_spec(renderer.color, seq![("dim"@, footer_text(filter@, width as nat))], width as nat),
{
    let footer: String = if filter.is_empty() {
        if width >= 49 {
            "Type to search \u{b7} \u{2191}\u{2193} select \u{b7} Enter open \u{b7} Esc leave".to_owned()
        } else {
            "\u{2191}\u{2193} \u{b7} Enter \u{b7} Esc".to_owned()
        }
    } else {
        let mut text = chars_of(filter);
        push_str(&mut text, " \u{b7} \u{2191}\u{2193} \u{b7} Enter \u{b7} Esc");
        string_from_chars(&text)
    };
    let parts = vec![("dim", footer.as_str())];
    assert(part_views(parts@) =~= seq![("dim"@, footer_text(filter@, width as nat))]);
    format_line(renderer, &parts, width)
}

/// The bytes written for the frame's lines.
fn frame_bytes(output: &Vec<String>) -> (frame: String)
    ensures
        frame@ == frame_text(crate::order::views(output@)),
{
    let mut out: Vec<char> = vec!['\r', '\x1b', '[', '0', 'J'];
    let mut k: usize = 0;
    while k < output.len()
        invariant
            k <= output@.len(),
            out@ == seq!['\r', '\x1b', '[', '0', 'J'] + crlf_join(crate::order::views(output@).take(k as int)),
        decreases output.len() - k,
    {
        let ghost lines = crate::order::views(output@);
        proof {
            assert(lines.take(k + 1).drop_last() =~= lines.take(k as int));
            assert(lines.take(k + 1).last() == output@[k as int]@);
        }
        if k > 0 {
            out.push('\r');
            out.push('\n');
        }
        push_str(&mut out, output[k].as_str());
        proof {
            if k == 0 {
                assert(lines.take(1) =~= seq![output@[0]@]);
            }
        }
        k = k + 1;
    }
    assert(crate::order::views(output@).take(output@.len() as int) =~= crate::order::views(output@));
    if output.len() > 1 {
        out.push('\x1b');
        out.push('[');
        let count = decimal((output.len() - 1) as u64);
        push_chars(&mut out, &count);
        out.push('A');
    }
    out.push('\r');
    string_from_chars(&out)
}

/// Where a frame puts things.
struct Geometry {
    width: usize,
    spacious: bool,
    show_title: bool,
    show_footer: bool,
    selected: usize,
    offset: usize,
    shown: usize,
}

fn geometry(count: usize, selected: usize, columns: u16, rows_high: u16) -> (g: Geometry)
    ensures
        g.width == frame_layout(columns, rows_high).width,
        g.spacious == frame_layout(columns, rows_high).spacious,
        g.show_title == frame_layout(columns, rows_high).show_title,
        g.show_footer == frame_layout(columns, rows_high).show_footer,
        g.selected == clamped_selection(selected as int, count as int),
        g.offset == window_start(g.selected as int, frame_layout(columns, rows_high).capacity, count as int),
        g.shown == window_size(count as int, g.offset as int, frame_layout(columns, rows_high).capacity),
        g.offset + g.shown <= count,
{
    let mut selected = selected;
    if selected >= count {
        selected = if count > 0 { count - 1 } else { 0 };
    }
    let width: usize = if columns >= 1 { (columns - 1) as usize } else { 0 };
    let height: usize = if rows_high >= 1 { rows_high as usize } else { 1 };
    let spacious = height >= 7;
    let show_title = height >= 3;
    let show_footer = height >= 2;
    let chrome: usize = (if show_title { 1 } else { 0 }) + (if show_footer { 1 } else { 0 }) + (if spacious { 2 } else { 0 });
    let capacity: usize = if height - chrome < 13 { height - chrome } else { 13 };
    let half = capacity / 2;
    let centred: usize = if selected > half { selected - half } else { 0 };
    let last: usize = if count > capacity { count - capacity } else { 0 };
    let offset: usize = if centred < last { centred } else { last };
    let shown: usize = if count - offset < capacity { count - offset } else { capacity };
    Geometry { width, spacious, show_title, show_footer, selected, offset, shown }
}

fn frame_output<T>(
    renderer: &Renderer,
    title: &str,
    rows: &[PickerRow<T>],
    filter: &str,
    visible: &Vec<usize>,
    g: &Geometry,
    Ghost(l): Ghost<FrameLayout>,
) -> (output: Vec<String>)
    requires
        g.offset + g.shown <= visible@.len(),
        forall|m: int| 0 <= m < visible@.len() ==> #[trigger] visible@[m] < rows@.len(),
        l.width == g.width,
        l.spacious == g.spacious,
        l.show_title == g.show_title,
        l.show_footer == g.show_footer,
    ensures
        crate::order::views(output@) == frame_lines_at(
            renderer.color,
            title@,
            rows@,
            filter@,
            visible@.map_values(|k: usize| k as int),
            g.selected as int,
            l,
            g.offset as int,
            g.shown as int,
        ),
{
    let ghost color = renderer.color;
    let width = g.width;
    let mut output: Vec<String> = Vec::new();
    if g.show_title {
        let parts = vec![("bold", title)];
        assert(part_views(parts@) =~= seq![("bold"@, title@)]);
        push_line(&mut output, format_line(renderer, &parts, width));
    }
    if g.spacious {
        push_line(&mut output, String::new());
    }
    let window = window_lines(renderer, rows, visible, g.offset, g.shown, g.selected, width);
    let mut k: usize = 0;
    let ghost before_window = crate::order::views(output@);
    while k < window.len()
        invariant
            k <= window@.len(),
            crate::order::views(output@) == before_window + crate::order::views(window@).take(k as int),
        decreases window.len() - k,
    {
        push_line(&mut output, window[k].clone());
        assert(crate::order::views(window@).take(k + 1) =~= crate::order::views(window@).take(k as int).push(window@[k as int]@));
        k = k + 1;
    }
    assert(crate::order::views(window@).take(window@.len() as int) =~= crate::order::views(window@));
    if visible.len() == 0 {
        let parts = vec![("dim", "  No matches")];
        assert(part_views(parts@) =~= seq![("dim"@, "  No matches"@)]);
        push_line(&mut output, format_line(renderer, &parts, width));
    }
    if g.spacious {
        push_line(&mut output, String::new());
    }
    if g.show_footer {
        push_line(&mut output, footer_line(renderer, filter, width));
    }
    let ghost vis = visible@.map_values(|k: usize| k as int);
    assert(crate::order::views(window@) =~= Seq::new(
        g.shown as nat,
        |t: int| line_spec(color, row_parts(rows@[vis[g.offset + t]], g.offset + t == g.selected), l.width),
    ));
    assert(crate::order::views(output@) =~= frame_lines_at(color, title@, rows@, filter@, vis, g.selected as int, l, g.offset as int, g.shown as int));
    output
}

/// One frame of the picker for a terminal of `size` (columns, rows), as the bytes to write.
pub fn draw<T>(
    renderer: &Renderer,
    title: &str,
    rows: &[PickerRow<T>],
    filter: &str,
    selected: usize,
    size: (u16, u16),
) -> (frame: String)
    ensures
        frame@ == frame_text(frame_lines(renderer.color, title@, rows@, filter@, selected as int, size.0, size.1)),
{
    let (columns, rows_high) = size;
    let visible = visible_rows(rows, filter);
    let g = geometry(visible.len(), selected, columns, rows_high);
    proof {
        lemma_matching_rows_in_range(rows@, filter@, rows@.len() as int);
        let vis = visible@.map_values(|k: usize| k as int);
        assert forall|m: int| 0 <= m < visible@.len() implies #[trigger] visible@[m] < rows@.len() by {
            assert(vis[m] == visible@[m] as int);
        }
    }
    let output = frame_output(renderer, title, rows, filter, &visible, &g, Ghost(frame_layout(columns, rows_high)));
    frame_bytes(&output)
}


/// A key the picker acts on; anything else is `Other`.
#[derive(Debug, Clone, Copy, PartialEq, Eq, Structural)]
pub enum PickerKey {
    /// Ctrl-C, which raw mode keeps from the terminal.
    Interrupt,
    Escape,
    Up,
    Down,
    Enter,
    Backspace,
    /// A character typed without Ctrl or Alt.
    Char(char),
    Other,
}

/// What the picker is showing: the filter typed so far and the selected line among the rows
/// the filter keeps.
#[derive(Debug)]
pub struct PickerState {
    pub filter: String,
    pub selected: usize,
}

/// What follows a key: keep going, pick the row at this position, or stop.
#[derive(Debug, Clone, Copy, PartialEq, Eq, Structural)]
pub enum PickerStep {
    Continue,
    Select(usize),
    Cancel,
    Interrupt,
}

/// The picker after `key`, with `visible` the positions of the rows its filter keeps. Up and
/// Down move the selection round the visible rows; Enter picks the selected one when there is
/// one; any edit of the filter selects the first row again.
pub open spec fn picker_next(visible: Seq<int>, filter: Seq<char>, selected: usize, key: PickerKey) -> (Seq<char>, int, PickerStep) {
    let n = visible.len() as int;
    match key {
        PickerKey::Interrupt => (filter, selected as int, PickerStep::Interrupt),
        PickerKey::Escape => (filter, selected as int, PickerStep::Cancel),
        PickerKey::Up => (filter, if n == 0 { 0 } else { (selected + n - 1) % n }, PickerStep::Continue),
        PickerKey::Down => (filter, if n == 0 { 0 } else { (selected + 1) % n }, PickerStep::Continue),
        PickerKey::Enter => (filter, selected as int, if selected < n {
            PickerStep::Select(visible[selected as int] as usize)
        } else {
            PickerStep::Continue
        }),
        PickerKey::Backspace => (if filter.len() > 0 { filter.drop_last() } else { filter }, 0, PickerStep::Continue),
        PickerKey::Char(c) => (filter.push(c), 0, PickerStep::Continue),
        PickerKey::Other => (filter, selected as int, PickerStep::Continue),
    }
}

proof fn lemma_mod_shift(s: int, n: int, k: int)
    requires
        n > 0,
        s >= 0,
        0 <= k,
    ensures
        (s % n + k) % n == (s + k) % n,
{
    vstd::arithmetic::div_mod::lemma_add_mod_noop(s, k, n);
    vstd::arithmetic::div_mod::lemma_mod_twice(k, n);
    vstd::arithmetic::div_mod::lemma_small_mod((k % n) as nat, n as nat);
    vstd::arithmetic::div_mod::lemma_add_mod_noop(s % n, k, n);
    vstd::arithmetic::div_mod::lemma_mod_twice(s, n);
}

/// Applies `key` to the picker over `rows`; see `picker_next`.
pub fn picker_step<T>(rows: &[PickerRow<T>], state: &mut PickerState, key: PickerKey) -> (step: PickerStep)
    ensures
        ({
            let (filter, selected, next) = picker_next(
                matching_rows(rows@, old(state).filter@, rows@.len() as int),
                old(state).filter@,
                old(state).selected,
                key,
            );
            &&& final(state).filter@ == filter
            &&& final(state).selected == selected
            &&& step == next
        }),
{
    let visible = visible_rows(rows, state.filter.as_str());
    let ghost vis = matching_rows(rows@, state.filter@, rows@.len() as int);
    assert(visible@.len() == vis.len());
    let n = visible.len();
    match key {
        PickerKey::Interrupt => PickerStep::Interrupt,
        PickerKey::Escape => PickerStep::Cancel,
        PickerKey::Up => {
            if n == 0 {
                state.selected = 0;
            } else {
                let s = state.selected % n;
                proof {
                    lemma_mod_shift(old(state).selected as int, n as int, n - 1);
                    if s == 0 {
                        vstd::arithmetic::div_mod::lemma_small_mod((n - 1) as nat, n as nat);
                    } else {
                        vstd::arithmetic::div_mod::lemma_mod_add_multiples_vanish(s - 1, n as int);
                        vstd::arithmetic::div_mod::lemma_small_mod((s - 1) as nat, n as nat);
                    }
                }
                state.selected = if s == 0 { n - 1 } else { s - 1 };
            }
            PickerStep::Continue
        },
        PickerKey::Down => {
            if n == 0 {
                state.selected = 0;
            } else {
                let s = state.selected % n;
                proof {
                    lemma_mod_shift(old(state).selected as int, n as int, 1);
                }
                state.selected = (s + 1) % n;
            }
            PickerStep::Continue
        },
        PickerKey::Enter => {
            if state.selected < n {
                assert(visible@.map_values(|k: usize| k as int)[state.selected as int] == visible@[state.selected as int] as int);
                PickerStep::Select(visible[state.selected])
            } else {
                PickerStep::Continue
            }
        },
        PickerKey::Backspace => {
            let mut chars = chars_of(state.filter.as_str());
            if chars.len() > 0 {
                chars.pop();
            }
            state.filter = string_from_chars(&chars);
            state.selected = 0;
            PickerStep::Continue
        },
        PickerKey::Char(c) => {
            let mut chars = chars_of(state.filter.as_str());
            chars.push(c);
            state.filter = string_from_chars(&chars);
            state.selected = 0;
            PickerStep::Continue
        },
        PickerKey::Other => PickerStep::Continue,
    }
}

} // verus!
