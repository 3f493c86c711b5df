//! Reading files at a commit without checking them out: one `git cat-file --batch` for all of
//! them, and how its output is split back into files.

use vstd::prelude::*;
use vstd::string::StringSliceAdditionalSpecFns;

use crate::bytes::byte_index;
use crate::environment::seed::utf8;
use crate::git::runner::{git_prefix, run_git_with, str_views, Invocation, RunOptions};
use crate::number::{parse_u64, parse_u64_spec};
use crate::order::views;
use crate::provider::remote::{is_whitespace, trim_whitespace, trim_whitespace_exec};
use crate::text::{chars_of, ends_with, lossy_string, push_bytes, push_str, slice_bytes, string_from_chars, utf8_lossy};

verus! {

/// The request lines: `<reference>:<file>` for each file, each ending in a newline.
pub open spec fn batch_input(reference: Seq<char>, files: Seq<Seq<char>>) -> Seq<char>
    decreases files.len(),
{
    if files.len() == 0 {
        Seq::empty()
    } else {
        batch_input(reference, files.drop_last()) + reference + seq![':'] + files.last() + seq!['\n']
    }
}

/// Asks Git for the contents of `files` at `reference`, all in one batch; nothing to ask when
/// there are no files.
pub fn read_files_query(cwd: &str, reference: &str, files: &Vec<String>) -> (r: Option<Invocation>)
    ensures
        files@.len() == 0 ==> r is None,
        files@.len() > 0 ==> (r matches Some(inv) && inv.executable@ == "git"@
            && views(inv.args@) == git_prefix() + seq!["cat-file"@, "--batch"@]
            && (inv.options.cwd matches Some(c) && c@ == cwd@)
            && (inv.options.stdin matches Some(input) && input@ == utf8(batch_input(reference@, views(files@))))
            && inv.options.timeout_ms is None && inv.options.accepted_statuses@ == seq![0i32]),
{
    if files.len() == 0 {
        return None;
    }
    let mut text: Vec<char> = Vec::new();
    let mut i: usize = 0;
    while i < files.len()
        invariant
            i <= files@.len(),
            text@ == batch_input(reference@, views(files@).take(i as int)),
        decreases files.len() - i,
    {
        push_str(&mut text, reference);
        text.push(':');
        push_str(&mut text, files[i].as_str());
        text.push('\n');
        assert(views(files@).take(i + 1).drop_last() =~= views(files@).take(i as int));
        i = i + 1;
    }
    assert(views(files@).take(files@.len() as int) =~= views(files@));
    let rendered = string_from_chars(&text);
    let mut input: Vec<u8> = Vec::new();
    push_bytes(&mut input, rendered.as_str().as_bytes());
    assert(input@ =~= utf8(batch_input(reference@, views(files@))));
    let args = ["cat-file", "--batch"];
    assert(str_views(args@) =~= seq!["cat-file"@, "--batch"@]);
    let accepted = vec![0i32];
    assert(accepted@ =~= seq![0i32]);
    Some(run_git_with(cwd, &args, RunOptions { cwd: None, stdin: Some(input), timeout_ms: None, accepted_statuses: accepted }))
}

/// The characters of `t` after its last whitespace character (all of `t` when it has none).
pub open spec fn after_last_space(t: Seq<char>) -> Seq<char>
    decreases t.len(),
{
    if t.len() == 0 || is_whitespace(t.last()) {
        Seq::empty()
    } else {
        after_last_space(t.drop_last()).push(t.last())
    }
}

/// The object size a batch header ends with: its last whitespace-separated word, read as a
/// number.
pub open spec fn header_size(header: Seq<char>) -> Option<u64> {
    let t = trim_whitespace(header);
    if t.len() == 0 {
        None
    } else {
        parse_u64_spec(after_last_space(t))
    }
}

/// The files found in `git cat-file --batch` output, in the order asked, from the `i`-th
/// request on, whose header starts at `offset`. Each header ends at a newline; a header ending
/// in ` missing`, or without a size, yields nothing for its file; a size reaching past the end
/// of the output, or a header without a newline, ends the reading. The content is followed by a
/// newline.
pub open spec fn batch_entries(output: Seq<u8>, files: Seq<Seq<char>>, i: int, offset: int) -> Seq<(Seq<char>, Seq<u8>)>
    decreases files.len() - i,
{
    if i < 0 || i >= files.len() || offset < 0 || offset > output.len() {
        Seq::empty()
    } else {
        match byte_index(output.skip(offset), 10u8) {
            None => Seq::empty(),
            Some(k) => {
                let newline = offset + k;
                let header = utf8_lossy(output.subrange(offset, newline));
                let start = newline + 1;
                if ends_with(header, " missing"@) {
                    batch_entries(output, files, i + 1, start)
                } else {
                    match header_size(header) {
                        None => batch_entries(output, files, i + 1, start),
                        Some(size) => if start + size > output.len() {
                            Seq::empty()
                        } else {
                            let next = if start + size + 1 < output.len() { start + size + 1 } else { output.len() as int };
                            seq![(files[i], output.subrange(start, start + size))] + batch_entries(output, files, i + 1, next)
                        },
                    }
                }
            },
        }
    }
}

pub open spec fn entries_view(entries: Seq<(String, Vec<u8>)>) -> Seq<(Seq<char>, Seq<u8>)> {
    entries.map_values(|e: (String, Vec<u8>)| (e.0@, e.1@))
}

fn after_last_space_exec(t: &Vec<char>) -> (r: Vec<char>)
    ensures
        r@ == after_last_space(t@),
{
    let mut k: usize = t.len();
    assert(t@.take(k as int) =~= t@);
    assert(t@.skip(k as int) =~= Seq::<char>::empty());
    while k > 0 && !crate::provider::remote::is_whitespace_char(t[k - 1])
        invariant
            k <= t@.len(),
            after_last_space(t@) == after_last_space(t@.take(k as int)) + t@.skip(k as int),
        decreases k,
    {
        assert(t@.take(k as int).drop_last() =~= t@.take(k - 1));
        assert(t@.skip(k - 1) =~= seq![t@[k - 1]] + t@.skip(k as int));
        k = k - 1;
    }
    let r = crate::text::slice_chars(t, k, t.len());
    assert(r@ =~= t@.skip(k as int));
    r
}

fn header_size_exec(header: &String) -> (r: Option<u64>)
    ensures
        r == header_size(header@),
{
    let t = trim_whitespace_exec(&chars_of(header.as_str()));
    if t.len() == 0 {
        return None;
    }
    let word = after_last_space_exec(&t);
    parse_u64(&word)
}

/// Splits `git cat-file --batch` output back into the files asked for, as `batch_entries` says.
pub fn parse_batch(output: &[u8], files: &Vec<String>) -> (r: Vec<(String, Vec<u8>)>)
    ensures
        entries_view(r@) == batch_entries(output@, views(files@), 0, 0),
{
    let ghost all = batch_entries(output@, views(files@), 0, 0);
    let mut r: Vec<(String, Vec<u8>)> = Vec::new();
    let mut offset: usize = 0;
    let mut i: usize = 0;
    while i < files.len()
        invariant
            i <= files@.len(),
            offset <= output@.len(),
            all == batch_entries(output@, views(files@), 0, 0),
            entries_view(r@) + batch_entries(output@, views(files@), i as int, offset as int) == all,
        decreases files.len() - i,
    {
        let rest = slice_bytes(output, offset, output.len());
        assert(rest@ =~= output@.skip(offset as int));
        let found = crate::bytes::find_byte(rest.as_slice(), 10u8);
        let k = match found {
            None => {
                assert(batch_entries(output@, views(files@), i as int, offset as int) =~= Seq::empty());
                assert(entries_view(r@) =~= all);
                return r;
            },
            Some(k) => k,
        };
        proof {
            crate::bytes::lemma_byte_index(rest@, 10u8);
        }
        let newline = offset + k;
        let header = lossy_string(slice_bytes(output, offset, newline).as_slice());
        let start = newline + 1;
        let missing = chars_of(" missing");
        if crate::text::chars_end_with(&chars_of(header.as_str()), &missing) {
            offset = start;
            i = i + 1;
            continue;
        }
        match header_size_exec(&header) {
            None => {
                offset = start;
                i = i + 1;
            },
            Some(size) => {
                if size > (output.len() - start) as u64 {
                    assert(batch_entries(output@, views(files@), i as int, offset as int) =~= Seq::empty());
                    assert(entries_view(r@) =~= all);
                    return r;
                }
                let end = start + size as usize;
                let content = slice_bytes(output, start, end);
                let next = if end < output.len() { end + 1 } else { output.len() };
                let ghost before = entries_view(r@);
                r.push((files[i].clone(), content));
                assert(entries_view(r@) =~= before + seq![(views(files@)[i as int], output@.subrange(start as int, end as int))]);
                offset = next;
                i = i + 1;
            },
        }
    }
    assert(batch_entries(output@, views(files@), i as int, offset as int) =~= Seq::empty());
    assert(entries_view(r@) =~= all);
    r
}

} // verus!
