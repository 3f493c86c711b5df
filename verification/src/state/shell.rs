//! Per-shell-session navigation history, which powers `acre -`.

use vstd::prelude::*;

use crate::git::refs::opt_view;
use crate::model::ShellSessionState;
use crate::util::{is_hex_digit, now_iso, random_id};

verus! {

/// A fresh shell session id: 32 random lowercase hex digits.
pub fn new_shell_session_id() -> (id: String)
    ensures
        id@.len() == 32,
        forall|i: int| 0 <= i < 32 ==> is_hex_digit(#[trigger] id@[i]),
{
    random_id()
}

/// A path's components as `Path` compares them on Unix: whether it is absolute, whether it
/// starts with `.`, and its named parts, without empty and `.` parts.
/// A part that names something: not empty and not `.`.
pub open spec fn is_named_part(p: Seq<char>) -> bool {
    p.len() > 0 && p != seq!['.']
}

pub open spec fn path_parts(s: Seq<char>) -> (bool, bool, Seq<Seq<char>>) {
    let parts = crate::bytes::split_bytes(s, '/');
    (
        s.len() > 0 && s[0] == '/',
        parts.len() > 0 && parts[0] == seq!['.'],
        parts.filter(|p: Seq<char>| is_named_part(p)),
    )
}

/// `a` and `b` are the same path: `/a/` and `/a`, or `a//b` and `a/./b`, are.
pub open spec fn same_path(a: Seq<char>, b: Seq<char>) -> bool {
    path_parts(a) == path_parts(b)
}

fn named_parts(s: &str) -> (r: (bool, bool, Vec<Vec<char>>))
    ensures
        r.0 == path_parts(s@).0,
        r.1 == path_parts(s@).1,
        r.2@.len() == path_parts(s@).2.len(),
        forall|i: int| 0 <= i < r.2@.len() ==> (#[trigger] r.2@[i])@ == path_parts(s@).2[i],
{
    let chars = crate::text::chars_of(s);
    let parts = crate::bytes::split_chars_on(&chars, '/');
    let ghost sp = crate::bytes::split_bytes(s@, '/');
    let absolute = chars.len() > 0 && chars[0] == '/';
    let dot = vec!['.'];
    assert(dot@ =~= seq!['.']);
    let current = parts.len() > 0 && crate::text::chars_equal(&parts[0], &dot);
    let mut named: Vec<Vec<char>> = Vec::new();
    let mut i: usize = 0;
    while i < parts.len()
        invariant
            i <= parts@.len(),
            parts@.len() == sp.len(),
            sp == crate::bytes::split_bytes(s@, '/'),
            chars@ == s@,
            dot@ == seq!['.'],
            forall|k: int| 0 <= k < parts@.len() ==> (#[trigger] parts@[k])@ == sp[k],
            named@.map_values(|v: Vec<char>| v@) == sp.take(i as int).filter(|p: Seq<char>| is_named_part(p)),
        decreases parts.len() - i,
    {
        assert(sp.take(i + 1).drop_last() =~= sp.take(i as int));
        reveal(Seq::filter);
        let ghost before = named@.map_values(|v: Vec<char>| v@);
        if parts[i].len() > 0 && !crate::text::chars_equal(&parts[i], &dot) {
            named.push(parts[i].clone());
            assert(named@.map_values(|v: Vec<char>| v@) =~= before.push(sp[i as int]));
        }
        i = i + 1;
    }
    assert(sp.take(sp.len() as int) =~= sp);
    assert forall|k: int| 0 <= k < named@.len() implies (#[trigger] named@[k])@ == path_parts(s@).2[k] by {
        assert(named@.map_values(|v: Vec<char>| v@)[k] == named@[k]@);
    }
    (absolute, current, named)
}

/// Whether `a` and `b` are the same path, component by component.
pub fn same_path_exec(a: &str, b: &str) -> (r: bool)
    ensures
        r == same_path(a@, b@),
{
    let (aa, ad, an) = named_parts(a);
    let (ba, bd, bn) = named_parts(b);
    if aa != ba || ad != bd || an.len() != bn.len() {
        return false;
    }
    let mut i: usize = 0;
    while i < an.len()
        invariant
            i <= an@.len(),
            an@.len() == bn@.len(),
            an@.len() == path_parts(a@).2.len(),
            bn@.len() == path_parts(b@).2.len(),
            forall|k: int| 0 <= k < an@.len() ==> (#[trigger] an@[k])@ == path_parts(a@).2[k],
            forall|k: int| 0 <= k < bn@.len() ==> (#[trigger] bn@[k])@ == path_parts(b@).2[k],
            forall|k: int| 0 <= k < i ==> path_parts(a@).2[k] == path_parts(b@).2[k],
        decreases an.len() - i,
    {
        if !crate::text::chars_equal(&an[i], &bn[i]) {
            return false;
        }
        i = i + 1;
    }
    assert(path_parts(a@).2 =~= path_parts(b@).2);
    true
}

/// The directory `acre -` returns to after a move from `from` to `to`: where the shell came
/// from, or, when it did not move (the same path, compared by components), the one already
/// recorded in `stored`.
pub open spec fn previous_directory(
    from: Seq<char>,
    to: Seq<char>,
    stored: Option<ShellSessionState>,
) -> Option<Seq<char>> {
    if same_path(from, to) {
        match stored {
            Some(state) => opt_view(state.previous_directory),
            None => None,
        }
    } else {
        Some(from)
    }
}

/// The session state recorded when shell session `id` moves from `from` to `to`, stamped
/// `now`. `stored` is the session's stored state, which is only consulted when the shell did
/// not move.
pub fn record_navigation_at(
    id: &str,
    from: &str,
    to: &str,
    pid: Option<u32>,
    stored: Option<ShellSessionState>,
    now: String,
) -> (state: ShellSessionState)
    ensures
        state.schema_version == 1,
        state.id@ == id@,
        opt_view(state.current_directory) == Some(to@),
        opt_view(state.previous_directory) == previous_directory(from@, to@, stored),
        state.pid == pid,
        state.updated_at@ == now@,
{
    let previous = if same_path_exec(from, to) {
        match stored {
            Some(state) => state.previous_directory,
            None => None,
        }
    } else {
        Some(from.to_owned())
    };
    ShellSessionState {
        schema_version: 1,
        id: id.to_owned(),
        current_directory: Some(to.to_owned()),
        previous_directory: previous,
        pid,
        updated_at: now,
    }
}

/// The session state recorded for a move, stamped with the current time.
pub fn record_navigation(
    id: &str,
    from: &str,
    to: &str,
    pid: Option<u32>,
    stored: Option<ShellSessionState>,
) -> (state: ShellSessionState)
    ensures
        state.schema_version == 1,
        state.id@ == id@,
        opt_view(state.current_directory) == Some(to@),
        opt_view(state.previous_directory) == previous_directory(from@, to@, stored),
        state.pid == pid,
        crate::util::is_millis_stamp(state.updated_at@),
{
    record_navigation_at(id, from, to, pid, stored, now_iso())
}

} // verus!
