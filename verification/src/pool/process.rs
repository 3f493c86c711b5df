//! Processes whose working directory lies inside a workspace.

use vstd::prelude::*;

use crate::util::{is_inside, path_within};

verus! {

#[derive(Debug, Clone)]
pub struct ProcessUse {
    pub pid: u32,
    pub command: String,
    pub cwd: Option<String>,
}

/// A candidate counts when it is not ignored, not this process, and its working directory is
/// inside `target`.
pub open spec fn counts(p: ProcessUse, target: Seq<char>, ignored: Seq<u32>, own_pid: u32) -> bool {
    &&& !ignored.contains(p.pid)
    &&& p.pid != own_pid
    &&& match p.cwd {
        Some(cwd) => path_within(target, cwd@),
        None => false,
    }
}

pub open spec fn counted(ps: Seq<ProcessUse>, target: Seq<char>, ignored: Seq<u32>, own_pid: u32) -> Seq<ProcessUse>
    decreases ps.len(),
{
    if ps.len() == 0 {
        Seq::empty()
    } else if counts(ps.last(), target, ignored, own_pid) {
        counted(ps.drop_last(), target, ignored, own_pid).push(ps.last())
    } else {
        counted(ps.drop_last(), target, ignored, own_pid)
    }
}

pub open spec fn by_pid(ps: Seq<ProcessUse>) -> bool {
    forall|i: int, j: int| 0 <= i < j < ps.len() ==> (#[trigger] ps[i]).pid <= (#[trigger] ps[j]).pid
}

fn clone_process(p: &ProcessUse) -> (r: ProcessUse)
    ensures
        r == *p,
{
    ProcessUse {
        pid: p.pid,
        command: p.command.clone(),
        cwd: match &p.cwd {
            Some(c) => Some(c.clone()),
            None => None,
        },
    }
}

fn contains_pid(pids: &Vec<u32>, pid: u32) -> (r: bool)
    ensures
        r == pids@.contains(pid),
{
    let mut i: usize = 0;
    while i < pids.len()
        invariant
            i <= pids@.len(),
            forall|j: int| 0 <= j < i ==> pids@[j] != pid,
        decreases pids.len() - i,
    {
        if pids[i] == pid {
            return true;
        }
        i = i + 1;
    }
    false
}

/// Inserts `p` after every process with a pid no larger, keeping the order stable.
fn insert_by_pid(v: &mut Vec<ProcessUse>, p: ProcessUse)
    requires
        by_pid(old(v)@),
    ensures
        by_pid(final(v)@),
        final(v)@.to_multiset() == old(v)@.to_multiset().insert(p),
{
    let mut k: usize = 0;
    while k < v.len() && v[k].pid <= p.pid
        invariant
            k <= v@.len(),
            v@ == old(v)@,
            forall|i: int| 0 <= i < k ==> (#[trigger] v@[i]).pid <= p.pid,
        decreases v.len() - k,
    {
        k = k + 1;
    }
    let ghost old_v = v@;
    v.insert(k, p);
    proof {
        let nv = v@;
        assert(nv =~= old_v.insert(k as int, p));
        assert forall|i: int, j: int| 0 <= i < j < nv.len() implies (#[trigger] nv[i]).pid <= (
        #[trigger] nv[j]).pid by {
            if j < k {
            } else if j == k {
            } else if i == k {
                assert(old_v[k as int].pid > p.pid);
                if j - 1 > k {
                    assert(old_v[k as int].pid <= old_v[j - 1].pid);
                }
            } else if i < k {
            } else {
                assert(nv[i] == old_v[i - 1] && nv[j] == old_v[j - 1]);
            }
        }
        assert(nv.remove(k as int) =~= old_v);
        broadcast use vstd::seq_lib::group_to_multiset_ensures;
        assert(nv.to_multiset().remove(p) =~= old_v.to_multiset());
        assert(nv.to_multiset().count(p) > 0) by {
            assert(nv[k as int] == p);
            assert(nv.contains(p));
        }
        assert(nv.to_multiset() =~= old_v.to_multiset().insert(p));
    }
}

/// The processes among `candidates` whose working directory is inside `target`, except
/// ignored pids and this process (`own_pid`), ordered by pid. Paths are compared in canonical
/// form.
pub fn find_processes_using_path(
    candidates: &Vec<ProcessUse>,
    target: &str,
    ignored_pids: &Vec<u32>,
    own_pid: u32,
) -> (r: Vec<ProcessUse>)
    ensures
        by_pid(r@),
        r@.to_multiset() == counted(candidates@, target@, ignored_pids@, own_pid).to_multiset(),
{
    let mut r: Vec<ProcessUse> = Vec::new();
    let mut i: usize = 0;
    proof {
        broadcast use vstd::seq_lib::group_to_multiset_ensures;
        assert(r@ =~= Seq::<ProcessUse>::empty());
    }
    while i < candidates.len()
        invariant
            i <= candidates@.len(),
            by_pid(r@),
            r@.to_multiset() == counted(candidates@.take(i as int), target@, ignored_pids@, own_pid).to_multiset(),
        decreases candidates.len() - i,
    {
        let p = &candidates[i];
        proof {
            assert(candidates@.take(i + 1).drop_last() =~= candidates@.take(i as int));
        }
        let inside = match &p.cwd {
            Some(cwd) => is_inside(target, cwd.as_str()),
            None => false,
        };
        if !contains_pid(ignored_pids, p.pid) && p.pid != own_pid && inside {
            insert_by_pid(&mut r, clone_process(p));
            proof {
                broadcast use vstd::seq_lib::group_to_multiset_ensures;
            }
        }
        i = i + 1;
    }
    assert(candidates@.take(candidates@.len() as int) =~= candidates@);
    r
}


/// What a process row says, as text.
pub open spec fn process_view(p: ProcessUse) -> (u32, Seq<char>, Option<Seq<char>>) {
    (p.pid, p.command@, match p.cwd {
        Some(c) => Some(c@),
        None => None,
    })
}

pub open spec fn process_views(ps: Seq<ProcessUse>) -> Seq<(u32, Seq<char>, Option<Seq<char>>)> {
    ps.map_values(|p: ProcessUse| process_view(p))
}

/// What `str::parse::<u32>` gives.
pub open spec fn parse_u32_spec(s: Seq<char>) -> Option<u32> {
    match crate::number::parse_u64_spec(s) {
        Some(v) => if v <= u32::MAX {
            Some(v as u32)
        } else {
            None
        },
        None => None,
    }
}

/// The name shown for a process: its command, or `pid <n>` when it has none.
pub open spec fn shown_command(pid: u32, command: Seq<char>) -> Seq<char> {
    if command.len() == 0 {
        "pid "@ + crate::number::decimal_spec(pid as nat)
    } else {
        command
    }
}

/// Reading `lsof -F pcn` so far: the rows found, the last pid (`None` when the last `p` line
/// was not a pid) and the last command.
pub open spec fn lsof_state(lines: Seq<Seq<char>>) -> (Seq<(u32, Seq<char>, Option<Seq<char>>)>, Option<u32>, Seq<char>)
    decreases lines.len(),
{
    if lines.len() == 0 {
        (Seq::empty(), None, Seq::empty())
    } else {
        let (rows, pid, command) = lsof_state(lines.drop_last());
        let line = lines.last();
        if line.len() > 0 && line[0] == 'p' {
            (rows, parse_u32_spec(line.skip(1)), command)
        } else if line.len() > 0 && line[0] == 'c' {
            (rows, pid, line.skip(1))
        } else if line.len() > 0 && line[0] == 'n' {
            match pid {
                Some(p) => (rows.push((p, shown_command(p, command), Some(line.skip(1)))), pid, command),
                None => (rows, pid, command),
            }
        } else {
            (rows, pid, command)
        }
    }
}

/// The processes `lsof -a -d cwd -F pcn` reports, one per `n` (working directory) line, each
/// with the pid and command of the `p` and `c` lines before it; an `n` line with no valid pid
/// before it is skipped. Lines are split at newlines.
pub open spec fn lsof_records(stdout: Seq<u8>) -> Seq<(u32, Seq<char>, Option<Seq<char>>)> {
    lsof_state(crate::git::commands::text_lines(crate::text::utf8_lossy(stdout))).0
}

/// `pid <n>`: how a process without a readable command is shown.
pub fn pid_label(pid: u32) -> (r: String)
    ensures
        r@ == "pid "@ + crate::number::decimal_spec(pid as nat),
{
    let mut text = crate::text::chars_of("pid ");
    let digits = crate::number::decimal(pid as u64);
    crate::text::push_chars(&mut text, &digits);
    crate::text::string_from_chars(&text)
}

/// The candidate processes of macOS, read from `lsof -a -d cwd -F pcn`.
pub fn lsof_processes(stdout: &[u8]) -> (r: Vec<ProcessUse>)
    ensures
        process_views(r@) == lsof_records(stdout@),
{
    let text = crate::text::lossy_string(stdout);
    let chars = crate::text::chars_of(text.as_str());
    let parts = crate::bytes::split_chars_on(&chars, '\n');
    let ghost lines = crate::git::commands::text_lines(chars@);
    let count: usize = if parts.len() > 0 && parts[parts.len() - 1].len() == 0 {
        parts.len() - 1
    } else {
        parts.len()
    };
    assert(lines.len() == count);
    let mut rows: Vec<ProcessUse> = Vec::new();
    let mut pid: Option<u32> = None;
    let mut command: Vec<char> = Vec::new();
    let mut i: usize = 0;
    while i < count
        invariant
            i <= count,
            count <= parts@.len(),
            lines == crate::git::commands::text_lines(chars@),
            lines.len() == count,
            parts@.len() == crate::bytes::split_bytes(chars@, '\n').len(),
            forall|k: int| 0 <= k < parts@.len() ==> (#[trigger] parts@[k])@ == crate::bytes::split_bytes(chars@, '\n')[k],
            (process_views(rows@), pid, command@) == lsof_state(lines.take(i as int)),
        decreases count - i,
    {
        assert(lines.take(i + 1).drop_last() =~= lines.take(i as int));
        assert(lines[i as int] == parts@[i as int]@);
        let line = &parts[i];
        if line.len() > 0 && line[0] == 'p' {
            let rest = crate::text::slice_chars(line, 1, line.len());
            pid = match crate::number::parse_u64(&rest) {
                Some(v) => if v <= 4294967295u64 {
                    Some(v as u32)
                } else {
                    None
                },
                None => None,
            };
        } else if line.len() > 0 && line[0] == 'c' {
            command = crate::text::slice_chars(line, 1, line.len());
        } else if line.len() > 0 && line[0] == 'n' {
            match pid {
                Some(p) => {
                    let rest = crate::text::slice_chars(line, 1, line.len());
                    let shown = if command.len() == 0 {
                        pid_label(p)
                    } else {
                        crate::text::string_from_chars(&command)
                    };
                    let ghost before = process_views(rows@);
                    rows.push(ProcessUse { pid: p, command: shown, cwd: Some(crate::text::string_from_chars(&rest)) });
                    assert(process_views(rows@) =~= before.push((p, shown_command(p, command@), Some(lines[i as int].skip(1)))));
                },
                None => {},
            }
        }
        i = i + 1;
    }
    assert(lines.take(count as int) =~= lines);
    rows
}


/// `lsof` has ten seconds to list the working directories of processes.
pub const LSOF_TIMEOUT_MS: u64 = 10000;

/// The working directories of all processes, as `lsof` lists them on macOS: one `p`, `c`
/// and `n` field per line; status 1 (nothing found) is an answer too.
pub fn lsof_query() -> (inv: crate::git::runner::Invocation)
    ensures
        inv.executable@ == "lsof"@,
        crate::order::views(inv.args@) == seq!["-a"@, "-d"@, "cwd"@, "-F"@, "pcn"@],
        inv.options.cwd is None,
        inv.options.stdin is None,
        inv.options.timeout_ms == Some(LSOF_TIMEOUT_MS),
        inv.options.accepted_statuses@ == seq![0i32, 1i32],
{
    let args = vec![
        String::from_str("-a"),
        String::from_str("-d"),
        String::from_str("cwd"),
        String::from_str("-F"),
        String::from_str("pcn"),
    ];
    assert(crate::order::views(args@) =~= seq!["-a"@, "-d"@, "cwd"@, "-F"@, "pcn"@]);
    let accepted = vec![0i32, 1i32];
    assert(accepted@ =~= seq![0i32, 1i32]);
    crate::git::runner::Invocation {
        executable: String::from_str("lsof"),
        args,
        options: crate::git::runner::RunOptions { cwd: None, stdin: None, timeout_ms: Some(LSOF_TIMEOUT_MS), accepted_statuses: accepted },
    }
}

} // verus!
