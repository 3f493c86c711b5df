//! Branches and remote-tracking branches, read from `git for-each-ref`.

use vstd::prelude::*;

use crate::bytes::{
    byte_index, find_byte, lemma_byte_index, split_bytes, split_on,
    trim_end_newlines, trim_end_newlines_exec, trim_start_newlines, trim_start_newlines_exec,
};
use crate::text::{bytes_end_with, bytes_start_with, ends_with, lossy_string, slice_bytes, starts_with, utf8_lossy};

verus! {

#[derive(Debug, Clone, Copy, PartialEq, Eq, Structural)]
pub enum GitRefKind {
    Local,
    Remote,
}

#[derive(Debug, Clone)]
pub struct GitRef {
    pub full_name: String,
    pub short_name: String,
    pub oid: String,
    pub kind: GitRefKind,
    pub remote: Option<String>,
    pub upstream: Option<String>,
}

/// `None` as `None`, and text by its characters.
pub open spec fn opt_view(value: Option<String>) -> Option<Seq<char>> {
    match value {
        Some(text) => Some(text@),
        None => None,
    }
}

impl GitRef {
    /// `remote/short` for a remote branch, `short` for a local one.
    pub open spec fn qualified_view(self) -> Seq<char> {
        match self.remote {
            Some(remote) => remote@ + seq!['/'] + self.short_name@,
            None => self.short_name@,
        }
    }

    /// `origin/feature` for a remote branch, `feature` for a local one.
    pub fn qualified_name(&self) -> (name: String)
        ensures
            name@ == self.qualified_view(),
    {
        match &self.remote {
            Some(remote) => {
                let mut out = crate::text::chars_of(remote.as_str());
                out.push('/');
                crate::text::push_str(&mut out, self.short_name.as_str());
                crate::text::string_from_chars(&out)
            },
            None => self.short_name.clone(),
        }
    }
}

/// The bytes one ref record resolves to, before they are decoded as text.
pub struct RefFields {
    pub full: Seq<u8>,
    pub short: Seq<u8>,
    pub oid: Seq<u8>,
    pub local: bool,
    pub remote: Option<Seq<u8>>,
    pub upstream: Option<Seq<u8>>,
}

pub open spec fn refs_heads() -> Seq<u8> {
    seq![114u8, 101u8, 102u8, 115u8, 47u8, 104u8, 101u8, 97u8, 100u8, 115u8, 47u8]
}

pub open spec fn refs_remotes() -> Seq<u8> {
    seq![114u8, 101u8, 102u8, 115u8, 47u8, 114u8, 101u8, 109u8, 111u8, 116u8, 101u8, 115u8, 47u8]
}

pub open spec fn slash_head() -> Seq<u8> {
    seq![47u8, 72u8, 69u8, 65u8, 68u8]
}

/// One `name NUL oid NUL upstream` record: local branches keep a shortened upstream, remote
/// branches are split at the first `/` after `refs/remotes/`; `HEAD` pointers, incomplete
/// records and other namespaces are skipped.
pub open spec fn ref_record(f0: Seq<u8>, f1: Seq<u8>, f2: Seq<u8>) -> Option<RefFields> {
    let full = trim_start_newlines(f0);
    let upstream = trim_end_newlines(f2);
    if full.len() == 0 || f1.len() == 0 || ends_with(full, slash_head()) {
        None
    } else if starts_with(full, refs_heads()) {
        Some(
            RefFields {
                full,
                short: full.skip(11),
                oid: f1,
                local: true,
                remote: None,
                upstream: if upstream.len() == 0 {
                    None
                } else if starts_with(upstream, refs_remotes()) {
                    Some(upstream.skip(13))
                } else {
                    Some(upstream)
                },
            },
        )
    } else if starts_with(full, refs_remotes()) {
        let rest = full.skip(13);
        match byte_index(rest, 47u8) {
            Some(i) => Some(
                RefFields {
                    full,
                    short: rest.skip(i + 1),
                    oid: f1,
                    local: false,
                    remote: Some(rest.take(i)),
                    upstream: None,
                },
            ),
            None => None,
        }
    } else {
        None
    }
}

/// The refs found in the first `n` records of `fields`.
pub open spec fn ref_records(fields: Seq<Seq<u8>>, n: nat) -> Seq<RefFields>
    decreases n,
{
    if n == 0 {
        Seq::empty()
    } else {
        let prev = ref_records(fields, (n - 1) as nat);
        let k = 3 * (n - 1);
        match ref_record(fields[k], fields[k + 1], fields[k + 2]) {
            Some(r) => prev.push(r),
            None => prev,
        }
    }
}

/// Every ref in `for-each-ref` output whose format is `name NUL oid NUL upstream NUL`.
pub open spec fn parse_refs_spec(buffer: Seq<u8>) -> Seq<RefFields> {
    let fields = split_bytes(buffer, 0u8);
    ref_records(fields, fields.len() / 3)
}

pub open spec fn opt_bytes_text(value: Option<String>, bytes: Option<Seq<u8>>) -> bool {
    match (value, bytes) {
        (None, None) => true,
        (Some(text), Some(raw)) => text@ == utf8_lossy(raw),
        _ => false,
    }
}

/// `r` is the ref whose text is the lossy decoding of `f`.
pub open spec fn ref_matches(r: GitRef, f: RefFields) -> bool {
    &&& r.full_name@ == utf8_lossy(f.full)
    &&& r.short_name@ == utf8_lossy(f.short)
    &&& r.oid@ == utf8_lossy(f.oid)
    &&& (r.kind == GitRefKind::Local) == f.local
    &&& opt_bytes_text(r.remote, f.remote)
    &&& opt_bytes_text(r.upstream, f.upstream)
}

fn parse_ref_record(f0: &[u8], f1: &[u8], f2: &[u8]) -> (r: Option<GitRef>)
    ensures
        match (r, ref_record(f0@, f1@, f2@)) {
            (None, None) => true,
            (Some(g), Some(f)) => ref_matches(g, f),
            _ => false,
        },
{
    let full = trim_start_newlines_exec(f0);
    let upstream = trim_end_newlines_exec(f2);
    let head: Vec<u8> = vec![47u8, 72u8, 69u8, 65u8, 68u8];
    let heads: Vec<u8> = vec![114u8, 101u8, 102u8, 115u8, 47u8, 104u8, 101u8, 97u8, 100u8, 115u8, 47u8];
    let remotes: Vec<u8> = vec![
        114u8,
        101u8,
        102u8,
        115u8,
        47u8,
        114u8,
        101u8,
        109u8,
        111u8,
        116u8,
        101u8,
        115u8,
        47u8,
    ];
    assert(head@ =~= slash_head());
    assert(heads@ =~= refs_heads());
    assert(remotes@ =~= refs_remotes());
    if full.len() == 0 || f1.len() == 0 || bytes_end_with(&full, &head) {
        return None;
    }
    if bytes_start_with(&full, &heads) {
        let short = slice_bytes(&full, 11, full.len());
        assert(short@ =~= full@.skip(11));
        let upstream_text = if upstream.len() == 0 {
            None
        } else if bytes_start_with(&upstream, &remotes) {
            let rest = slice_bytes(&upstream, 13, upstream.len());
            assert(rest@ =~= upstream@.skip(13));
            Some(lossy_string(&rest))
        } else {
            Some(lossy_string(&upstream))
        };
        return Some(
            GitRef {
                full_name: lossy_string(&full),
                short_name: lossy_string(&short),
                oid: lossy_string(f1),
                kind: GitRefKind::Local,
                remote: None,
                upstream: upstream_text,
            },
        );
    }
    if bytes_start_with(&full, &remotes) {
        let rest = slice_bytes(&full, 13, full.len());
        assert(rest@ =~= full@.skip(13));
        match find_byte(&rest, 47u8) {
            Some(i) => {
                proof {
                    lemma_byte_index(rest@, 47u8);
                }
                let remote = slice_bytes(&rest, 0, i);
                let short = slice_bytes(&rest, i + 1, rest.len());
                assert(remote@ =~= rest@.take(i as int));
                assert(short@ =~= rest@.skip(i + 1));
                return Some(
                    GitRef {
                        full_name: lossy_string(&full),
                        short_name: lossy_string(&short),
                        oid: lossy_string(f1),
                        kind: GitRefKind::Remote,
                        remote: Some(lossy_string(&remote)),
                        upstream: None,
                    },
                );
            },
            None => {
                return None;
            },
        }
    }
    None
}

/// Parses `for-each-ref` output: NUL-separated name, object id, and upstream per ref, with a
/// newline between refs that lands at the start of the next name.
pub fn parse_refs(buffer: &[u8]) -> (refs: Vec<GitRef>)
    ensures
        refs@.len() == parse_refs_spec(buffer@).len(),
        forall|i: int| 0 <= i < refs@.len() ==> ref_matches(#[trigger] refs@[i], parse_refs_spec(buffer@)[i]),
{
    let fields = split_on(buffer, 0u8);
    let ghost spec_fields = split_bytes(buffer@, 0u8);
    let records = fields.len() / 3;
    let mut refs: Vec<GitRef> = Vec::new();
    let mut k: usize = 0;
    let mut base: usize = 0;
    while k < records
        invariant
            k <= records,
            base == 3 * k,
            records == fields@.len() / 3,
            fields@.len() == spec_fields.len(),
            spec_fields == split_bytes(buffer@, 0u8),
            forall|i: int| 0 <= i < fields@.len() ==> (#[trigger] fields@[i])@ == spec_fields[i],
            refs@.len() == ref_records(spec_fields, k as nat).len(),
            forall|i: int|
                0 <= i < refs@.len() ==> ref_matches(
                    #[trigger] refs@[i],
                    ref_records(spec_fields, k as nat)[i],
                ),
        decreases records - k,
    {
        assert(base + 2 < fields@.len()) by (nonlinear_arith)
            requires
                k < records,
                records == fields@.len() / 3,
                base == 3 * k,
        ;
        assert(base + 2 < fields.len());
        let second = base + 1;
        let third = base + 2;
        let parsed = parse_ref_record(&fields[base], &fields[second], &fields[third]);
        match parsed {
            Some(r) => {
                refs.push(r);
            },
            None => {},
        }
        k = k + 1;
        base = base + 3;
    }
    refs
}


proof fn lemma_records_skip_head(fields: Seq<Seq<u8>>, n: nat)
    ensures
        forall|i: int| 0 <= i < ref_records(fields, n).len() ==> !ends_with(
            (#[trigger] ref_records(fields, n)[i]).full,
            seq![47u8, 72u8, 69u8, 65u8, 68u8],
        ),
    decreases n,
{
    if n > 0 {
        lemma_records_skip_head(fields, (n - 1) as nat);
        let prev = ref_records(fields, (n - 1) as nat);
        let k = 3 * (n - 1);
        assert(slash_head() =~= seq![47u8, 72u8, 69u8, 65u8, 68u8]);
        match ref_record(fields[k], fields[k + 1], fields[k + 2]) {
            Some(r) => {
                assert forall|i: int| 0 <= i < prev.push(r).len() implies !ends_with(
                    (#[trigger] prev.push(r)[i]).full,
                    seq![47u8, 72u8, 69u8, 65u8, 68u8],
                ) by {
                    if i < prev.len() {
                        assert(prev.push(r)[i] == prev[i]);
                    }
                }
            },
            None => {},
        }
    }
}

/// `HEAD` pointers are never refs: no ref parsed from `for-each-ref` output has a full name
/// ending in `/HEAD` (such as `refs/remotes/origin/HEAD`), so it is never offered as a
/// branch to open or suggested.
pub proof fn law_head_pointers_are_not_refs(buffer: Seq<u8>)
    ensures
        forall|i: int| 0 <= i < parse_refs_spec(buffer).len() ==> !ends_with(
            (#[trigger] parse_refs_spec(buffer)[i]).full,
            seq![47u8, 72u8, 69u8, 65u8, 68u8],
        ),
{
    let fields = split_bytes(buffer, 0u8);
    lemma_records_skip_head(fields, fields.len() / 3);
}

} // verus!
