//! Small helpers with no better home: hashing, ids, paths, slugs.

use vstd::prelude::*;

use sha2::Digest;
use vstd::string::StringSliceAdditionalSpecFns;

use crate::order::{sort_unique_strings, strictly_sorted, views};
use crate::text::{
    chars_equal, chars_of, chars_start_with, has_char, push_chars, push_str, slice_chars,
    starts_with, string_from_chars,
};

verus! {

broadcast use vstd::string::group_string_axioms;

// ---------------------------------------------------------------------------------------------
// Hashing and ids

/// What the SHA-256 digest of a byte sequence is.
pub uninterp spec fn sha256_digest(bytes: Seq<u8>) -> Seq<u8>;

/// `sha2::Sha256::digest`: the 32-byte SHA-256 digest of `bytes`.
#[verifier::external_body]
fn sha256_bytes(bytes: &[u8]) -> (digest: Vec<u8>)
    ensures
        digest@ == sha256_digest(bytes@),
        digest@.len() == 32,
{
    sha2::Sha256::digest(bytes).to_vec()
}

/// The lowercase hexadecimal digit for a value below 16.
pub open spec fn hex_digit(n: u8) -> char {
    if n < 10 {
        ((n + 48) as u8) as char
    } else {
        ((n + 87) as u8) as char
    }
}

/// Lowercase hexadecimal text of a byte sequence, two digits per byte, high nibble first.
pub open spec fn hex_lower(bytes: Seq<u8>) -> Seq<char> {
    bytes.flat_map(|b: u8| seq![hex_digit(b / 16), hex_digit(b % 16)])
}

/// `hex::encode`: lowercase hexadecimal, two digits per byte, high nibble first.
#[verifier::external_body]
fn hex_encode(bytes: &[u8]) -> (text: String)
    ensures
        text@ == hex_lower(bytes@),
{
    hex::encode(bytes)
}

/// A lowercase hexadecimal digit.
pub open spec fn is_hex_digit(c: char) -> bool {
    ('0' <= c && c <= '9') || ('a' <= c && c <= 'f')
}

pub proof fn lemma_hex_lower(bytes: Seq<u8>)
    ensures
        hex_lower(bytes).len() == 2 * bytes.len(),
        forall|i: int| 0 <= i < hex_lower(bytes).len() ==> is_hex_digit(#[trigger] hex_lower(bytes)[i]),
    decreases bytes.len(),
{
    let f = |b: u8| seq![hex_digit(b / 16), hex_digit(b % 16)];
    if bytes.len() > 0 {
        let init = bytes.drop_last();
        lemma_hex_lower(init);
        assert(bytes =~= init.push(bytes.last()));
        init.lemma_flat_map_push(f, bytes.last());
        let b = bytes.last();
        assert(is_hex_digit(hex_digit(b / 16)));
        assert(is_hex_digit(hex_digit(b % 16)));
        assert forall|i: int| 0 <= i < hex_lower(bytes).len() implies is_hex_digit(
            #[trigger] hex_lower(bytes)[i],
        ) by {
            if i < hex_lower(init).len() {
                assert(hex_lower(bytes)[i] == hex_lower(init)[i]);
            }
        }
    } else {
        assert(hex_lower(bytes) =~= Seq::<char>::empty()) by {
            reveal_with_fuel(Seq::flatten, 1);
        }
    }
}

/// The SHA-256 of `bytes` as 64 lowercase hex digits.
pub open spec fn sha256_hex(bytes: Seq<u8>) -> Seq<char> {
    hex_lower(sha256_digest(bytes))
}

/// SHA-256 of `value`, as lowercase hexadecimal text.
pub fn sha256(value: &[u8]) -> (hash: String)
    ensures
        hash@ == sha256_hex(value@),
        hash@.len() == 64,
        forall|i: int| 0 <= i < 64 ==> is_hex_digit(#[trigger] hash@[i]),
{
    let digest = sha256_bytes(value);
    let text = hex_encode(&digest);
    proof {
        lemma_hex_lower(digest@);
    }
    text
}

/// The first `length` hex digits of the SHA-256 of `value`.
pub open spec fn short_hash_spec(value: Seq<u8>, length: nat) -> Seq<char> {
    sha256_hex(value).take(if length < 64 { length as int } else { 64 })
}

/// The first `length` characters of the SHA-256 hex digest of `value`.
pub fn short_hash(value: &[u8], length: usize) -> (hash: String)
    ensures
        hash@ == short_hash_spec(value@, length as nat),
        hash@.len() == if length < 64 { length as nat } else { 64 },
        forall|i: int| 0 <= i < hash@.len() ==> is_hex_digit(#[trigger] hash@[i]),
{
    let full = sha256(value);
    let chars = chars_of(full.as_str());
    let n = if length < 64 { length } else { 64 };
    let taken = slice_chars(&chars, 0, n);
    assert(taken@ =~= full@.take(n as int));
    string_from_chars(&taken)
}

/// An RFC 3339 UTC stamp to the millisecond, as `to_rfc3339_opts(SecondsFormat::Millis, true)`
/// writes one: a year, then `-MM-DDTHH:MM:SS.mmmZ`.
pub open spec fn is_millis_stamp(s: Seq<char>) -> bool {
    let n = s.len() as int;
    &&& n >= 24
    &&& s[n - 20] == '-' && s[n - 17] == '-' && s[n - 14] == 'T' && s[n - 11] == ':'
    &&& s[n - 8] == ':' && s[n - 5] == '.' && s[n - 1] == 'Z'
    &&& forall|k: int| n - 20 <= k < n && k != n - 20 && k != n - 17 && k != n - 14 && k != n - 11
        && k != n - 8 && k != n - 5 && k != n - 1 ==> '0' <= #[trigger] s[k] && s[k] <= '9'
}

/// `chrono::Utc::now()` rendered by `to_rfc3339_opts(SecondsFormat::Millis, true)`: the current
/// time in UTC, to the millisecond, with a `Z` suffix. Which time it is depends on the clock;
/// what is stated is the shape every such stamp has.
#[verifier::external_body]
pub fn now_iso() -> (stamp: String)
    ensures
        is_millis_stamp(stamp@),
{
    chrono::Utc::now().to_rfc3339_opts(chrono::SecondsFormat::Millis, true)
}

/// What an RFC 3339 timestamp denotes, in milliseconds since the Unix epoch, or `None` when
/// the text is not one.
pub uninterp spec fn rfc3339_millis(value: Seq<char>) -> Option<i64>;

/// `chrono::DateTime::parse_from_rfc3339` followed by `timestamp_millis`: the instant the text
/// names, in milliseconds since the epoch; `None` when chrono cannot parse it.
#[verifier::external_body]
fn timestamp_millis(value: &str) -> (r: Option<i64>)
    ensures
        r == rfc3339_millis(value@),
{
    chrono::DateTime::parse_from_rfc3339(value).ok().map(|time| time.timestamp_millis())
}

/// `chrono::Utc::now().timestamp_millis()`: the current time in milliseconds since the epoch.
/// It depends on the clock, so nothing is stated of it.
#[verifier::external_body]
fn now_millis() -> (now: i64) {
    chrono::Utc::now().timestamp_millis()
}

/// How old the instant `value` names was at `now` (milliseconds since the epoch), never
/// negative. An unparseable timestamp counts as brand new, which is the cautious reading.
pub open spec fn age_at_spec(value: Seq<char>, now: i64) -> u128 {
    match rfc3339_millis(value) {
        Some(t) => if now - t > 0 { (now - t) as u128 } else { 0 },
        None => 0,
    }
}

pub fn age_millis_at(value: &str, now: i64) -> (age: u128)
    ensures
        age == age_at_spec(value@, now),
{
    match timestamp_millis(value) {
        Some(t) => {
            let difference: i128 = now as i128 - t as i128;
            if difference > 0 {
                difference as u128
            } else {
                0
            }
        },
        None => 0,
    }
}

/// `age` is how old the instant `value` names was at some moment.
pub open spec fn age_at_some_time(value: Seq<char>, age: u128) -> bool {
    exists|now: i64| age == #[trigger] age_at_spec(value, now)
}

/// How old the instant `value` names is now.
pub fn age_millis(value: &str) -> (age: u128)
    ensures
        age_at_some_time(value@, age),
{
    let now = now_millis();
    age_millis_at(value, now)
}

/// `uuid::Uuid::new_v4().simple()` rendered as text: a random id of 32 lowercase hex digits,
/// as the uuid crate's `Simple` formatter documents. Which digits come back is chance.
#[verifier::external_body]
pub fn random_id() -> (id: String)
    ensures
        id@.len() == 32,
        forall|i: int| 0 <= i < 32 ==> is_hex_digit(#[trigger] id@[i]),
{
    uuid::Uuid::new_v4().simple().to_string()
}

/// The first `length` characters of a fresh random id.
pub fn random_short(length: usize) -> (id: String)
    ensures
        id@.len() == if length < 32 { length as nat } else { 32 },
        forall|i: int| 0 <= i < id@.len() ==> is_hex_digit(#[trigger] id@[i]),
{
    let full = random_id();
    let chars = chars_of(full.as_str());
    let n = if length < 32 { length } else { 32 };
    let taken = slice_chars(&chars, 0, n);
    string_from_chars(&taken)
}

// ---------------------------------------------------------------------------------------------
// Paths (text, `/`-separated)

/// `Path::join` on Unix: an absolute `b` replaces `a`; otherwise a separator is added unless
/// `a` is empty or already ends with one.
pub open spec fn path_join(a: Seq<char>, b: Seq<char>) -> Seq<char> {
    if b.len() > 0 && b[0] == '/' {
        b
    } else if a.len() > 0 && a.last() != '/' {
        a + seq!['/'] + b
    } else {
        a + b
    }
}

/// Joins two paths as `Path::join` does on Unix.
pub fn join_path(a: &str, b: &str) -> (joined: String)
    ensures
        joined@ == path_join(a@, b@),
{
    let av = chars_of(a);
    let bv = chars_of(b);
    if bv.len() > 0 && bv[0] == '/' {
        return string_from_chars(&bv);
    }
    let mut out = av.clone();
    if av.len() > 0 && av[av.len() - 1] != '/' {
        out.push('/');
    }
    push_chars(&mut out, &bv);
    string_from_chars(&out)
}

/// `child` is `parent` or lies beneath it, comparing whole path components of normalized text.
pub open spec fn path_within(parent: Seq<char>, child: Seq<char>) -> bool {
    child == parent || starts_with(child, parent + seq!['/']) || (parent.len() > 0
        && parent.last() == '/' && starts_with(child, parent))
}

fn within_chars(parent: &[char], child: &[char]) -> (r: bool)
    ensures
        r == path_within(parent@, child@),
{
    if chars_equal(child, parent) {
        return true;
    }
    let mut with_sep: Vec<char> = slice_chars(parent, 0, parent.len());
    with_sep.push('/');
    assert(parent@.subrange(0, parent@.len() as int) =~= parent@);
    assert(with_sep@ =~= parent@ + seq!['/']);
    if chars_start_with(child, &with_sep) {
        return true;
    }
    parent.len() > 0 && parent[parent.len() - 1] == '/' && chars_start_with(child, parent)
}

/// True when `child` is `parent` or lies beneath it. Both are compared as given, so callers
/// pass canonical paths.
pub fn is_inside(parent: &str, child: &str) -> (inside: bool)
    ensures
        inside == path_within(parent@, child@),
{
    let p = chars_of(parent);
    let c = chars_of(child);
    within_chars(&p, &c)
}

/// What `dirs::home_dir` reports, as text. It reads the environment, so the answer is not
/// determined by anything the library holds; nothing is stated of it.
#[verifier::external_body]
fn home_dir_text() -> (home: Option<String>) {
    dirs::home_dir().map(|path| path.to_string_lossy().into_owned())
}

/// The user's home directory, or `.` when it cannot be determined.
pub fn home_dir() -> (home: String) {
    match home_dir_text() {
        Some(home) => home,
        None => String::from_str("."),
    }
}

/// `~` and `~/rest` expanded against `home`; anything else unchanged.
pub open spec fn expand_home_spec(path: Seq<char>, home: Seq<char>) -> Seq<char> {
    if path == seq!['~'] {
        home
    } else if starts_with(path, seq!['~', '/']) {
        path_join(home, path.skip(2))
    } else {
        path
    }
}

/// Expands a leading `~` against the given home directory.
pub fn expand_home_in(path: &str, home: &str) -> (expanded: String)
    ensures
        expanded@ == expand_home_spec(path@, home@),
{
    let p = chars_of(path);
    if p.len() == 1 && p[0] == '~' {
        assert(p@ =~= seq!['~']);
        return String::from_str(home);
    }
    let prefix = vec!['~', '/'];
    if chars_start_with(&p, &prefix) {
        assert(prefix@ =~= seq!['~', '/']);
        let rest = slice_chars(&p, 2, p.len());
        let rest_text = string_from_chars(&rest);
        assert(rest@ =~= p@.skip(2));
        return join_path(home, rest_text.as_str());
    }
    assert(prefix@ =~= seq!['~', '/']);
    assert(!(p@ =~= seq!['~']) || p.len() == 1);
    String::from_str(path)
}

/// Expands a leading `~` against the user's home directory.
pub fn expand_home(path: &str) -> (expanded: String)
    ensures
        exists|home: Seq<char>| expanded@ == expand_home_spec(path@, home),
{
    let home = home_dir();
    expand_home_in(path, home.as_str())
}

/// A path as shown to people: `~` for the home directory, `~/…` beneath it.
pub open spec fn display_path_spec(path: Seq<char>, home: Seq<char>) -> Seq<char> {
    if path == home {
        seq!['~']
    } else if starts_with(path, home + seq!['/']) {
        seq!['~', '/'] + path.skip(home.len() as int + 1)
    } else if home.len() > 0 && home.last() == '/' && starts_with(path, home) {
        seq!['~', '/'] + path.skip(home.len() as int)
    } else {
        path
    }
}

/// Shows `path` relative to `home` when it lies there.
pub fn display_path_in(path: &str, home: &str) -> (shown: String)
    ensures
        shown@ == display_path_spec(path@, home@),
{
    let p = chars_of(path);
    let h = chars_of(home);
    if chars_equal(&p, &h) {
        let tilde = vec!['~'];
        assert(tilde@ =~= seq!['~']);
        return string_from_chars(&tilde);
    }
    let mut with_sep: Vec<char> = slice_chars(&h, 0, h.len());
    with_sep.push('/');
    assert(h@.subrange(0, h@.len() as int) =~= h@);
    assert(with_sep@ =~= h@ + seq!['/']);
    let mut out = vec!['~', '/'];
    if chars_start_with(&p, &with_sep) {
        let rest = slice_chars(&p, with_sep.len(), p.len());
        push_chars(&mut out, &rest);
        assert(out@ =~= seq!['~', '/'] + p@.skip(h@.len() as int + 1));
        return string_from_chars(&out);
    }
    if h.len() > 0 && h[h.len() - 1] == '/' && chars_start_with(&p, &h) {
        let rest = slice_chars(&p, h.len(), p.len());
        push_chars(&mut out, &rest);
        assert(out@ =~= seq!['~', '/'] + p@.skip(h@.len() as int));
        return string_from_chars(&out);
    }
    String::from_str(path)
}

/// Shows a canonical path relative to the user's home directory.
pub fn display_path(path: &str) -> (shown: String)
    ensures
        exists|home: Seq<char>| shown@ == display_path_spec(path@, home),
{
    let home = home_dir();
    display_path_in(path, home.as_str())
}

// ---------------------------------------------------------------------------------------------
// Slugs

/// Characters that cannot appear in a directory name on every platform: control characters and
/// the Windows-reserved set.
pub open spec fn slug_forbidden(c: char) -> bool {
    (c as u32) <= 0x1f || (0x7f <= (c as u32) && (c as u32) <= 0x9f) || c == '/' || c == '\\'
        || c == '<' || c == '>' || c == ':' || c == '"' || c == '|' || c == '?' || c == '*'
}

pub open spec fn slug_char(c: char) -> char {
    if slug_forbidden(c) {
        '-'
    } else {
        c
    }
}

/// Forbidden characters replaced by `-`, with runs of dashes collapsed to one.
pub open spec fn collapse_dashes(s: Seq<char>) -> Seq<char>
    decreases s.len(),
{
    if s.len() == 0 {
        Seq::empty()
    } else {
        let prev = collapse_dashes(s.drop_last());
        let c = slug_char(s.last());
        if c == '-' && prev.len() > 0 && prev.last() == '-' {
            prev
        } else {
            prev.push(c)
        }
    }
}

/// `s` without its leading characters that satisfy `pred`.
pub open spec fn trim_start_by(s: Seq<char>, pred: spec_fn(char) -> bool) -> Seq<char>
    decreases s.len(),
{
    if s.len() > 0 && pred(s[0]) {
        trim_start_by(s.drop_first(), pred)
    } else {
        s
    }
}

/// `s` without its trailing characters that satisfy `pred`.
pub open spec fn trim_end_by(s: Seq<char>, pred: spec_fn(char) -> bool) -> Seq<char>
    decreases s.len(),
{
    if s.len() > 0 && pred(s.last()) {
        trim_end_by(s.drop_last(), pred)
    } else {
        s
    }
}

pub open spec fn slug_edge(c: char) -> bool {
    c == '.' || c == ' ' || c == '-'
}

pub open spec fn slug_tail(c: char) -> bool {
    c == '.' || c == ' '
}

pub open spec fn workspace_word() -> Seq<char> {
    seq!['w', 'o', 'r', 'k', 's', 'p', 'a', 'c', 'e']
}

/// The directory name Acre derives from a branch name.
pub open spec fn branch_slug_spec(branch: Seq<char>) -> Seq<char> {
    let trimmed = trim_end_by(
        trim_start_by(collapse_dashes(branch), |c: char| slug_edge(c)),
        |c: char| slug_edge(c),
    );
    let named = if trimmed.len() == 0 {
        workspace_word()
    } else {
        trimmed
    };
    let bounded = if named.len() > 72 {
        named.take(62) + seq!['-', '-'] + short_hash_spec(vstd::utf8::encode_utf8(branch), 8)
    } else {
        named
    };
    trim_end_by(bounded, |c: char| slug_tail(c))
}

/// A name that is safe as a single directory on every platform: not empty, free of separators,
/// control and reserved characters, not starting with `.`, ` ` or `-`, not ending with `.` or ` `.
pub open spec fn is_safe_slug(s: Seq<char>) -> bool {
    &&& s.len() > 0
    &&& forall|i: int| 0 <= i < s.len() ==> !slug_forbidden(#[trigger] s[i])
    &&& !slug_edge(s[0])
    &&& !slug_tail(s.last())
}

proof fn lemma_collapse_clean(s: Seq<char>)
    ensures
        forall|i: int|
            0 <= i < collapse_dashes(s).len() ==> !slug_forbidden(#[trigger] collapse_dashes(s)[i]),
        collapse_dashes(s).len() <= s.len(),
    decreases s.len(),
{
    if s.len() > 0 {
        lemma_collapse_clean(s.drop_last());
    }
}

pub proof fn lemma_trim_start_skip(s: Seq<char>, pred: spec_fn(char) -> bool, k: int)
    requires
        0 <= k <= s.len(),
        forall|j: int| 0 <= j < k ==> pred(#[trigger] s[j]),
    ensures
        trim_start_by(s, pred) == trim_start_by(s.skip(k), pred),
    decreases k,
{
    if k > 0 {
        assert(pred(s[0]));
        lemma_trim_start_skip(s.drop_first(), pred, k - 1);
        assert(s.drop_first().skip(k - 1) =~= s.skip(k));
    } else {
        assert(s.skip(0) =~= s);
    }
}

pub proof fn lemma_trim_end_take(s: Seq<char>, pred: spec_fn(char) -> bool, k: int)
    requires
        0 <= k <= s.len(),
        forall|j: int| k <= j < s.len() ==> pred(#[trigger] s[j]),
    ensures
        trim_end_by(s, pred) == trim_end_by(s.take(k), pred),
    decreases s.len() - k,
{
    if k < s.len() {
        assert(pred(s.last()));
        lemma_trim_end_take(s.drop_last(), pred, k);
        assert(s.drop_last().take(k) =~= s.take(k));
    } else {
        assert(s.take(k) =~= s);
    }
}

/// Characters kept by trimming both ends are a contiguous piece of the input.
proof fn lemma_trim_start_shape(s: Seq<char>, pred: spec_fn(char) -> bool)
    ensures
        exists|k: int| 0 <= k <= s.len() && trim_start_by(s, pred) == s.skip(k),
        trim_start_by(s, pred).len() > 0 ==> !pred(trim_start_by(s, pred)[0]),
    decreases s.len(),
{
    if s.len() > 0 && pred(s[0]) {
        lemma_trim_start_shape(s.drop_first(), pred);
        let k = choose|k: int|
            0 <= k <= s.drop_first().len() && trim_start_by(s.drop_first(), pred)
                == s.drop_first().skip(k);
        assert(s.drop_first().skip(k) =~= s.skip(k + 1));
    } else {
        assert(s.skip(0) =~= s);
    }
}

proof fn lemma_trim_end_shape(s: Seq<char>, pred: spec_fn(char) -> bool)
    ensures
        exists|k: int| 0 <= k <= s.len() && trim_end_by(s, pred) == s.take(k),
        trim_end_by(s, pred).len() > 0 ==> !pred(trim_end_by(s, pred).last()),
    decreases s.len(),
{
    if s.len() > 0 && pred(s.last()) {
        lemma_trim_end_shape(s.drop_last(), pred);
        let k = choose|k: int|
            0 <= k <= s.drop_last().len() && trim_end_by(s.drop_last(), pred)
                == s.drop_last().take(k);
        assert(s.drop_last().take(k) =~= s.take(k));
    } else {
        assert(s.take(s.len() as int) =~= s);
    }
}

/// Index of the first character of `s` that does not satisfy `pred`, from the left.
fn trim_start_index(s: &[char]) -> (k: usize)
    ensures
        k <= s.len(),
        forall|j: int| 0 <= j < k ==> slug_edge(#[trigger] s@[j]),
        k < s.len() ==> !slug_edge(s@[k as int]),
{
    let mut k: usize = 0;
    while k < s.len() && (s[k] == '.' || s[k] == ' ' || s[k] == '-')
        invariant
            k <= s.len(),
            forall|j: int| 0 <= j < k ==> slug_edge(#[trigger] s@[j]),
        decreases s.len() - k,
    {
        k = k + 1;
    }
    k
}

/// Index one past the last character of `s` not satisfying the edge predicate.
fn trim_end_index(s: &[char], tail_only: bool) -> (k: usize)
    ensures
        k <= s.len(),
        forall|j: int|
            k <= j < s.len() ==> if tail_only {
                slug_tail(#[trigger] s@[j])
            } else {
                slug_edge(s@[j])
            },
        k > 0 ==> if tail_only {
            !slug_tail(s@[k - 1])
        } else {
            !slug_edge(s@[k - 1])
        },
{
    let mut k: usize = s.len();
    while k > 0 && (s[k - 1] == '.' || s[k - 1] == ' ' || (!tail_only && s[k - 1] == '-'))
        invariant
            k <= s.len(),
            forall|j: int|
                k <= j < s.len() ==> if tail_only {
                    slug_tail(#[trigger] s@[j])
                } else {
                    slug_edge(s@[j])
                },
        decreases k,
    {
        k = k - 1;
    }
    k
}

/// Forbidden characters mapped to `-`, dash runs collapsed.
fn collapse_dashes_exec(s: &[char]) -> (r: Vec<char>)
    ensures
        r@ == collapse_dashes(s@),
{
    let mut out: Vec<char> = Vec::new();
    let mut i: usize = 0;
    while i < s.len()
        invariant
            i <= s.len(),
            out@ == collapse_dashes(s@.take(i as int)),
        decreases s.len() - i,
    {
        let c = s[i];
        let code = c as u32;
        let forbidden = code <= 0x1f || (0x7f <= code && code <= 0x9f) || c == '/' || c == '\\'
            || c == '<' || c == '>' || c == ':' || c == '"' || c == '|' || c == '?' || c == '*';
        let next = if forbidden {
            '-'
        } else {
            c
        };
        proof {
            assert(s@.take(i + 1).drop_last() =~= s@.take(i as int));
            assert(s@.take(i + 1).last() == c);
        }
        if next == '-' {
            if !(out.len() > 0 && out[out.len() - 1] == '-') {
                out.push('-');
            }
        } else {
            out.push(next);
        }
        i = i + 1;
    }
    assert(s@.take(s@.len() as int) =~= s@);
    out
}

/// Turns a branch name into a safe, readable directory name.
pub fn branch_slug(branch: &str) -> (slug: String)
    ensures
        slug@ == branch_slug_spec(branch@),
        is_safe_slug(slug@),
{
    let chars = chars_of(branch);
    let collapsed = collapse_dashes_exec(&chars);
    let ghost edge = |c: char| slug_edge(c);
    let ghost tail = |c: char| slug_tail(c);
    proof {
        lemma_collapse_clean(branch@);
    }
    let start = trim_start_index(&collapsed);
    let started = slice_chars(&collapsed, start, collapsed.len());
    proof {
        lemma_trim_start_skip(collapsed@, edge, start as int);
        assert(collapsed@.skip(start as int) =~= started@);
        if started@.len() > 0 {
            assert(trim_start_by(started@, edge) == started@);
        } else {
            assert(trim_start_by(started@, edge) == started@);
        }
    }
    let end = trim_end_index(&started, false);
    let trimmed = slice_chars(&started, 0, end);
    proof {
        lemma_trim_end_take(started@, edge, end as int);
        assert(started@.take(end as int) =~= trimmed@);
        if trimmed@.len() > 0 {
            assert(trimmed@.last() == started@[end - 1]);
        }
        assert(trim_end_by(trimmed@, edge) == trimmed@);
    }
    let named: Vec<char> = if trimmed.len() == 0 {
        let word = vec!['w', 'o', 'r', 'k', 's', 'p', 'a', 'c', 'e'];
        assert(word@ =~= workspace_word());
        word
    } else {
        trimmed
    };
    proof {
        assert forall|i: int| 0 <= i < named@.len() implies !slug_forbidden(#[trigger] named@[i]) by {
            if trimmed@.len() > 0 {
                assert(named@[i] == collapsed@[start + i]);
            }
        }
        assert(!slug_edge(named@[0]));
        assert(!slug_edge(named@.last()));
    }
    let bounded: Vec<char> = if named.len() > 72 {
        let mut b = slice_chars(&named, 0, 62);
        b.push('-');
        b.push('-');
        let hash = short_hash(branch.as_bytes(), 8);
        let hash_chars = chars_of(hash.as_str());
        push_chars(&mut b, &hash_chars);
        assert(b@ =~= named@.take(62) + seq!['-', '-'] + short_hash_spec(
            vstd::utf8::encode_utf8(branch@),
            8,
        ));
        proof {
            assert(!slug_tail(b@.last()));
            assert forall|i: int| 0 <= i < b@.len() implies !slug_forbidden(#[trigger] b@[i]) by {
                if i < 62 {
                    assert(b@[i] == named@[i]);
                } else if i >= 64 {
                    assert(b@[i] == hash@[i - 64]);
                }
            }
        }
        b
    } else {
        named
    };
    let end = trim_end_index(&bounded, true);
    let result = slice_chars(&bounded, 0, end);
    proof {
        lemma_trim_end_take(bounded@, tail, end as int);
        assert(!slug_tail(bounded@.last()));
        assert(end == bounded@.len());
        assert(bounded@.take(end as int) =~= bounded@);
        assert(result@ =~= bounded@);
        assert(trim_end_by(bounded@, tail) == bounded@);
    }
    string_from_chars(&result)
}

/// `repository-name-abcdef12`: a readable, unique directory name for a repository's state.
pub open spec fn repository_slug_spec(name: Seq<char>, id_prefix: Seq<char>) -> Seq<char> {
    let slug = branch_slug_spec(name);
    let safe = slug.take(if slug.len() < 48 { slug.len() as int } else { 48 });
    (if safe.len() == 0 {
        seq!['r', 'e', 'p', 'o', 's', 'i', 't', 'o', 'r', 'y']
    } else {
        safe
    }) + seq!['-'] + id_prefix
}

/// A directory name for a repository: the slug of its name (at most 48 characters), a dash, and
/// the first eight bytes of its id.
pub fn repository_slug(name: &str, id: &str) -> (slug: String)
    requires
        vstd::utf8::is_char_boundary(
            id.spec_bytes(),
            if id.spec_bytes().len() < 8 {
                id.spec_bytes().len() as int
            } else {
                8
            },
        ),
    ensures
        exists|prefix: &str|
            prefix.spec_bytes() == id.spec_bytes().take(
                if id.spec_bytes().len() < 8 {
                    id.spec_bytes().len() as int
                } else {
                    8
                },
            ) && slug@ == repository_slug_spec(name@, prefix@),
{
    let slug = branch_slug(name);
    let slug_chars = chars_of(slug.as_str());
    let n = if slug_chars.len() < 48 {
        slug_chars.len()
    } else {
        48
    };
    let safe = slice_chars(&slug_chars, 0, n);
    let mut out: Vec<char> = if safe.len() == 0 {
        let word = vec!['r', 'e', 'p', 'o', 's', 'i', 't', 'o', 'r', 'y'];
        word
    } else {
        safe
    };
    out.push('-');
    let bytes = id.as_bytes();
    let cut = if bytes.len() < 8 {
        bytes.len()
    } else {
        8
    };
    let (prefix, _) = id.split_at(cut);
    push_str(&mut out, prefix);
    proof {
        assert(prefix.spec_bytes() =~= id.spec_bytes().take(cut as int));
        assert(prefix.spec_bytes() == id.spec_bytes().take(
            if id.spec_bytes().len() < 8 {
                id.spec_bytes().len() as int
            } else {
                8
            },
        ));
        let word = seq!['r', 'e', 'p', 'o', 's', 'i', 't', 'o', 'r', 'y'];
        assert(out@ =~= repository_slug_spec(name@, prefix@));
    }
    let ghost witness = prefix;
    string_from_chars(&out)
}

// ---------------------------------------------------------------------------------------------
// Relative paths

/// `..` appears as a whole `/`-separated component of `s` starting at `i`.
pub open spec fn parent_component_at(s: Seq<char>, i: int) -> bool {
    &&& 0 <= i && i + 2 <= s.len()
    &&& s[i] == '.' && s[i + 1] == '.'
    &&& i == 0 || s[i - 1] == '/'
    &&& i + 2 == s.len() || s[i + 2] == '/'
}

/// A path that may be joined onto a worktree without escaping it: not empty, no NUL, not
/// absolute, and no `..` component.
pub open spec fn is_safe_relative_path(s: Seq<char>) -> bool {
    &&& s.len() > 0
    &&& !s.contains('\0')
    &&& s[0] != '/'
    &&& forall|i: int| !parent_component_at(s, i)
}

/// Whether a configured path stays inside the repository it is joined onto.
pub fn validate_relative_path(value: &str) -> (valid: bool)
    ensures
        valid == is_safe_relative_path(value@),
{
    let s = chars_of(value);
    if s.len() == 0 || has_char(&s, '\0') || s[0] == '/' {
        return false;
    }
    let mut i: usize = 0;
    while i + 1 < s.len()
        invariant
            s@ == value@,
            s.len() > 0,
            i < s.len(),
            forall|j: int| 0 <= j < i ==> !parent_component_at(s@, j),
        decreases s.len() - i,
    {
        if s[i] == '.' && s[i + 1] == '.' && (i == 0 || s[i - 1] == '/') && (i + 2 == s.len()
            || s[i + 2] == '/') {
            assert(parent_component_at(s@, i as int));
            return false;
        }
        i = i + 1;
    }
    assert forall|j: int| !parent_component_at(s@, j) by {
        if 0 <= j && j < i {
        }
    }
    true
}

// ---------------------------------------------------------------------------------------------
// Fuzzy matching and quoting

/// Every character of `needle` appears in `haystack` in order (taking the earliest match each time).
pub open spec fn is_subsequence_spec(needle: Seq<char>, haystack: Seq<char>) -> bool
    decreases haystack.len(),
{
    if needle.len() == 0 {
        true
    } else if haystack.len() == 0 {
        false
    } else if needle[0] == haystack[0] {
        is_subsequence_spec(needle.drop_first(), haystack.drop_first())
    } else {
        is_subsequence_spec(needle, haystack.drop_first())
    }
}

pub fn subsequence_chars(needle: &[char], haystack: &[char]) -> (r: bool)
    ensures
        r == is_subsequence_spec(needle@, haystack@),
{
    let mut k: usize = 0;
    let mut i: usize = 0;
    assert(needle@.skip(0) =~= needle@);
    assert(haystack@.skip(0) =~= haystack@);
    while i < haystack.len()
        invariant
            i <= haystack.len(),
            k <= needle.len(),
            is_subsequence_spec(needle@, haystack@) == is_subsequence_spec(
                needle@.skip(k as int),
                haystack@.skip(i as int),
            ),
        decreases haystack.len() - i,
    {
        if k < needle.len() && needle[k] == haystack[i] {
            assert(needle@.skip(k as int).drop_first() =~= needle@.skip(k + 1));
            assert(haystack@.skip(i as int).drop_first() =~= haystack@.skip(i + 1));
            k = k + 1;
        } else {
            if k < needle.len() {
                assert(haystack@.skip(i as int).drop_first() =~= haystack@.skip(i + 1));
            } else {
                assert(needle@.skip(k as int).len() == 0);
                assert(is_subsequence_spec(needle@.skip(k as int), haystack@.skip(i as int)));
                assert(is_subsequence_spec(needle@.skip(k as int), haystack@.skip(i + 1)));
            }
        }
        i = i + 1;
    }
    assert(haystack@.skip(i as int).len() == 0);
    k == needle.len()
}

/// True when every character of `needle` appears in `haystack` in order, not necessarily adjacent.
pub fn is_subsequence(needle: &str, haystack: &str) -> (r: bool)
    ensures
        r == is_subsequence_spec(needle@, haystack@),
{
    let n = chars_of(needle);
    let h = chars_of(haystack);
    subsequence_chars(&n, &h)
}

/// One character as it appears inside a single-quoted POSIX shell word.
pub open spec fn single_quoted_char(c: char) -> Seq<char> {
    if c == '\'' {
        seq!['\'', '\\', '\'', '\'']
    } else {
        seq![c]
    }
}

/// The characters of `value` as they appear between single quotes.
pub open spec fn single_quoted_body(value: Seq<char>) -> Seq<char>
    decreases value.len(),
{
    if value.len() == 0 {
        Seq::empty()
    } else {
        single_quoted_body(value.drop_last()) + single_quoted_char(value.last())
    }
}

/// `value` as a single-quoted POSIX shell word.
pub open spec fn shell_quote_spec(value: Seq<char>) -> Seq<char> {
    seq!['\''] + single_quoted_body(value) + seq!['\'']
}

/// Quotes a path for a POSIX shell: single quotes, with each `'` written as `'\''`.
pub fn shell_quote(value: &str) -> (quoted: String)
    ensures
        quoted@ == shell_quote_spec(value@),
{
    let s = chars_of(value);
    let mut out: Vec<char> = vec!['\''];
    let mut i: usize = 0;
    while i < s.len()
        invariant
            i <= s.len(),
            out@ == seq!['\''] + single_quoted_body(s@.take(i as int)),
        decreases s.len() - i,
    {
        proof {
            assert(s@.take(i + 1).drop_last() =~= s@.take(i as int));
        }
        let ghost before = out@;
        if s[i] == '\'' {
            out.push('\'');
            out.push('\\');
            out.push('\'');
            out.push('\'');
        } else {
            out.push(s[i]);
        }
        assert(out@ =~= before + single_quoted_char(s@[i as int]));
        i = i + 1;
        assert(out@ =~= seq!['\''] + single_quoted_body(s@.take(i as int)));
    }
    out.push('\'');
    assert(s@.take(s@.len() as int) =~= s@);
    string_from_chars(&out)
}

// ---------------------------------------------------------------------------------------------
// Path lists

/// `s` with every leading `./` removed.
pub open spec fn strip_dot_slash(s: Seq<char>) -> Seq<char>
    decreases s.len(),
{
    if starts_with(s, seq!['.', '/']) {
        strip_dot_slash(s.skip(2))
    } else {
        s
    }
}

/// A configured path in canonical form: no leading `./`, no trailing `/`.
pub open spec fn normalize_path_entry(s: Seq<char>) -> Seq<char> {
    trim_end_by(strip_dot_slash(s), |c: char| c == '/')
}

/// The non-empty canonical forms of `values`.
pub open spec fn normalized_entries(values: Seq<String>) -> Set<Seq<char>> {
    Set::new(
        |x: Seq<char>|
            x.len() > 0 && exists|i: int|
                0 <= i < values.len() && normalize_path_entry(#[trigger] values[i]@) == x,
    )
}

pub fn normalize_entry(value: &str) -> (r: String)
    ensures
        r@ == normalize_path_entry(value@),
{
    let s = chars_of(value);
    let mut start: usize = 0;
    let prefix = vec!['.', '/'];
    assert(prefix@ =~= seq!['.', '/']);
    assert(s@.skip(0) =~= s@);
    while start < s.len() && s.len() - start >= 2 && s[start] == '.' && s[start + 1] == '/'
        invariant
            start <= s.len(),
            strip_dot_slash(s@) == strip_dot_slash(s@.skip(start as int)),
        decreases s.len() - start,
    {
        assert(starts_with(s@.skip(start as int), seq!['.', '/'])) by {
            assert(s@.skip(start as int).take(2) =~= seq!['.', '/']);
        }
        assert(s@.skip(start as int).skip(2) =~= s@.skip(start + 2));
        start = start + 2;
    }
    assert(!starts_with(s@.skip(start as int), seq!['.', '/'])) by {
        if starts_with(s@.skip(start as int), seq!['.', '/']) {
            assert(s@.skip(start as int).take(2)[0] == '.');
            assert(s@.skip(start as int).take(2)[1] == '/');
        }
    }
    let mut end: usize = s.len();
    while end > start && s[end - 1] == '/'
        invariant
            start <= end <= s.len(),
            forall|j: int| end <= j < s.len() ==> #[trigger] s@[j] == '/',
        decreases end,
    {
        end = end - 1;
    }
    let r = slice_chars(&s, start, end);
    proof {
        let stripped = s@.skip(start as int);
        let pred = |c: char| c == '/';
        lemma_trim_end_take(stripped, pred, (end - start) as int);
        assert(stripped.take((end - start) as int) =~= r@);
        if r@.len() > 0 {
            assert(r@.last() == s@[end - 1]);
        }
        assert(trim_end_by(r@, pred) == r@);
    }
    string_from_chars(&r)
}

/// Configured paths in canonical form, without empties, sorted and without repeats.
pub fn unique_paths(values: Vec<String>) -> (paths: Vec<String>)
    ensures
        strictly_sorted(views(paths@)),
        views(paths@).to_set() == normalized_entries(values@),
{
    let mut kept: Vec<String> = Vec::new();
    let mut i: usize = 0;
    while i < values.len()
        invariant
            i <= values.len(),
            forall|j: int| 0 <= j < kept@.len() ==> (#[trigger] kept@[j])@.len() > 0,
            forall|x: Seq<char>|
                views(kept@).contains(x) <==> (x.len() > 0 && exists|j: int|
                    0 <= j < i && normalize_path_entry(#[trigger] values@[j]@) == x),
        decreases values.len() - i,
    {
        let normalized = normalize_entry(values[i].as_str());
        let ghost before = views(kept@);
        if !normalized.as_str().is_empty() {
            kept.push(normalized);
        }
        proof {
            assert forall|x: Seq<char>|
                views(kept@).contains(x) <==> (x.len() > 0 && exists|j: int|
                    0 <= j < i + 1 && normalize_path_entry(#[trigger] values@[j]@) == x) by {
                if views(kept@).contains(x) {
                    let k = choose|k: int| 0 <= k < views(kept@).len() && views(kept@)[k] == x;
                    if k < before.len() {
                        assert(before[k] == x);
                        assert(before.contains(x));
                    } else {
                        assert(x == normalized@);
                        assert(normalize_path_entry(values@[i as int]@) == x);
                    }
                }
                if x.len() > 0 && exists|j: int|
                    0 <= j < i + 1 && normalize_path_entry(#[trigger] values@[j]@) == x {
                    let j = choose|j: int|
                        0 <= j < i + 1 && normalize_path_entry(#[trigger] values@[j]@) == x;
                    if j < i {
                        assert(before.contains(x));
                        let k = choose|k: int| 0 <= k < before.len() && before[k] == x;
                        assert(views(kept@)[k] == x);
                    } else {
                        assert(views(kept@)[views(kept@).len() - 1] == x);
                    }
                }
            }
        }
        i = i + 1;
    }
    let paths = sort_unique_strings(&kept);
    assert(views(paths@).to_set() =~= normalized_entries(values@));
    paths
}

} // verus!
