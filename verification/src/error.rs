//! One error type with stable codes, exit classes and machine-readable details; the user
//! interface decides how it looks.

use vstd::prelude::*;

verus! {

pub const EXIT_SUCCESS: i32 = 0;
pub const EXIT_INTERNAL: i32 = 1;
pub const EXIT_USAGE: i32 = 2;
pub const EXIT_ENVIRONMENT: i32 = 3;
pub const EXIT_NOT_FOUND: i32 = 4;
pub const EXIT_CONFLICT: i32 = 5;
pub const EXIT_REFUSED: i32 = 6;
pub const EXIT_GIT: i32 = 7;
pub const EXIT_NETWORK: i32 = 8;
pub const EXIT_INTERRUPTED: i32 = 130;
/// A private handshake with the shell wrapper: change directory, then call back with the token.
pub const EXIT_RESUME: i32 = 194;

/// The value of one detail: a text, or a list of texts.
#[derive(Debug, Clone)]
pub enum DetailValue {
    Text(String),
    Texts(Vec<String>),
}

/// One named fact about an error, for machines and for the hints shown to people.
#[derive(Debug, Clone)]
pub struct ErrorDetail {
    pub key: &'static str,
    pub value: DetailValue,
}

#[derive(Debug)]
pub struct AcreError {
    pub code: &'static str,
    pub message: String,
    pub exit_code: i32,
    pub details: Vec<ErrorDetail>,
}

/// The text the first detail named `key` holds, when it holds a text.
pub open spec fn detail_text(details: Seq<ErrorDetail>, key: Seq<char>) -> Option<Seq<char>>
    decreases details.len(),
{
    if details.len() == 0 {
        None
    } else if details[0].key@ == key {
        match details[0].value {
            DetailValue::Text(t) => Some(t@),
            DetailValue::Texts(_) => None,
        }
    } else {
        detail_text(details.drop_first(), key)
    }
}

/// The texts the first detail named `key` holds, when it holds a list; none otherwise.
pub open spec fn detail_texts(details: Seq<ErrorDetail>, key: Seq<char>) -> Seq<Seq<char>>
    decreases details.len(),
{
    if details.len() == 0 {
        Seq::empty()
    } else if details[0].key@ == key {
        match details[0].value {
            DetailValue::Texts(ts) => ts@.map_values(|t: String| t@),
            DetailValue::Text(_) => Seq::empty(),
        }
    } else {
        detail_texts(details.drop_first(), key)
    }
}

impl AcreError {
    pub fn new(code: &'static str, message: &str, exit_code: i32) -> (e: AcreError)
        ensures
            e.code == code,
            e.message@ == message@,
            e.exit_code == exit_code,
            e.details@.len() == 0,
    {
        AcreError { code, message: message.to_owned(), exit_code, details: Vec::new() }
    }

    /// The same error with one more detail, `key` set to the text `value`.
    pub fn with_text(self, key: &'static str, value: &str) -> (e: AcreError)
        ensures
            e.code == self.code,
            e.message == self.message,
            e.exit_code == self.exit_code,
            e.details@.len() == self.details@.len() + 1,
            e.details@.take(self.details@.len() as int) == self.details@,
            e.details@.last().key == key,
            e.details@.last().value matches DetailValue::Text(t) && t@ == value@,
    {
        let mut details = self.details;
        details.push(ErrorDetail { key, value: DetailValue::Text(value.to_owned()) });
        AcreError { code: self.code, message: self.message, exit_code: self.exit_code, details }
    }

    /// The same error with one more detail, `key` set to the list `values`.
    pub fn with_texts(self, key: &'static str, values: Vec<String>) -> (e: AcreError)
        ensures
            e.code == self.code,
            e.message == self.message,
            e.exit_code == self.exit_code,
            e.details@.len() == self.details@.len() + 1,
            e.details@.take(self.details@.len() as int) == self.details@,
            e.details@.last().key == key,
            e.details@.last().value matches DetailValue::Texts(ts) && ts@ == values@,
    {
        let mut details = self.details;
        details.push(ErrorDetail { key, value: DetailValue::Texts(values) });
        AcreError { code: self.code, message: self.message, exit_code: self.exit_code, details }
    }
}

/// The text of the first detail named `key`, when it is a text.
pub fn find_detail_text<'a>(details: &'a Vec<ErrorDetail>, key: &str) -> (r: Option<&'a String>)
    ensures
        match r {
            Some(t) => detail_text(details@, key@) == Some(t@),
            None => detail_text(details@, key@) is None,
        },
{
    let mut i: usize = 0;
    assert(details@.skip(0) =~= details@);
    while i < details.len()
        invariant
            i <= details@.len(),
            detail_text(details@, key@) == detail_text(details@.skip(i as int), key@),
        decreases details.len() - i,
    {
        assert(details@.skip(i as int).drop_first() =~= details@.skip(i + 1));
        let d = &details[i];
        if crate::text::str_equal(d.key, key) {
            return match &d.value {
                DetailValue::Text(t) => Some(t),
                DetailValue::Texts(_) => None,
            };
        }
        i = i + 1;
    }
    None
}

/// The texts of the first detail named `key`, when it is a list; none otherwise.
pub fn find_detail_texts(details: &Vec<ErrorDetail>, key: &str) -> (r: Vec<String>)
    ensures
        r@.map_values(|t: String| t@) == detail_texts(details@, key@),
{
    let mut i: usize = 0;
    assert(details@.skip(0) =~= details@);
    while i < details.len()
        invariant
            i <= details@.len(),
            detail_texts(details@, key@) == detail_texts(details@.skip(i as int), key@),
        decreases details.len() - i,
    {
        assert(details@.skip(i as int).drop_first() =~= details@.skip(i + 1));
        let d = &details[i];
        if crate::text::str_equal(d.key, key) {
            return match &d.value {
                DetailValue::Texts(ts) => crate::text::clone_strings(ts),
                DetailValue::Text(_) => Vec::new(),
            };
        }
        i = i + 1;
    }
    Vec::new()
}


/// Some detail is named `key`.
pub open spec fn has_key(details: Seq<ErrorDetail>, key: Seq<char>) -> bool {
    exists|i: int| 0 <= i < details.len() && (#[trigger] details[i]).key@ == key
}

/// Adding a detail at the end changes no text found before, and makes a new key's text the
/// added one.
pub proof fn lemma_detail_added(before: Seq<ErrorDetail>, after: Seq<ErrorDetail>, key: Seq<char>)
    requires
        after.len() == before.len() + 1,
        after.take(before.len() as int) == before,
    ensures
        has_key(before, key) ==> detail_text(after, key) == detail_text(before, key),
        !has_key(before, key) ==> detail_text(after, key) == (if after.last().key@ == key {
            match after.last().value {
                DetailValue::Text(t) => Some(t@),
                DetailValue::Texts(_) => None,
            }
        } else {
            None
        }),
    decreases before.len(),
{
    if before.len() == 0 {
        assert(after.drop_first().len() == 0);
    } else {
        assert(after[0] == before[0]);
        assert(after.drop_first().take(before.drop_first().len() as int) =~= before.drop_first());
        lemma_detail_added(before.drop_first(), after.drop_first(), key);
        if before[0].key@ != key {
            if has_key(before, key) {
                let i = choose|i: int| 0 <= i < before.len() && (#[trigger] before[i]).key@ == key;
                assert(before.drop_first()[i - 1].key@ == key);
            }
            if has_key(before.drop_first(), key) {
                let i = choose|i: int| 0 <= i < before.drop_first().len() && (#[trigger] before.drop_first()[i]).key@ == key;
                assert(before[i + 1].key@ == key);
            }
        } else {
            assert(before[0].key@ == key);
        }
    }
}

} // verus!
