//! The languages of the form, and the choice among them.

use vstd::prelude::*;
use vstd::string::*;

use crate::text::same_text;

verus! {

/// A language that the form is offered in.
#[derive(Debug, Clone, Copy, PartialEq, Eq, Structural)]
pub enum Language {
    English,
    German,
}

impl Language {
    /// The tag of the language, as it stands in a path.
    pub fn tag(&self) -> (tag: &'static str)
        ensures
            tag@ == match *self {
                Language::English => "en"@,
                Language::German => "de"@,
            },
    {
        match self {
            Language::English => "en",
            Language::German => "de",
        }
    }
}

/// The language that `lang` is the tag of.
pub open spec fn language_of(lang: Seq<char>) -> Result<Language, ()> {
    if lang == "de"@ {
        Ok(Language::German)
    } else if lang == "en"@ {
        Ok(Language::English)
    } else {
        Err(())
    }
}

/// Finds the language with the tag `lang`; there is none for any text but
/// `de` and `en`.
pub fn lookup_lang(lang: &str) -> (found: Result<Language, ()>)
    ensures
        found == language_of(lang@),
{
    if same_text(lang, "de") {
        Ok(Language::German)
    } else if same_text(lang, "en") {
        Ok(Language::English)
    } else {
        Err(())
    }
}

/// Whether `de` stands in `header` before its first comma, that is, in the
/// first of the language ranges that the header lists.
pub open spec fn prefers_german(header: Seq<char>) -> bool {
    exists|i: int| german_at(header, i)
}

/// Whether `de` stands at `i` in `header`.
pub open spec fn de_at(header: Seq<char>, i: int) -> bool {
    0 <= i && i + 1 < header.len() && header[i] == 'd' && header[i + 1] == 'e'
}

/// Whether `de` stands at `i` in `header`, with no comma before it.
pub open spec fn german_at(header: Seq<char>, i: int) -> bool {
    de_at(header, i) && forall|j: int| 0 <= j < i ==> header[j] != ','
}

/// Why a request could not be read.
#[derive(Debug)]
pub enum ApiError {
    Missing,
    Invalid,
}

/// What a request says of its sender.
#[derive(Debug)]
pub struct UserAgent {
    pub language: String,
}

impl UserAgent {
    /// Reads the language from the value of an `Accept-Language` header:
    /// German where `de` stands in the first range, English otherwise and
    /// where there is no header. Quality weights are not read.
    pub fn from_header(header: Option<&str>) -> (agent: UserAgent)
        ensures
            agent.language@ == (if header is Some && prefers_german(header->0@) {
                "de"@
            } else {
                "en"@
            }),
    {
        let german = match header {
            Some(value) => first_range_has_german(value),
            None => false,
        };
        if german {
            UserAgent { language: String::from_str("de") }
        } else {
            UserAgent { language: String::from_str("en") }
        }
    }
}

fn first_range_has_german(header: &str) -> (found: bool)
    ensures
        found == prefers_german(header@),
{
    let len = header.unicode_len();
    let mut after_d = false;
    let mut i: usize = 0;
    while i < len
        invariant
            len == header@.len(),
            i <= len,
            forall|j: int| 0 <= j < i ==> header@[j] != ',',
            forall|j: int| j + 1 < i ==> !de_at(header@, j),
            after_d == (i > 0 && header@[i - 1] == 'd'),
        decreases len - i,
    {
        let c = header.get_char(i);
        if c == ',' {
            assert forall|k: int| !german_at(header@, k) by {
                if german_at(header@, k) {
                    assert(k > i ==> header@[i as int] == ',');
                }
            }
            return false;
        }
        if after_d && c == 'e' {
            assert(german_at(header@, i - 1));
            return true;
        }
        after_d = c == 'd';
        i += 1;
    }
    assert forall|k: int| !german_at(header@, k) by {}
    false
}

} // verus!
