//! What the answers to interactive questions mean.
use vstd::prelude::*;

verus! {

/// The lower-case form of a text, as `str::to_lowercase` gives it.
pub uninterp spec fn lower_of(s: Seq<char>) -> Seq<char>;

/// Relies on `str::to_lowercase`: the result depends on the characters
/// alone.
#[verifier::external_body]
fn lowercase(s: &str) -> (r: String)
    ensures
        r@ == lower_of(s@),
{
    s.to_lowercase()
}

/// A text without its leading and trailing whitespace, as `str::trim`
/// gives it.
pub uninterp spec fn trimmed_of(s: Seq<char>) -> Seq<char>;

/// Relies on `str::trim`: the result depends on the characters alone.
#[verifier::external_body]
fn trim_text(s: &str) -> (r: String)
    ensures
        r@ == trimmed_of(s@),
{
    s.trim().to_string()
}

/// The answer held by an already trimmed line: none where it is empty.
pub fn answer_from_trimmed(t: String) -> (r: Option<String>)
    ensures
        t@.len() == 0 ==> r is None,
        t@.len() > 0 ==> (r matches Some(a) && a@ == t@),
{
    if t.as_str().unicode_len() == 0 {
        None
    } else {
        Some(t)
    }
}

/// The answer typed on an input line: the line without surrounding
/// whitespace, none where nothing remains (an empty line).
pub fn answer_of(line: &str) -> (r: Option<String>)
    ensures
        trimmed_of(line@).len() == 0 ==> r is None,
        trimmed_of(line@).len() > 0 ==> (r matches Some(a) && a@ == trimmed_of(line@)),
{
    answer_from_trimmed(trim_text(line))
}

/// The value of a question with a default: the answer given, or the default
/// where none was (an empty line).
pub fn promt_default(answer: Option<String>, default: &str) -> (r: String)
    ensures
        match answer {
            Some(a) => r@ == a@,
            None => r@ == default@,
        },
{
    match answer {
        Some(a) => a,
        None => default.to_string(),
    }
}

/// The meaning of an already lower-cased yes/no answer: `y` is yes, `n` is
/// no, no answer is yes; anything else asks again (none).
pub fn binary_answer(lowered: Option<&str>) -> (r: Option<bool>)
    ensures
        match lowered {
            None => r == Some(true),
            Some(a) => r == if a@ == "y"@ {
                Some(true)
            } else if a@ == "n"@ {
                Some(false)
            } else {
                None::<bool>
            },
        },
{
    proof {
        reveal_strlit("y");
        reveal_strlit("n");
    }
    match lowered {
        None => Some(true),
        Some(a) => {
            if crate::text::same_text(a, "y") {
                Some(true)
            } else if crate::text::same_text(a, "n") {
                Some(false)
            } else {
                None
            }
        }
    }
}

/// The meaning of a yes/no answer, in either case.
pub fn binary_prompt(answer: Option<String>) -> (r: Option<bool>)
    ensures
        match answer {
            None => r == Some(true),
            Some(a) => r == if lower_of(a@) == "y"@ {
                Some(true)
            } else if lower_of(a@) == "n"@ {
                Some(false)
            } else {
                None::<bool>
            },
        },
{
    match answer {
        None => binary_answer(None),
        Some(a) => {
            let l = lowercase(a.as_str());
            binary_answer(Some(l.as_str()))
        }
    }
}

} // verus!
