//! A subscriber's display name: non-blank, bounded, and free of characters
//! that could break logging or query text.
use vstd::prelude::*;
use vstd::string::StrSliceExecFns;

use crate::domain::ValidationError;

verus! {

/// The most characters a display name may hold.
pub const MAX_NAME_LENGTH: usize = 256;

/// Whitespace for the purpose of deciding that a name is blank.
pub open spec fn is_space(c: char) -> bool {
    c == ' ' || c == '\t' || c == '\n' || c == '\r' || c == '\u{b}' || c == '\u{c}'
}

/// Characters a display name may not hold: a small set with a meaning in
/// query or markup text, and every control character.
pub open spec fn is_forbidden(c: char) -> bool {
    ||| c == '/'
    ||| c == '('
    ||| c == ')'
    ||| c == '"'
    ||| c == '<'
    ||| c == '>'
    ||| c == '\\'
    ||| c == '{'
    ||| c == '}'
    ||| (c as u32) < 32
    ||| (c as u32) == 127
}

/// What it takes for a raw string to be accepted as a display name: something
/// visible remains after trimming, the length cap is met, and no character is
/// forbidden.
pub open spec fn name_ok(s: Seq<char>) -> bool {
    &&& exists|i: int| 0 <= i < s.len() && !is_space(s[i])
    &&& s.len() <= MAX_NAME_LENGTH
    &&& forall|i: int| 0 <= i < s.len() ==> !is_forbidden(s[i])
}

/// A display name that passed [`SubscriberName::parse`]; the raw string is
/// stored verbatim and never changes afterwards.
#[derive(Debug)]
pub struct SubscriberName(String);

impl View for SubscriberName {
    type V = Seq<char>;

    closed spec fn view(&self) -> Seq<char> {
        self.0@
    }
}

/// Everything the outcome of [`SubscriberName::parse`] guarantees about the
/// raw input it was given.
pub open spec fn name_parse_post(raw: Seq<char>, r: Result<SubscriberName, ValidationError>) -> bool {
    &&& (r is Ok <==> name_ok(raw))
    &&& (r matches Ok(n) ==> n@ == raw)
    &&& (r matches Err(e) ==> e == ValidationError::InvalidName)
}

impl SubscriberName {
    /// The invariant every constructed value carries.
    pub open spec fn valid(&self) -> bool {
        name_ok(self@)
    }

    /// Accepts `s` as a display name exactly when it is non-blank, within the
    /// length cap, and free of forbidden characters; the accepted string is
    /// kept verbatim.
    pub fn parse(s: String) -> (r: Result<SubscriberName, ValidationError>)
        ensures
            name_parse_post(s@, r),
            r matches Ok(n) ==> n.valid(),
    {
        let st = s.as_str();
        let n = st.unicode_len();
        if n > MAX_NAME_LENGTH {
            return Err(ValidationError::InvalidName);
        }
        let mut has_visible = false;
        let mut i: usize = 0;
        while i < n
            invariant
                st@ == s@,
                n == s@.len(),
                i <= n,
                has_visible <==> exists|j: int| 0 <= j < i && !is_space(s@[j]),
                forall|j: int| 0 <= j < i ==> !is_forbidden(s@[j]),
            decreases n - i,
        {
            let c = st.get_char(i);
            if is_forbidden_char(c) {
                return Err(ValidationError::InvalidName);
            }
            if !is_space_char(c) {
                has_visible = true;
            }
            i += 1;
        }
        if has_visible {
            Ok(SubscriberName(s))
        } else {
            Err(ValidationError::InvalidName)
        }
    }

    /// The stored string, read-only.
    pub fn as_ref(&self) -> (r: &str)
        ensures
            r@ == self@,
    {
        self.0.as_str()
    }
}

/// Deciding a display name is a function of the raw input alone: two parses
/// of the same raw string yield the same outcome.
pub proof fn lemma_name_parse_idempotent(
    raw: Seq<char>,
    r1: Result<SubscriberName, ValidationError>,
    r2: Result<SubscriberName, ValidationError>,
)
    requires
        name_parse_post(raw, r1),
        name_parse_post(raw, r2),
    ensures
        r1 is Ok <==> r2 is Ok,
        r1 is Ok && r2 is Ok ==> r1->Ok_0@ == r2->Ok_0@,
        r1 is Err && r2 is Err ==> r1->Err_0 == r2->Err_0,
{
}

fn is_space_char(c: char) -> (r: bool)
    ensures
        r == is_space(c),
{
    c == ' ' || c == '\t' || c == '\n' || c == '\r' || c == '\u{b}' || c == '\u{c}'
}

fn is_forbidden_char(c: char) -> (r: bool)
    ensures
        r == is_forbidden(c),
{
    let u = c as u32;
    c == '/' || c == '(' || c == ')' || c == '"' || c == '<' || c == '>' || c == '\\' || c == '{'
        || c == '}' || u < 32 || u == 127
}

} // verus!
