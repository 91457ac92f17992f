//! Validated domain types: a subscriber's email address and display
//! name.  Raw strings enter through `parse` and only validated values
//! live inside the types.

use vstd::prelude::*;

verus! {

use vstd::string::StrSliceExecFns;

/// What the email validator answered for a string; the verdict is a
/// function of the string alone.
pub uninterp spec fn email_ok(s: Seq<char>) -> bool;

/// Relies on validator's `ValidateEmail` impl for `String` (the HTML5
/// e-mail address check): deterministic in the string.
#[verifier::external_body]
fn validate_email_string(s: &String) -> (r: bool)
    ensures
        r == email_ok(s@),
{
    validator::ValidateEmail::validate_email(s)
}

/// An email address that passed validation.
#[derive(Debug)]
pub struct SubscriberEmail(String);

impl SubscriberEmail {
    /// Accepts exactly the strings the email validator accepts.
    pub fn parse(s: String) -> (r: Result<SubscriberEmail, String>)
        ensures
            r is Ok <==> email_ok(s@),
            r matches Ok(e) ==> e@ == s@,
            r matches Err(e) ==> e@ == "invalid email provided"@,
    {
        if validate_email_string(&s) {
            Ok(SubscriberEmail(s))
        } else {
            Err("invalid email provided".to_owned())
        }
    }

    pub fn as_ref(&self) -> (r: &str)
        ensures
            r@ == self@,
    {
        self.0.as_str()
    }
}

impl View for SubscriberEmail {
    type V = Seq<char>;

    closed spec fn view(&self) -> Seq<char> {
        self.0@
    }
}

/// How many extended grapheme clusters a string consists of; a
/// function of the string alone.
pub uninterp spec fn grapheme_count(s: Seq<char>) -> nat;

/// Relies on unicode-segmentation's `graphemes` (extended grapheme
/// clusters) to count the clusters of a string.
#[verifier::external_body]
fn count_graphemes(s: &str) -> (n: usize)
    ensures
        n == grapheme_count(s@),
{
    unicode_segmentation::UnicodeSegmentation::graphemes(s, true).count()
}

/// Whether std's `char::is_whitespace` holds of a character.
pub uninterp spec fn whitespace_char(c: char) -> bool;

pub assume_specification[ char::is_whitespace ](c: char) -> (r: bool)
    ensures
        r == whitespace_char(c),
;

/// A string that is empty or consists of whitespace only; exactly the
/// strings whose trimmed form is empty.
pub open spec fn all_whitespace(s: Seq<char>) -> bool {
    forall|i: int| 0 <= i < s.len() ==> whitespace_char(#[trigger] s[i])
}

/// The characters a subscriber name may not contain.
pub open spec fn forbidden_char(c: char) -> bool {
    ||| c == '/'
    ||| c == '\\'
    ||| c == '('
    ||| c == ')'
    ||| c == '_'
    ||| c == '<'
    ||| c == '"'
    ||| c == '>'
    ||| c == '['
    ||| c == ']'
    ||| c == '{'
}

pub open spec fn has_forbidden_char(s: Seq<char>) -> bool {
    exists|i: int| 0 <= i < s.len() && forbidden_char(#[trigger] s[i])
}

/// A subscriber name is valid when it is not blank, spans at most 256
/// grapheme clusters, and contains none of the forbidden characters.
pub open spec fn name_valid(s: Seq<char>) -> bool {
    !all_whitespace(s) && grapheme_count(s) <= 256 && !has_forbidden_char(s)
}

/// A subscriber's display name that passed validation.
#[derive(Debug)]
pub struct SubscriberName(String);

impl SubscriberName {
    /// Accepts exactly the valid names: non-blank, at most 256
    /// graphemes, no forbidden characters.
    pub fn parse(s: String) -> (r: Result<SubscriberName, String>)
        ensures
            r is Ok <==> name_valid(s@),
            r matches Ok(n) ==> n@ == s@,
            r matches Err(e) ==> e@ == "invalid subscriber name !"@,
    {
        let is_too_long = count_graphemes(s.as_str()) > 256;

        let len = s.as_str().unicode_len();
        let mut is_blank = true;
        let mut contains_bad_chars = false;
        let mut i: usize = 0;
        while i < len
            invariant
                i <= len,
                len == s@.len(),
                is_blank <==> forall|j: int| 0 <= j < i ==> whitespace_char(#[trigger] s@[j]),
                contains_bad_chars <==> exists|j: int|
                    0 <= j < i && forbidden_char(#[trigger] s@[j]),
            decreases len - i,
        {
            let c = s.as_str().get_char(i);
            if !c.is_whitespace() {
                is_blank = false;
            }
            if c == '/' || c == '\\' || c == '(' || c == ')' || c == '_' || c == '<' || c == '"'
                || c == '>' || c == '[' || c == ']' || c == '{' {
                contains_bad_chars = true;
            }
            i = i + 1;
        }

        if is_blank || is_too_long || contains_bad_chars {
            return Err("invalid subscriber name !".to_owned());
        }
        Ok(SubscriberName(s))
    }

    pub fn as_ref(&self) -> (r: &str)
        ensures
            r@ == self@,
    {
        self.0.as_str()
    }
}

impl View for SubscriberName {
    type V = Seq<char>;

    closed spec fn view(&self) -> Seq<char> {
        self.0@
    }
}

/// A fully validated new subscriber: a name and an email address.
pub struct NewSubscriber {
    pub email: SubscriberEmail,
    pub name: SubscriberName,
}

} // verus!
