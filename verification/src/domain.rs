//! What a new subscriber must provide: a name and an email address, each
//! checked when it arrives.

use crate::text::to_chars;
use vstd::prelude::*;
use vstd::string::*;

verus! {

/// The largest number of characters a subscriber's name may hold.
pub const MAX_NAME_LENGTH: usize = 256;

/// Whether `c` is a blank: a space, a tab, a line feed or a carriage return.
pub open spec fn is_blank(c: char) -> bool {
    c == ' ' || c == '\t' || c == '\n' || c == '\r'
}

/// Whether `c` may not stand in a name: one of `/ ( ) " < > \ { }`.
pub open spec fn is_forbidden_in_name(c: char) -> bool {
    c == '/' || c == '(' || c == ')' || c == '"' || c == '<' || c == '>' || c == '\\' || c == '{'
        || c == '}'
}

/// Whether `text` is acceptable as a name: it holds something other than
/// blanks, is at most [`MAX_NAME_LENGTH`] characters long, and holds none of
/// the forbidden characters.
pub open spec fn is_valid_name(text: Seq<char>) -> bool {
    &&& exists|i: int| 0 <= i < text.len() && !is_blank(#[trigger] text[i])
    &&& text.len() <= MAX_NAME_LENGTH
    &&& forall|i: int| 0 <= i < text.len() ==> !is_forbidden_in_name(#[trigger] text[i])
}

/// Whether `text` is acceptable as an email address: it holds no blank and
/// exactly one `@`, with something before it and something after it.
pub open spec fn is_valid_email(text: Seq<char>) -> bool {
    &&& forall|i: int| 0 <= i < text.len() ==> !is_blank(#[trigger] text[i])
    &&& exists|at: int| is_the_only_at(text, at)
}

/// Whether the one `@` of `text` stands at `at`, neither first nor last.
pub open spec fn is_the_only_at(text: Seq<char>, at: int) -> bool {
    &&& 0 < at < text.len() - 1
    &&& text[at] == '@'
    &&& forall|i: int| 0 <= i < text.len() && i != at ==> #[trigger] text[i] != '@'
}

/// The message for a refused name.
pub open spec fn invalid_name_message(text: Seq<char>) -> Seq<char> {
    text + " is not a valid subscriber name."@
}

/// The message for a refused email address.
pub open spec fn invalid_email_message(text: Seq<char>) -> Seq<char> {
    text + " is not a valid subscriber email."@
}

/// Whether `c` is a blank.
fn blank(c: char) -> (b: bool)
    ensures
        b == is_blank(c),
{
    c == ' ' || c == '\t' || c == '\n' || c == '\r'
}

/// Whether `c` may not stand in a name.
fn forbidden_in_name(c: char) -> (b: bool)
    ensures
        b == is_forbidden_in_name(c),
{
    c == '/' || c == '(' || c == ')' || c == '"' || c == '<' || c == '>' || c == '\\' || c == '{'
        || c == '}'
}

/// Whether `text` is acceptable as a name.
pub fn valid_name(text: &str) -> (valid: bool)
    ensures
        valid == is_valid_name(text@),
{
    let chars = to_chars(text);
    if chars.len() > MAX_NAME_LENGTH {
        return false;
    }
    let mut seen_other: bool = false;
    let mut i: usize = 0;
    while i < chars.len()
        invariant
            i <= chars@.len(),
            chars@ == text@,
            seen_other == exists|j: int| 0 <= j < i && !is_blank(#[trigger] chars@[j]),
            forall|j: int| 0 <= j < i ==> !is_forbidden_in_name(#[trigger] chars@[j]),
        decreases chars@.len() - i,
    {
        if forbidden_in_name(chars[i]) {
            return false;
        }
        if !blank(chars[i]) {
            seen_other = true;
        }
        i += 1;
    }
    seen_other
}

/// Whether `text` is acceptable as an email address.
pub fn valid_email(text: &str) -> (valid: bool)
    ensures
        valid == is_valid_email(text@),
{
    let chars = to_chars(text);
    let mut at: Option<usize> = None;
    let mut i: usize = 0;
    while i < chars.len()
        invariant
            i <= chars@.len(),
            chars@ == text@,
            forall|j: int| 0 <= j < i ==> !is_blank(#[trigger] chars@[j]),
            match at {
                Some(k) => k < i && chars@[k as int] == '@' && forall|j: int|
                    0 <= j < i && j != k ==> #[trigger] chars@[j] != '@',
                None => forall|j: int| 0 <= j < i ==> #[trigger] chars@[j] != '@',
            },
        decreases chars@.len() - i,
    {
        if blank(chars[i]) {
            return false;
        }
        if chars[i] == '@' {
            match at {
                Some(k) => {
                    proof {
                        assert forall|p: int| !is_the_only_at(text@, p) by {
                            if is_the_only_at(text@, p) {
                                if p == k as int {
                                    assert(text@[i as int] != '@');
                                } else {
                                    assert(text@[k as int] != '@');
                                }
                            }
                        }
                    }
                    return false;
                },
                None => {
                    at = Some(i);
                },
            }
        }
        i += 1;
    }
    match at {
        Some(k) => {
            if 0 < k && k < chars.len() - 1 {
                proof {
                    assert(is_the_only_at(text@, k as int));
                }
                true
            } else {
                proof {
                    assert forall|p: int| !is_the_only_at(text@, p) by {
                        if is_the_only_at(text@, p) {
                            if p != k as int {
                                assert(text@[k as int] != '@');
                            }
                        }
                    }
                }
                false
            }
        },
        None => {
            proof {
                assert forall|p: int| !is_the_only_at(text@, p) by {
                    if is_the_only_at(text@, p) {
                        assert(text@[p] != '@');
                    }
                }
            }
            false
        },
    }
}

/// A subscriber's name, checked.
#[derive(Debug)]
pub struct SubscriberName(String);

impl View for SubscriberName {
    type V = Seq<char>;

    closed spec fn view(&self) -> Seq<char> {
        self.0@
    }
}

impl SubscriberName {
    #[verifier::type_invariant]
    spec fn valid(self) -> bool {
        is_valid_name(self.0@)
    }

    /// Accepts `text` as a name exactly when it is valid; otherwise the
    /// error says which text was refused.
    pub fn parse(text: String) -> (parsed: Result<SubscriberName, String>)
        ensures
            match parsed {
                Ok(name) => is_valid_name(text@) && name@ == text@,
                Err(message) => !is_valid_name(text@) && message@ == invalid_name_message(text@),
            },
    {
        if valid_name(text.as_str()) {
            Ok(SubscriberName(text))
        } else {
            Err(text.concat(" is not a valid subscriber name."))
        }
    }

    /// The name's text.
    pub fn as_str(&self) -> (text: &str)
        ensures
            text@ == self@,
            is_valid_name(text@),
    {
        proof {
            use_type_invariant(self);
        }
        self.0.as_str()
    }
}

/// A subscriber's email address, checked.
#[derive(Debug)]
pub struct SubscriberEmail(String);

impl View for SubscriberEmail {
    type V = Seq<char>;

    closed spec fn view(&self) -> Seq<char> {
        self.0@
    }
}

impl SubscriberEmail {
    #[verifier::type_invariant]
    spec fn valid(self) -> bool {
        is_valid_email(self.0@)
    }

    /// Accepts `text` as an address exactly when it is valid; otherwise the
    /// error says which text was refused.
    pub fn parse(text: String) -> (parsed: Result<SubscriberEmail, String>)
        ensures
            match parsed {
                Ok(email) => is_valid_email(text@) && email@ == text@,
                Err(message) => !is_valid_email(text@) && message@ == invalid_email_message(
                    text@,
                ),
            },
    {
        if valid_email(text.as_str()) {
            Ok(SubscriberEmail(text))
        } else {
            Err(text.concat(" is not a valid subscriber email."))
        }
    }

    /// The address's text.
    pub fn as_str(&self) -> (text: &str)
        ensures
            text@ == self@,
            is_valid_email(text@),
    {
        proof {
            use_type_invariant(self);
        }
        self.0.as_str()
    }
}

/// Someone who has asked to subscribe: a checked address and a checked
/// name.
#[derive(Debug)]
pub struct NewSubscriber {
    pub email: SubscriberEmail,
    pub name: SubscriberName,
}

} // verus!
