//! Validated idempotency keys.

use vstd::prelude::*;
use vstd::string::*;

verus! {

/// The largest number of characters an idempotency key may hold.
pub const MAX_KEY_LENGTH: usize = 50;

/// Whether `text` is acceptable as an idempotency key: not empty and at most
/// [`MAX_KEY_LENGTH`] characters long.
pub open spec fn is_valid_key(text: Seq<char>) -> bool {
    0 < text.len() <= MAX_KEY_LENGTH
}

/// Why a string was refused as an idempotency key.
#[derive(Debug, Clone, Copy, PartialEq, Eq)]
pub enum KeyError {
    /// The string was empty.
    Empty,
    /// The string held more than [`MAX_KEY_LENGTH`] characters.
    TooLong,
}

/// What parsing `text` as an idempotency key yields: the text itself when it
/// is valid, and otherwise the reason it is refused.
pub open spec fn parsed_key(text: Seq<char>) -> Result<Seq<char>, KeyError> {
    if text.len() == 0 {
        Err(KeyError::Empty)
    } else if text.len() > MAX_KEY_LENGTH {
        Err(KeyError::TooLong)
    } else {
        Ok(text)
    }
}

impl KeyError {
    /// The text shown to the caller for this error.
    pub open spec fn message_text(self) -> Seq<char> {
        match self {
            KeyError::Empty => "The idempotency key cannot be empty"@,
            KeyError::TooLong => "The idempotency key cannot be longer than 50 characters"@,
        }
    }

    /// Renders the error for the caller.
    pub fn message(&self) -> (text: String)
        ensures
            text@ == self.message_text(),
    {
        match self {
            KeyError::Empty => String::from_str("The idempotency key cannot be empty"),
            KeyError::TooLong => String::from_str(
                "The idempotency key cannot be longer than 50 characters",
            ),
        }
    }
}

/// A caller-supplied token that identifies one logical command across
/// retries. It is never empty and never longer than [`MAX_KEY_LENGTH`]
/// characters, and it cannot be changed once made.
#[derive(Debug)]
pub struct IdempotencyKey(String);

impl View for IdempotencyKey {
    type V = Seq<char>;

    closed spec fn view(&self) -> Seq<char> {
        self.0@
    }
}

impl Clone for IdempotencyKey {
    fn clone(&self) -> (copy: Self)
        ensures
            copy@ == self@,
    {
        proof {
            use_type_invariant(self);
        }
        IdempotencyKey(self.0.clone())
    }
}

impl IdempotencyKey {
    #[verifier::type_invariant]
    spec fn valid(self) -> bool {
        is_valid_key(self.0@)
    }

    /// Validates `text` and wraps it. Fails exactly when the text is empty or
    /// longer than [`MAX_KEY_LENGTH`] characters.
    pub fn parse(text: String) -> (parsed: Result<IdempotencyKey, KeyError>)
        ensures
            match parsed {
                Ok(key) => parsed_key(text@) == Ok::<Seq<char>, KeyError>(key@),
                Err(error) => parsed_key(text@) == Err::<Seq<char>, KeyError>(error),
            },
    {
        let length: usize = text.as_str().unicode_len();
        if length == 0 {
            Err(KeyError::Empty)
        } else if length > MAX_KEY_LENGTH {
            Err(KeyError::TooLong)
        } else {
            Ok(IdempotencyKey(text))
        }
    }

    /// The key's text, as the owned string it is kept in.
    pub fn as_string(&self) -> (text: &String)
        ensures
            text@ == self@,
            is_valid_key(text@),
    {
        proof {
            use_type_invariant(self);
        }
        &self.0
    }

    /// The key's text.
    pub fn as_str(&self) -> (text: &str)
        ensures
            text@ == self@,
            is_valid_key(text@),
    {
        proof {
            use_type_invariant(self);
        }
        self.0.as_str()
    }
}

/// The key that wraps `text`. Only meaningful where `text` is valid.
pub closed spec fn key_holding(text: String) -> IdempotencyKey {
    IdempotencyKey(text)
}

impl TryFrom<String> for IdempotencyKey {
    type Error = KeyError;

    fn try_from(text: String) -> (parsed: Result<Self, Self::Error>) {
        let length: usize = text.as_str().unicode_len();
        if length == 0 {
            Err(KeyError::Empty)
        } else if length > MAX_KEY_LENGTH {
            Err(KeyError::TooLong)
        } else {
            Ok(IdempotencyKey(text))
        }
    }
}

impl vstd::std_specs::convert::TryFromSpecImpl<String> for IdempotencyKey {
    open spec fn obeys_try_from_spec() -> bool {
        true
    }

    open spec fn try_from_spec(text: String) -> Result<Self, Self::Error> {
        match parsed_key(text@) {
            Ok(_) => Ok(key_holding(text)),
            Err(error) => Err(error),
        }
    }
}

/// The key that wraps a valid text has that text as its view.
pub proof fn lemma_key_holding(text: String)
    ensures
        key_holding(text)@ == text@,
{
}

} // verus!
