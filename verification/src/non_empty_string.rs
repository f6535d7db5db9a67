//! Text that is known to hold more than white space.

use crate::text::{blank, is_blank};
use vstd::prelude::*;
use vstd::std_specs::convert::{FromSpecImpl, TryFromSpecImpl};

verus! {

/// A string with at least one character that is not white space.
#[derive(Debug, PartialEq, Eq)]
pub struct NonEmptyString(String);

impl NonEmptyString {
    #[verifier::type_invariant]
    spec fn holds_text(self) -> bool {
        !is_blank(self.0@)
    }

    /// The wrapped string.
    pub closed spec fn inner(self) -> String {
        self.0
    }

    /// The value that wraps `text`.
    pub closed spec fn wrap(text: String) -> NonEmptyString {
        NonEmptyString(text)
    }

    /// Wrapping keeps the text.
    pub broadcast proof fn lemma_wrap_keeps_text(text: String)
        ensures
            (#[trigger] NonEmptyString::wrap(text)).inner() == text,
    {
    }

    /// Borrows the text, which is never blank.
    pub fn as_str(&self) -> (res: &str)
        ensures
            res@ == self@,
            !is_blank(res@),
    {
        proof {
            use_type_invariant(self);
        }
        self.0.as_str()
    }

    /// A copy of the text.
    pub fn to_string(&self) -> (res: String)
        ensures
            res@ == self@,
            !is_blank(res@),
    {
        proof {
            use_type_invariant(self);
        }
        self.0.clone()
    }
}

impl View for NonEmptyString {
    type V = Seq<char>;

    open spec fn view(&self) -> Seq<char> {
        self.inner()@
    }
}

impl DeepView for NonEmptyString {
    type V = Seq<char>;

    open spec fn deep_view(&self) -> Seq<char> {
        self.inner()@
    }
}

impl Clone for NonEmptyString {
    fn clone(&self) -> (res: Self)
        ensures
            res@ == self@,
    {
        proof {
            use_type_invariant(self);
        }
        NonEmptyString(self.0.clone())
    }
}

impl From<NonEmptyString> for String {
    fn from(value: NonEmptyString) -> (res: String) {
        value.0
    }
}

impl FromSpecImpl<NonEmptyString> for String {
    open spec fn obeys_from_spec() -> bool {
        true
    }

    open spec fn from_spec(value: NonEmptyString) -> String {
        value.inner()
    }
}

/// What `try_from` answers for `value`: the empty string and the string of
/// white space alone are refused, each with its own message, and any other
/// string is accepted as it is.
pub open spec fn checked(value: String) -> Result<String, &'static str> {
    if value@.len() == 0 {
        Err("String is empty.")
    } else if is_blank(value@) {
        Err("String consists only of whitespace characters.")
    } else {
        Ok(value)
    }
}

impl TryFrom<String> for NonEmptyString {
    type Error = &'static str;

    fn try_from(value: String) -> (res: Result<Self, &'static str>)
        ensures
            match checked(value) {
                Ok(_) => res matches Ok(text) && text@ == value@,
                Err(message) => res == Err::<Self, &'static str>(message),
            },
    {
        if value.as_str().unicode_len() == 0 {
            return Err("String is empty.");
        }
        if blank(value.as_str()) {
            return Err("String consists only of whitespace characters.");
        }
        Ok(NonEmptyString(value))
    }
}

impl TryFromSpecImpl<String> for NonEmptyString {
    open spec fn obeys_try_from_spec() -> bool {
        true
    }

    open spec fn try_from_spec(value: String) -> Result<Self, &'static str> {
        match checked(value) {
            Ok(text) => Ok(NonEmptyString::wrap(text)),
            Err(message) => Err(message),
        }
    }
}

} // verus!
