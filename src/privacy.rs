use vstd::prelude::*;

verus! {

/// Visibility of one facet of an entity.
#[derive(Clone, Copy, Debug, PartialEq, Eq, Structural, Hash)]
pub enum PrivacyLevel {
    Public,
    Private,
}

/// The word under which a privacy level is rendered.
pub open spec fn privacy_word(p: PrivacyLevel) -> Seq<char> {
    match p {
        PrivacyLevel::Public => "public"@,
        PrivacyLevel::Private => "private"@,
    }
}

impl PrivacyLevel {
    /// Builds a privacy level from its stored code: 1 is public, 2 is private.
    /// No other code may be stored.
    pub fn from_code(code: i32) -> (r: PrivacyLevel)
        requires
            code == 1 || code == 2,
        ensures
            code == 1 ==> r == PrivacyLevel::Public,
            code == 2 ==> r == PrivacyLevel::Private,
    {
        if code == 1 {
            PrivacyLevel::Public
        } else {
            PrivacyLevel::Private
        }
    }

    /// The lowercase word for this level, `"public"` or `"private"`.
    pub fn as_str(&self) -> (r: &'static str)
        ensures
            r@ == privacy_word(*self),
    {
        match self {
            PrivacyLevel::Public => "public",
            PrivacyLevel::Private => "private",
        }
    }
}

} // verus!
