//! The infrastructure providers that a cluster can run on.

use vstd::prelude::*;
use vstd::string::*;
use crate::error::{Error, ErrorView};

verus! {

/// The underlying infrastructure provider for the cluster
#[derive(Debug, Clone, Copy, PartialEq, Eq, Structural)]
#[allow(clippy::upper_case_acronyms)]
pub enum BitteProvider {
    AWS,
}

/// Whether `c` is the ASCII letter `lower` in either case; `lower` is the
/// lower-case letter.
pub open spec fn is_letter(c: char, lower: char) -> bool {
    c == lower || c as int + 32 == lower as int
}

/// The provider that a text names: its name, with ASCII letters in either
/// case.
pub open spec fn provider_named(text: Seq<char>) -> Option<BitteProvider> {
    if text.len() == 3 && is_letter(text[0], 'a') && is_letter(text[1], 'w') && is_letter(
        text[2],
        's',
    ) {
        Some(BitteProvider::AWS)
    } else {
        None
    }
}

impl BitteProvider {
    /// The provider's name as it is written.
    pub open spec fn spec_name(self) -> Seq<char> {
        match self {
            BitteProvider::AWS => "AWS"@,
        }
    }

    /// The provider's name as it is written.
    pub fn name(&self) -> (text: String)
        ensures
            text@ == self.spec_name(),
    {
        match self {
            BitteProvider::AWS => String::from_str("AWS"),
        }
    }

    /// Reads a provider's name, whatever the case of its letters. A text that
    /// names no provider is rejected as invalid configuration, and the error
    /// holds the text.
    pub fn parse(text: &str) -> (provider: Result<BitteProvider, Error>)
        ensures
            match provider {
                Ok(p) => provider_named(text@) == Some(p),
                Err(e) => provider_named(text@) is None && e@ == ErrorView::ConfigInvalid(text@),
            },
    {
        if text.unicode_len() == 3 {
            let a = text.get_char(0);
            let w = text.get_char(1);
            let s = text.get_char(2);
            if (a == 'a' || a == 'A') && (w == 'w' || w == 'W') && (s == 's' || s == 'S') {
                return Ok(BitteProvider::AWS);
            }
        }
        Err(Error::ConfigInvalid(text.to_owned()))
    }
}

impl Default for BitteProvider {
    fn default() -> (provider: Self)
        ensures
            provider == BitteProvider::AWS,
    {
        BitteProvider::AWS
    }
}

impl std::str::FromStr for BitteProvider {
    type Err = Error;

    fn from_str(text: &str) -> (provider: Result<Self, Error>)
        ensures
            match provider {
                Ok(p) => provider_named(text@) == Some(p),
                Err(e) => provider_named(text@) is None && e@ == ErrorView::ConfigInvalid(text@),
            },
    {
        BitteProvider::parse(text)
    }
}

/// Every provider's name is read back as that provider.
pub proof fn lemma_name_is_read_back(provider: BitteProvider)
    ensures
        provider_named(provider.spec_name()) == Some(provider),
{
    reveal_strlit("AWS");
    assert(is_letter('A', 'a'));
    assert(is_letter('W', 'w'));
    assert(is_letter('S', 's'));
}

} // verus!
