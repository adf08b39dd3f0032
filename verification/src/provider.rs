//! Identity providers and the names they go by on the wire.

use crate::text::{lemma_text_of_bytes, str_equal};
use core::str::Utf8Error;
use vstd::prelude::*;
use vstd::std_specs::convert::{FromSpecImpl, TryFromSpecImpl};
use vstd::string::StringSliceAdditionalSpecFns;
use vstd::utf8::{decode_utf8, encode_utf8, valid_utf8};

verus! {

/// A provider of an authorization or authentication service with which a
/// user may hold an identity.
#[derive(PartialEq, Eq, Structural, Hash, Clone, Copy, Debug)]
pub enum IdentityProvider {
    /// Google, which issues subject ids as strings.
    Google,
    /// GitHub, which issues subject ids as integers.
    GitHub,
    /// Twitch, which issues subject ids as strings.
    Twitch,
    /// Reddit, which issues subject ids as serial strings.
    Reddit,
    /// Twitter, which issues subject ids as large unsigned integers.
    Twitter,
    /// Discord, which issues subject ids as strings.
    Discord,
    /// Facebook.
    Facebook,
}

/// Why bytes or text could not be read as an [`IdentityProvider`].
#[derive(Debug)]
pub enum IntoIdentityProviderError {
    /// The input was not valid UTF-8 text at all.
    Utf8Error(Utf8Error),
    /// The input was text, but the name of no provider.
    InvalidProvider,
}

impl IdentityProvider {
    /// The lowercase ASCII name that stands for the provider on the wire.
    pub open spec fn wire_name(self) -> Seq<char> {
        match self {
            IdentityProvider::Google => "google"@,
            IdentityProvider::GitHub => "github"@,
            IdentityProvider::Twitch => "twitch"@,
            IdentityProvider::Reddit => "reddit"@,
            IdentityProvider::Twitter => "twitter"@,
            IdentityProvider::Discord => "discord"@,
            IdentityProvider::Facebook => "facebook"@,
        }
    }

    /// The provider that goes by `name`, if there is one.
    pub open spec fn named(name: Seq<char>) -> Option<IdentityProvider> {
        if name == "google"@ {
            Some(IdentityProvider::Google)
        } else if name == "github"@ {
            Some(IdentityProvider::GitHub)
        } else if name == "twitch"@ {
            Some(IdentityProvider::Twitch)
        } else if name == "reddit"@ {
            Some(IdentityProvider::Reddit)
        } else if name == "twitter"@ {
            Some(IdentityProvider::Twitter)
        } else if name == "discord"@ {
            Some(IdentityProvider::Discord)
        } else if name == "facebook"@ {
            Some(IdentityProvider::Facebook)
        } else {
            None
        }
    }

    /// What reading `name` as a provider gives: the provider of that name, or
    /// `InvalidProvider`.
    pub open spec fn parsed(name: Seq<char>) -> Result<
        IdentityProvider,
        IntoIdentityProviderError,
    > {
        match Self::named(name) {
            Some(provider) => Ok(provider),
            None => Err(IntoIdentityProviderError::InvalidProvider),
        }
    }
}

/// The seven wire names differ from one another: each is told apart from the
/// others by its length or by one of its first two characters.
proof fn lemma_wire_names_differ()
    ensures
        "google"@.len() == 6 && "google"@[0] == 'g' && "google"@[1] == 'o',
        "github"@.len() == 6 && "github"@[0] == 'g' && "github"@[1] == 'i',
        "twitch"@.len() == 6 && "twitch"@[0] == 't',
        "reddit"@.len() == 6 && "reddit"@[0] == 'r',
        "twitter"@.len() == 7 && "twitter"@[0] == 't',
        "discord"@.len() == 7 && "discord"@[0] == 'd',
        "facebook"@.len() == 8,
{
    reveal_strlit("google");
    reveal_strlit("github");
    reveal_strlit("twitch");
    reveal_strlit("reddit");
    reveal_strlit("twitter");
    reveal_strlit("discord");
    reveal_strlit("facebook");
}

/// Reading the wire name of a provider gives that provider back.
pub proof fn lemma_wire_name_round_trip(provider: IdentityProvider)
    ensures
        IdentityProvider::named(provider.wire_name()) == Some(provider),
        IdentityProvider::parsed(provider.wire_name()) == Ok::<
            IdentityProvider,
            IntoIdentityProviderError,
        >(provider),
{
    lemma_wire_names_differ();
}

/// No two providers share a wire name.
pub proof fn lemma_wire_name_injective(a: IdentityProvider, b: IdentityProvider)
    requires
        a.wire_name() == b.wire_name(),
    ensures
        a == b,
{
    lemma_wire_name_round_trip(a);
    lemma_wire_name_round_trip(b);
}

/// A name is read as a provider exactly when it is that provider's wire name.
pub proof fn lemma_named_iff_wire_name(name: Seq<char>, provider: IdentityProvider)
    ensures
        IdentityProvider::named(name) == Some(provider) <==> name == provider.wire_name(),
{
    lemma_wire_name_round_trip(provider);
}

/// Text that is the wire name of no provider is turned down as
/// `InvalidProvider`.
pub proof fn lemma_unknown_name_is_invalid(name: Seq<char>)
    requires
        forall|provider: IdentityProvider| #[trigger] provider.wire_name() != name,
    ensures
        IdentityProvider::parsed(name) == Err::<IdentityProvider, IntoIdentityProviderError>(
            IntoIdentityProviderError::InvalidProvider,
        ),
{
    if let Some(provider) = IdentityProvider::named(name) {
        lemma_named_iff_wire_name(name, provider);
    }
}

impl From<IdentityProvider> for &str {
    /// The wire name of the provider.
    fn from(id: IdentityProvider) -> (name: Self)
        ensures
            name@ == id.wire_name(),
    {
        match id {
            IdentityProvider::Google => "google",
            IdentityProvider::GitHub => "github",
            IdentityProvider::Twitch => "twitch",
            IdentityProvider::Reddit => "reddit",
            IdentityProvider::Twitter => "twitter",
            IdentityProvider::Discord => "discord",
            IdentityProvider::Facebook => "facebook",
        }
    }
}

impl FromSpecImpl<IdentityProvider> for &str {
    open spec fn obeys_from_spec() -> bool {
        true
    }

    open spec fn from_spec(id: IdentityProvider) -> Self {
        match id {
            IdentityProvider::Google => "google",
            IdentityProvider::GitHub => "github",
            IdentityProvider::Twitch => "twitch",
            IdentityProvider::Reddit => "reddit",
            IdentityProvider::Twitter => "twitter",
            IdentityProvider::Discord => "discord",
            IdentityProvider::Facebook => "facebook",
        }
    }
}

impl From<IdentityProvider> for &[u8] {
    /// The UTF-8 bytes of the provider's wire name.
    fn from(id: IdentityProvider) -> (bytes: Self)
        ensures
            bytes@ == encode_utf8(id.wire_name()),
    {
        <&str as From<IdentityProvider>>::from(id).as_bytes()
    }
}

impl FromSpecImpl<IdentityProvider> for &[u8] {
    open spec fn obeys_from_spec() -> bool {
        false
    }

    open spec fn from_spec(id: IdentityProvider) -> Self {
        choose|bytes: &[u8]| bytes@ == encode_utf8(id.wire_name())
    }
}

impl TryFrom<&str> for IdentityProvider {
    type Error = IntoIdentityProviderError;

    /// Reads a wire name.
    fn try_from(s: &str) -> (r: Result<Self, Self::Error>)
        ensures
            r == Self::parsed(s@),
    {
        if str_equal(s, "google") {
            Ok(Self::Google)
        } else if str_equal(s, "github") {
            Ok(Self::GitHub)
        } else if str_equal(s, "twitch") {
            Ok(Self::Twitch)
        } else if str_equal(s, "reddit") {
            Ok(Self::Reddit)
        } else if str_equal(s, "twitter") {
            Ok(Self::Twitter)
        } else if str_equal(s, "discord") {
            Ok(Self::Discord)
        } else if str_equal(s, "facebook") {
            Ok(Self::Facebook)
        } else {
            Err(IntoIdentityProviderError::InvalidProvider)
        }
    }
}

impl TryFromSpecImpl<&str> for IdentityProvider {
    open spec fn obeys_try_from_spec() -> bool {
        true
    }

    open spec fn try_from_spec(s: &str) -> Result<Self, Self::Error> {
        Self::parsed(s@)
    }
}

impl TryFrom<String> for IdentityProvider {
    type Error = IntoIdentityProviderError;

    /// Reads a wire name held in an owned string.
    fn try_from(s: String) -> (r: Result<Self, Self::Error>)
        ensures
            r == Self::parsed(s@),
    {
        <Self as TryFrom<&str>>::try_from(s.as_str())
    }
}

impl TryFromSpecImpl<String> for IdentityProvider {
    open spec fn obeys_try_from_spec() -> bool {
        true
    }

    open spec fn try_from_spec(s: String) -> Result<Self, Self::Error> {
        Self::parsed(s@)
    }
}

impl TryFrom<&[u8]> for IdentityProvider {
    type Error = IntoIdentityProviderError;

    /// Reads a wire name from its bytes: bytes that are not UTF-8 are an
    /// encoding error, and text that names no provider is an invalid
    /// provider.
    fn try_from(bytes: &[u8]) -> (r: Result<Self, Self::Error>)
        ensures
            valid_utf8(bytes@) ==> r == Self::parsed(decode_utf8(bytes@)),
            !valid_utf8(bytes@) ==> r matches Err(IntoIdentityProviderError::Utf8Error(_)),
    {
        match core::str::from_utf8(bytes) {
            Ok(s) => {
                proof {
                    lemma_text_of_bytes(s);
                }
                <Self as TryFrom<&str>>::try_from(s)
            },
            Err(e) => Err(IntoIdentityProviderError::Utf8Error(e)),
        }
    }
}

impl TryFromSpecImpl<&[u8]> for IdentityProvider {
    open spec fn obeys_try_from_spec() -> bool {
        false
    }

    open spec fn try_from_spec(bytes: &[u8]) -> Result<Self, Self::Error> {
        Self::parsed(decode_utf8(bytes@))
    }
}

} // verus!
