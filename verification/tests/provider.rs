use std::convert::TryFrom;
use swaply_identity::provider::{IdentityProvider, IntoIdentityProviderError};

const ALL: [IdentityProvider; 7] = [
    IdentityProvider::Google,
    IdentityProvider::GitHub,
    IdentityProvider::Twitch,
    IdentityProvider::Reddit,
    IdentityProvider::Twitter,
    IdentityProvider::Discord,
    IdentityProvider::Facebook,
];

#[test]
fn provider_wire_names_are_the_fixed_lowercase_names() {
    assert_eq!(<&str>::from(IdentityProvider::Google), "google");
    assert_eq!(<&str>::from(IdentityProvider::GitHub), "github");
    assert_eq!(<&str>::from(IdentityProvider::Twitch), "twitch");
    assert_eq!(<&str>::from(IdentityProvider::Reddit), "reddit");
    assert_eq!(<&str>::from(IdentityProvider::Twitter), "twitter");
    assert_eq!(<&str>::from(IdentityProvider::Discord), "discord");
    assert_eq!(<&str>::from(IdentityProvider::Facebook), "facebook");
}

#[test]
fn provider_wire_name_reads_back_as_the_provider() {
    for provider in ALL {
        let name: &str = provider.into();
        assert_eq!(IdentityProvider::try_from(name).unwrap(), provider);
        assert_eq!(IdentityProvider::try_from(name.to_string()).unwrap(), provider);
        let bytes: &[u8] = provider.into();
        assert_eq!(bytes, name.as_bytes());
        assert_eq!(IdentityProvider::try_from(bytes).unwrap(), provider);
    }
}

#[test]
fn provider_wire_names_are_distinct() {
    for a in ALL {
        for b in ALL {
            let x: &str = a.into();
            let y: &str = b.into();
            assert_eq!(x == y, a == b);
        }
    }
}

#[test]
fn provider_reddit_is_read() {
    assert_eq!(IdentityProvider::try_from("reddit").unwrap(), IdentityProvider::Reddit);
}

#[test]
fn provider_unknown_text_is_an_invalid_provider() {
    for name in ["", "Google", "google ", "swaply", "githu", "facebookk", "twitterx"] {
        assert!(matches!(
            IdentityProvider::try_from(name),
            Err(IntoIdentityProviderError::InvalidProvider)
        ));
        assert!(matches!(
            IdentityProvider::try_from(name.to_string()),
            Err(IntoIdentityProviderError::InvalidProvider)
        ));
        assert!(matches!(
            IdentityProvider::try_from(name.as_bytes()),
            Err(IntoIdentityProviderError::InvalidProvider)
        ));
    }
}

#[test]
fn provider_bytes_that_are_not_text_are_an_encoding_error() {
    let bytes: &[u8] = &[0x67, 0x6f, 0xff, 0x67];
    match IdentityProvider::try_from(bytes) {
        Err(IntoIdentityProviderError::Utf8Error(e)) => assert_eq!(e.valid_up_to(), 2),
        other => panic!("expected an encoding error, got {:?}", other),
    }
    let truncated: &[u8] = &[0xe2, 0x82];
    assert!(matches!(
        IdentityProvider::try_from(truncated),
        Err(IntoIdentityProviderError::Utf8Error(_))
    ));
}
