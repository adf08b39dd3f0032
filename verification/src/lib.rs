//! The record mapping between a user identity and the `users` table of a
//! wide-column database.
//!
//! A [`user::User`] is turned into the named, typed values of an insert, and
//! a row of the table is read back as a [`user::OwnedUser`]; what is read
//! back is the user that was written, the registration time to the
//! millisecond that the table keeps. On the way the password hash passes
//! through Base58 ([`base58`]), the registration time through the native
//! timestamp of the database ([`timestamp`]), and an identity provider
//! through its wire name ([`provider`]). The statements of the table are in
//! [`query`], the columns that carry the values in [`column`], and the bytes
//! that the database driver sends for them in [`driver`].
//!
//! Every function is verified against its contract. The text and byte
//! encodings are made by the crates that the application uses; what those
//! crates are taken to do is stated at each call, and what follows from it is
//! proved: that Base58 text has one reading, that the names of providers and
//! of columns tell them apart, and that writing a user and reading it back
//! gives the same user.

pub mod base58;
pub mod column;
pub mod driver;
pub mod provider;
pub mod query;
pub mod radix;
pub mod text;
pub mod timestamp;
pub mod user;
