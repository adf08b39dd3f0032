//! Users, and their passage to and from the columns of the `users` table.

use crate::base58::{
    base58_decoded, base58_failure, base58_text, is_base58_text, lemma_base58_exists,
};
use crate::column::{cell, Cell, Cells, Column, ColumnValue, QueryValues, Row};
use crate::driver::{is_normal, lemma_reads_as, millis_fit, reads_as, sendable};
use crate::text::str_equal;
use crate::timestamp::{
    lemma_timestamp_parts, whole_millis, CalendarTime, OutOfRange, RegistrationTimestamp,
};
use time::Timespec;
use vstd::prelude::*;
use vstd::std_specs::convert::{FromSpecImpl, TryFromSpecImpl};

verus! {

/// `bincode`'s kinds of error, one of which a serialization error carries.
#[verifier::external_type_specification]
#[verifier::external_body]
pub struct ExBincodeErrorKind(bincode::ErrorKind);

/// The columns of the `users` table, in the order of the table.
#[derive(Copy, Clone, Debug, PartialEq, Eq, Structural)]
pub enum UserColumn {
    /// `id`, a unique identifier.
    Id,
    /// `username`, text.
    Username,
    /// `email`, text.
    Email,
    /// `password_hash`, the Base58 text of the hash.
    PasswordHash,
    /// `registered_at`, a native timestamp.
    RegisteredAt,
}

impl UserColumn {
    /// The place of the column in the table, from 0.
    pub open spec fn place(self) -> int {
        match self {
            UserColumn::Id => 0,
            UserColumn::Username => 1,
            UserColumn::Email => 2,
            UserColumn::PasswordHash => 3,
            UserColumn::RegisteredAt => 4,
        }
    }

    /// The columns of the table in their order.
    pub open spec fn table() -> Seq<UserColumn> {
        seq![
            UserColumn::Id,
            UserColumn::Username,
            UserColumn::Email,
            UserColumn::PasswordHash,
            UserColumn::RegisteredAt,
        ]
    }

    /// The columns of the table in their order.
    pub fn all() -> (columns: [UserColumn; 5])
        ensures
            columns@ == Self::table(),
    {
        let columns = [
            UserColumn::Id,
            UserColumn::Username,
            UserColumn::Email,
            UserColumn::PasswordHash,
            UserColumn::RegisteredAt,
        ];
        assert(columns@ =~= Self::table());
        columns
    }

    /// The name of the column in the table.
    pub open spec fn spec_name(self) -> Seq<char> {
        match self {
            UserColumn::Id => "id"@,
            UserColumn::Username => "username"@,
            UserColumn::Email => "email"@,
            UserColumn::PasswordHash => "password_hash"@,
            UserColumn::RegisteredAt => "registered_at"@,
        }
    }

    /// The name of the column in the table.
    pub fn name(self) -> (name: &'static str)
        ensures
            name@ == self.spec_name(),
    {
        match self {
            UserColumn::Id => "id",
            UserColumn::Username => "username",
            UserColumn::Email => "email",
            UserColumn::PasswordHash => "password_hash",
            UserColumn::RegisteredAt => "registered_at",
        }
    }
}

/// Why a user could not be turned into the values of an insert.
#[derive(Debug)]
pub enum ConvertUserToQueryValuesError {
    /// The user could not be serialized.
    SerializationError(bincode::Error),
    /// The hash could not be written as Base58.
    EncodingError(bs58::encode::Error),
}

impl ConvertUserToQueryValuesError {
    /// What was being done when the error came up.
    pub open spec fn spec_activity(&self) -> Seq<char> {
        match self {
            ConvertUserToQueryValuesError::SerializationError(_) => "serializing the user"@,
            ConvertUserToQueryValuesError::EncodingError(_) =>
                "encoding the serialized user to base58"@,
        }
    }

    /// What was being done when the error came up, for a message.
    pub fn activity(&self) -> (phrase: &'static str)
        ensures
            phrase@ == self.spec_activity(),
    {
        match self {
            ConvertUserToQueryValuesError::SerializationError(_) => "serializing the user",
            ConvertUserToQueryValuesError::EncodingError(_) =>
                "encoding the serialized user to base58",
        }
    }
}

impl From<bincode::Error> for ConvertUserToQueryValuesError {
    fn from(e: bincode::Error) -> (r: Self)
        ensures
            r == ConvertUserToQueryValuesError::SerializationError(e),
    {
        Self::SerializationError(e)
    }
}

impl FromSpecImpl<bincode::Error> for ConvertUserToQueryValuesError {
    open spec fn obeys_from_spec() -> bool {
        true
    }

    open spec fn from_spec(e: bincode::Error) -> Self {
        ConvertUserToQueryValuesError::SerializationError(e)
    }
}

impl From<bs58::encode::Error> for ConvertUserToQueryValuesError {
    fn from(e: bs58::encode::Error) -> (r: Self)
        ensures
            r == ConvertUserToQueryValuesError::EncodingError(e),
    {
        Self::EncodingError(e)
    }
}

impl FromSpecImpl<bs58::encode::Error> for ConvertUserToQueryValuesError {
    open spec fn obeys_from_spec() -> bool {
        true
    }

    open spec fn from_spec(e: bs58::encode::Error) -> Self {
        ConvertUserToQueryValuesError::EncodingError(e)
    }
}

/// Why a row could not be read as a user.
#[derive(Debug, PartialEq)]
pub enum ConvertRowToUserError {
    /// The row has no such column, or the column is unset.
    MissingColumn(UserColumn),
    /// The column holds a value of another type than the table gives it.
    ColumnTypeMismatch(UserColumn),
    /// The text of the hash is not Base58.
    DecodingError(bs58::decode::Error),
    /// The text of the hash is Base58 for this many bytes, and not for the 32
    /// bytes of a hash.
    InvalidHashLength(usize),
}

impl ConvertRowToUserError {
    /// The column at which reading the row failed.
    pub open spec fn spec_column(&self) -> UserColumn {
        match self {
            ConvertRowToUserError::MissingColumn(column) => *column,
            ConvertRowToUserError::ColumnTypeMismatch(column) => *column,
            ConvertRowToUserError::DecodingError(_) => UserColumn::PasswordHash,
            ConvertRowToUserError::InvalidHashLength(_) => UserColumn::PasswordHash,
        }
    }

    /// The column at which reading the row failed.
    pub fn column(&self) -> (column: UserColumn)
        ensures
            column == self.spec_column(),
    {
        match self {
            ConvertRowToUserError::MissingColumn(column) => *column,
            ConvertRowToUserError::ColumnTypeMismatch(column) => *column,
            ConvertRowToUserError::DecodingError(_) => UserColumn::PasswordHash,
            ConvertRowToUserError::InvalidHashLength(_) => UserColumn::PasswordHash,
        }
    }
}

impl From<bs58::decode::Error> for ConvertRowToUserError {
    fn from(e: bs58::decode::Error) -> (r: Self)
        ensures
            r == ConvertRowToUserError::DecodingError(e),
    {
        Self::DecodingError(e)
    }
}

impl FromSpecImpl<bs58::decode::Error> for ConvertRowToUserError {
    open spec fn obeys_from_spec() -> bool {
        true
    }

    open spec fn from_spec(e: bs58::decode::Error) -> Self {
        ConvertRowToUserError::DecodingError(e)
    }
}

/// A user as mathematics sees one, whoever holds the text and the bytes.
pub ghost struct UserView {
    pub id: u128,
    pub username: Seq<char>,
    pub email: Seq<char>,
    pub password_hash: Seq<u8>,
    pub registered_at: RegistrationTimestamp,
}

impl UserView {
    /// A user has a hash of exactly 32 bytes.
    pub open spec fn is_valid(self) -> bool {
        self.password_hash.len() == 32
    }
}

/// Two records are the same user when they agree field by field, the
/// registration time to the millisecond.
pub open spec fn same_user(a: UserView, b: UserView) -> bool {
    &&& a.id == b.id
    &&& a.username == b.username
    &&& a.email == b.email
    &&& a.password_hash == b.password_hash
    &&& a.registered_at.same_instant(&b.registered_at)
}

/// A user of any one of the products. A user may be authenticated with the
/// service itself, or with one of the supported authentication providers.
/// The text of this record is borrowed.
#[derive(Debug)]
pub struct User<'a> {
    id: u128,
    username: &'a str,
    email: &'a str,
    password_hash: [u8; 32],
    registered_at: RegistrationTimestamp,
}

/// A user whose text and bytes are its own: what reading a row gives.
#[derive(Debug)]
pub struct OwnedUser {
    id: u128,
    username: String,
    email: String,
    password_hash: [u8; 32],
    registered_at: RegistrationTimestamp,
}

impl View for User<'_> {
    type V = UserView;

    closed spec fn view(&self) -> UserView {
        UserView {
            id: self.id,
            username: self.username@,
            email: self.email@,
            password_hash: self.password_hash@,
            registered_at: self.registered_at,
        }
    }
}

impl View for OwnedUser {
    type V = UserView;

    closed spec fn view(&self) -> UserView {
        UserView {
            id: self.id,
            username: self.username@,
            email: self.email@,
            password_hash: self.password_hash@,
            registered_at: self.registered_at,
        }
    }
}

/// The registration time that a calendar time gives: its timestamp, or the
/// epoch where it has none.
pub open spec fn timestamp_or_epoch(time: CalendarTime) -> RegistrationTimestamp {
    match RegistrationTimestamp::of_calendar_time(time) {
        Ok(timestamp) => timestamp,
        Err(_) => RegistrationTimestamp::at(0, 0),
    }
}

/// Whether the 128 bits are those of a random UUID: version 4 of the variant
/// of RFC 4122.
pub open spec fn is_random_uuid(id: u128) -> bool {
    (id >> 76) & 0xf == 4 && (id >> 62) & 0x3 == 2
}

/// `uuid::Uuid::new_v4` draws 16 bytes from the operating system, which it
/// stops the program for if there are none, and marks them as a UUID of
/// version 4 in the variant of RFC 4122; `as_u128` reads the 16 bytes as one
/// number, most significant byte first.
#[verifier::external_body]
fn random_id() -> (id: u128)
    ensures
        is_random_uuid(id),
{
    uuid::Uuid::new_v4().as_u128()
}

/// `chrono::Utc::now` reads the system clock, which it takes to stand at or
/// after the Unix epoch and stops the program for if it does not; what it
/// hands back has whole seconds since the epoch and less than a second of
/// nanoseconds.
#[verifier::external_body]
fn utc_now() -> (now: CalendarTime)
    ensures
        now.seconds >= 0,
        now.subsec_nanos < 1_000_000_000,
{
    let now = chrono::Utc::now();
    CalendarTime { seconds: now.timestamp(), subsec_nanos: now.timestamp_subsec_nanos() }
}

/// Whether two byte slices hold the same bytes.
fn bytes_equal(a: &[u8], b: &[u8]) -> (same: bool)
    ensures
        same == (a@ == b@),
{
    if a.len() != b.len() {
        return false;
    }
    let mut i: usize = 0;
    while i < a.len()
        invariant
            i <= a.len(),
            a@.len() == b@.len(),
            forall|j: int| 0 <= j < i ==> a@[j] == b@[j],
        decreases a.len() - i,
    {
        if a[i] != b[i] {
            return false;
        }
        i += 1;
    }
    assert(a@ =~= b@);
    true
}

impl<'a> User<'a> {
    /// The user of the given parts.
    pub fn from_parts(
        id: u128,
        username: &'a str,
        email: &'a str,
        password_hash: [u8; 32],
        registered_at: RegistrationTimestamp,
    ) -> (user: Self)
        ensures
            user@ == (UserView {
                id,
                username: username@,
                email: email@,
                password_hash: password_hash@,
                registered_at,
            }),
    {
        Self { id, username, email, password_hash, registered_at }
    }

    /// Creates a new user.
    ///
    /// * `id` - the id of the user: if none is given, a random UUID is drawn
    /// * `username` - the username of the user
    /// * `email` - the email of the user
    /// * `password_hash` - the hash of the user's password
    /// * `registered_at` - the time at which the user registered: if none is
    ///   given, the current UTC time is taken; a given time whose nanoseconds
    ///   are out of range gives the epoch
    pub fn new(
        id: Option<u128>,
        username: &'a str,
        email: &'a str,
        password_hash: [u8; 32],
        registered_at: Option<CalendarTime>,
    ) -> (user: Self)
        ensures
            id matches Some(given) ==> user@.id == given,
            id is None ==> is_random_uuid(user@.id),
            user@.username == username@,
            user@.email == email@,
            user@.password_hash == password_hash@,
            registered_at matches Some(time) ==> user@.registered_at == timestamp_or_epoch(time),
            registered_at is None ==> user@.registered_at.is_normal()
                && user@.registered_at.seconds() >= 0,
    {
        let id = match id {
            Some(given) => given,
            None => random_id(),
        };
        let time = match registered_at {
            Some(time) => time,
            None => utc_now(),
        };
        let registered_at = match RegistrationTimestamp::try_from(time) {
            Ok(timestamp) => timestamp,
            Err(_) => RegistrationTimestamp::default(),
        };
        proof {
            lemma_timestamp_parts(time.seconds, time.subsec_nanos as i32);
        }
        Self::from_parts(id, username, email, password_hash, registered_at)
    }

    /// Creates a new user as [`User::new`] does, but for a registration time
    /// whose nanoseconds are out of range: that is an error here, and no
    /// user is made of it.
    pub fn try_new(
        id: Option<u128>,
        username: &'a str,
        email: &'a str,
        password_hash: [u8; 32],
        registered_at: Option<CalendarTime>,
    ) -> (r: Result<Self, OutOfRange>)
        ensures
            r is Err <==> (registered_at matches Some(time)
                && RegistrationTimestamp::of_calendar_time(time) is Err),
            r matches Err(e) ==> (registered_at matches Some(time) && e == (OutOfRange {
                subsec_nanos: time.subsec_nanos,
            })),
            r matches Ok(user) ==> {
                &&& id matches Some(given) ==> user@.id == given
                &&& id is None ==> is_random_uuid(user@.id)
                &&& user@.username == username@
                &&& user@.email == email@
                &&& user@.password_hash == password_hash@
                &&& registered_at matches Some(time) ==> RegistrationTimestamp::of_calendar_time(
                    time,
                ) == Ok::<RegistrationTimestamp, OutOfRange>(user@.registered_at)
                &&& registered_at is None ==> user@.registered_at.is_normal()
                    && user@.registered_at.seconds() >= 0
            },
    {
        if let Some(time) = registered_at {
            if let Err(e) = RegistrationTimestamp::try_from(time) {
                return Err(e);
            }
        }
        Ok(Self::new(id, username, email, password_hash, registered_at))
    }

    /// Gets the id of the user.
    pub fn id(&self) -> (id: &u128)
        ensures
            *id == self@.id,
    {
        &self.id
    }

    /// Gets the username of the user.
    pub fn username(&self) -> (username: &str)
        ensures
            username@ == self@.username,
    {
        self.username
    }

    /// Gets the email of the user.
    pub fn email(&self) -> (email: &str)
        ensures
            email@ == self@.email,
    {
        self.email
    }

    /// Gets the hash of the user's password.
    pub fn password_hash(&self) -> (hash: &[u8; 32])
        ensures
            hash@ == self@.password_hash,
    {
        &self.password_hash
    }

    /// Gets the time at which the user registered, as a calendar time.
    pub fn registered_at(&self) -> (time: CalendarTime)
        ensures
            time == self@.registered_at.calendar_time(),
    {
        CalendarTime::from(&self.registered_at)
    }
}

/// Whether `user` is the borrowed record of the owned record `u`.
pub open spec fn is_borrowed_of(user: User<'_>, u: &OwnedUser) -> bool {
    user@ == u@
}

impl<'a> From<&'a OwnedUser> for User<'a> {
    /// The borrowed record of an owned one: the same user.
    fn from(u: &'a OwnedUser) -> (user: Self)
        ensures
            is_borrowed_of(user, u),
    {
        Self {
            id: u.id,
            username: u.username.as_str(),
            email: u.email.as_str(),
            password_hash: u.password_hash,
            registered_at: u.registered_at,
        }
    }
}

impl<'a> FromSpecImpl<&'a OwnedUser> for User<'a> {
    open spec fn obeys_from_spec() -> bool {
        false
    }

    open spec fn from_spec(u: &'a OwnedUser) -> Self {
        choose|user: Self| is_borrowed_of(user, u)
    }
}

/// The record of a user, borrowed or owned, is a valid user.
pub proof fn lemma_records_are_valid(borrowed: User<'_>, owned: OwnedUser)
    ensures
        borrowed@.is_valid(),
        owned@.is_valid(),
{
}

impl PartialEq<OwnedUser> for User<'_> {
    /// Whether the two records are the same user.
    fn eq(&self, other: &OwnedUser) -> (same: bool) {
        self.id == other.id && str_equal(self.username, other.username.as_str()) && str_equal(
            self.email,
            other.email.as_str(),
        ) && bytes_equal(self.password_hash.as_slice(), other.password_hash.as_slice())
            && self.registered_at == other.registered_at
    }
}

impl vstd::std_specs::cmp::PartialEqSpecImpl<OwnedUser> for User<'_> {
    open spec fn obeys_eq_spec() -> bool {
        true
    }

    open spec fn eq_spec(&self, other: &OwnedUser) -> bool {
        same_user(self@, other@)
    }
}

impl PartialEq<User<'_>> for OwnedUser {
    /// Whether the two records are the same user.
    fn eq(&self, other: &User<'_>) -> (same: bool) {
        self.id == other.id && str_equal(self.username.as_str(), other.username) && str_equal(
            self.email.as_str(),
            other.email,
        ) && bytes_equal(self.password_hash.as_slice(), other.password_hash.as_slice())
            && self.registered_at == other.registered_at
    }
}

impl vstd::std_specs::cmp::PartialEqSpecImpl<User<'_>> for OwnedUser {
    open spec fn obeys_eq_spec() -> bool {
        true
    }

    open spec fn eq_spec(&self, other: &User<'_>) -> bool {
        same_user(self@, other@)
    }
}

/// The values of the insert of a user: every column of the table under its
/// name, in the order of the table. The hash goes as its Base58 text, the
/// registration time as a native timestamp.
pub open spec fn encoded(user: UserView) -> Cells {
    seq![
        (UserColumn::Id.spec_name(), Cell::Uuid(user.id)),
        (UserColumn::Username.spec_name(), Cell::Text(user.username)),
        (UserColumn::Email.spec_name(), Cell::Text(user.email)),
        (UserColumn::PasswordHash.spec_name(), Cell::Text(base58_text(user.password_hash))),
        (UserColumn::RegisteredAt.spec_name(), Cell::Timestamp(user.registered_at.native())),
    ]
}

/// The unique identifier in a column of the row.
pub open spec fn uuid_in(cells: Cells, column: UserColumn) -> Result<u128, ConvertRowToUserError> {
    match cell(cells, column.spec_name()) {
        Some(Cell::Uuid(id)) => Ok(id),
        None | Some(Cell::Null) => Err(ConvertRowToUserError::MissingColumn(column)),
        Some(_) => Err(ConvertRowToUserError::ColumnTypeMismatch(column)),
    }
}

/// The text in a column of the row.
pub open spec fn text_in(cells: Cells, column: UserColumn) -> Result<
    Seq<char>,
    ConvertRowToUserError,
> {
    match cell(cells, column.spec_name()) {
        Some(Cell::Text(text)) => Ok(text),
        None | Some(Cell::Null) => Err(ConvertRowToUserError::MissingColumn(column)),
        Some(_) => Err(ConvertRowToUserError::ColumnTypeMismatch(column)),
    }
}

/// The native timestamp in a column of the row.
pub open spec fn timestamp_in(cells: Cells, column: UserColumn) -> Result<
    Timespec,
    ConvertRowToUserError,
> {
    match cell(cells, column.spec_name()) {
        Some(Cell::Timestamp(timestamp)) => Ok(timestamp),
        None | Some(Cell::Null) => Err(ConvertRowToUserError::MissingColumn(column)),
        Some(_) => Err(ConvertRowToUserError::ColumnTypeMismatch(column)),
    }
}

/// The hash that a Base58 text stands for: the bytes of the text, if the text
/// is Base58 and its bytes are the 32 of a hash.
pub open spec fn hash_of(text: Seq<char>) -> Result<Seq<u8>, ConvertRowToUserError> {
    match base58_decoded(text) {
        Ok(hash) => if hash.len() == 32 {
            Ok(hash)
        } else {
            Err(ConvertRowToUserError::InvalidHashLength(hash.len() as usize))
        },
        Err(e) => Err(ConvertRowToUserError::DecodingError(e)),
    }
}

/// The user that a row holds. The columns are read by name in the order of
/// the table, the hash is read as soon as its text is there, and the first
/// failure is the error.
pub open spec fn decoded(cells: Cells) -> Result<UserView, ConvertRowToUserError> {
    match uuid_in(cells, UserColumn::Id) {
        Err(e) => Err(e),
        Ok(id) => match text_in(cells, UserColumn::Username) {
            Err(e) => Err(e),
            Ok(username) => match text_in(cells, UserColumn::Email) {
                Err(e) => Err(e),
                Ok(email) => match text_in(cells, UserColumn::PasswordHash) {
                    Err(e) => Err(e),
                    Ok(text) => match hash_of(text) {
                        Err(e) => Err(e),
                        Ok(password_hash) => match timestamp_in(cells, UserColumn::RegisteredAt) {
                            Err(e) => Err(e),
                            Ok(native) => Ok(
                                UserView {
                                    id,
                                    username,
                                    email,
                                    password_hash,
                                    registered_at: RegistrationTimestamp::at(
                                        native.sec,
                                        native.nsec,
                                    ),
                                },
                            ),
                        },
                    },
                },
            },
        },
    }
}

/// Whether `r` is what turning the user into the values of its insert gives:
/// the values, always.
pub open spec fn is_insert_of(
    r: Result<QueryValues, ConvertUserToQueryValuesError>,
    user: UserView,
) -> bool {
    r matches Ok(values) && values@ == encoded(user)
}

/// Whether `r` is what reading the row as a user gives: the user that the
/// row holds, or the error that reading it meets.
pub open spec fn is_reading_of(r: Result<OwnedUser, ConvertRowToUserError>, cells: Cells) -> bool {
    match r {
        Ok(user) => decoded(cells) == Ok::<UserView, ConvertRowToUserError>(user@),
        Err(e) => decoded(cells) == Err::<UserView, ConvertRowToUserError>(e),
    }
}

/// Reads the unique identifier in a column of the row.
fn read_uuid(row: &Row, column: UserColumn) -> (r: Result<u128, ConvertRowToUserError>)
    ensures
        r == uuid_in(row@, column),
{
    match row.get(column.name()) {
        Some(ColumnValue::Uuid(id)) => Ok(*id),
        None => Err(ConvertRowToUserError::MissingColumn(column)),
        Some(ColumnValue::Null) => Err(ConvertRowToUserError::MissingColumn(column)),
        Some(_) => Err(ConvertRowToUserError::ColumnTypeMismatch(column)),
    }
}

/// Reads the text in a column of the row.
fn read_text(row: &Row, column: UserColumn) -> (r: Result<String, ConvertRowToUserError>)
    ensures
        match r {
            Ok(text) => text_in(row@, column) == Ok::<Seq<char>, ConvertRowToUserError>(text@),
            Err(e) => text_in(row@, column) == Err::<Seq<char>, ConvertRowToUserError>(e),
        },
{
    match row.get(column.name()) {
        Some(ColumnValue::Text(text)) => Ok(text.clone()),
        None => Err(ConvertRowToUserError::MissingColumn(column)),
        Some(ColumnValue::Null) => Err(ConvertRowToUserError::MissingColumn(column)),
        Some(_) => Err(ConvertRowToUserError::ColumnTypeMismatch(column)),
    }
}

/// Reads the hash out of its Base58 text.
fn read_hash(text: &str) -> (r: Result<[u8; 32], ConvertRowToUserError>)
    ensures
        match r {
            Ok(hash) => hash_of(text@) == Ok::<Seq<u8>, ConvertRowToUserError>(hash@),
            Err(e) => hash_of(text@) == Err::<Seq<u8>, ConvertRowToUserError>(e),
        },
{
    let bytes = match crate::base58::decode(text) {
        Ok(bytes) => bytes,
        Err(e) => {
            return Err(ConvertRowToUserError::DecodingError(e));
        },
    };
    if bytes.len() != 32 {
        return Err(ConvertRowToUserError::InvalidHashLength(bytes.len()));
    }
    let mut hash = [0u8;32];
    let mut i: usize = 0;
    while i < 32
        invariant
            i <= 32,
            bytes@.len() == 32,
            forall|j: int| 0 <= j < i ==> hash@[j] == bytes@[j],
        decreases 32 - i,
    {
        hash[i] = bytes[i];
        i += 1;
    }
    assert(hash@ =~= bytes@);
    Ok(hash)
}

/// Reads the native timestamp in a column of the row.
fn read_timestamp(row: &Row, column: UserColumn) -> (r: Result<Timespec, ConvertRowToUserError>)
    ensures
        r == timestamp_in(row@, column),
{
    match row.get(column.name()) {
        Some(ColumnValue::Timestamp(timestamp)) => Ok(*timestamp),
        None => Err(ConvertRowToUserError::MissingColumn(column)),
        Some(ColumnValue::Null) => Err(ConvertRowToUserError::MissingColumn(column)),
        Some(_) => Err(ConvertRowToUserError::ColumnTypeMismatch(column)),
    }
}

impl<'a> User<'a> {
    /// The values of the insert of this user. Writing the hash as Base58
    /// takes an allocation; nothing in it can fail.
    pub fn try_into(&self) -> (r: Result<QueryValues, ConvertUserToQueryValuesError>)
        ensures
            is_insert_of(r, self@),
    {
        let hash_text = crate::base58::encode(self.password_hash.as_slice());
        let mut columns: Vec<Column> = Vec::new();
        columns.push(
            Column { name: UserColumn::Id.name().to_owned(), value: ColumnValue::Uuid(self.id) },
        );
        columns.push(
            Column {
                name: UserColumn::Username.name().to_owned(),
                value: ColumnValue::Text(self.username.to_owned()),
            },
        );
        columns.push(
            Column {
                name: UserColumn::Email.name().to_owned(),
                value: ColumnValue::Text(self.email.to_owned()),
            },
        );
        columns.push(
            Column {
                name: UserColumn::PasswordHash.name().to_owned(),
                value: ColumnValue::Text(hash_text),
            },
        );
        columns.push(
            Column {
                name: UserColumn::RegisteredAt.name().to_owned(),
                value: ColumnValue::Timestamp(Timespec::from(&self.registered_at)),
            },
        );
        let values = QueryValues { columns };
        assert(values@ =~= encoded(self@));
        Ok(values)
    }
}

impl<'a> TryFrom<User<'a>> for QueryValues {
    type Error = ConvertUserToQueryValuesError;

    /// The values of the insert of the user.
    fn try_from(u: User<'a>) -> (r: Result<Self, Self::Error>)
        ensures
            is_insert_of(r, u@),
    {
        User::try_into(&u)
    }
}

impl<'a> TryFromSpecImpl<User<'a>> for QueryValues {
    open spec fn obeys_try_from_spec() -> bool {
        false
    }

    open spec fn try_from_spec(u: User<'a>) -> Result<Self, Self::Error> {
        choose|r: Result<Self, Self::Error>| is_insert_of(r, u@)
    }
}

impl TryFrom<Row> for OwnedUser {
    type Error = ConvertRowToUserError;

    /// Reads a row as a user: every column of the table by its name, the hash
    /// out of its Base58 text. A column that is not there or unset, a column
    /// of another type and text that is not Base58 are errors; nothing is put
    /// in the place of what could not be read.
    fn try_from(value: Row) -> (r: Result<Self, Self::Error>)
        ensures
            is_reading_of(r, value@),
    {
        let id = match read_uuid(&value, UserColumn::Id) {
            Ok(id) => id,
            Err(e) => {
                return Err(e);
            },
        };
        let username = match read_text(&value, UserColumn::Username) {
            Ok(text) => text,
            Err(e) => {
                return Err(e);
            },
        };
        let email = match read_text(&value, UserColumn::Email) {
            Ok(text) => text,
            Err(e) => {
                return Err(e);
            },
        };
        let hash_text = match read_text(&value, UserColumn::PasswordHash) {
            Ok(text) => text,
            Err(e) => {
                return Err(e);
            },
        };
        let password_hash = match read_hash(hash_text.as_str()) {
            Ok(hash) => hash,
            Err(e) => {
                return Err(e);
            },
        };
        let native = match read_timestamp(&value, UserColumn::RegisteredAt) {
            Ok(timestamp) => timestamp,
            Err(e) => {
                return Err(e);
            },
        };
        Ok(
            OwnedUser {
                id,
                username,
                email,
                password_hash,
                registered_at: RegistrationTimestamp::from(native),
            },
        )
    }
}

impl TryFromSpecImpl<Row> for OwnedUser {
    open spec fn obeys_try_from_spec() -> bool {
        false
    }

    open spec fn try_from_spec(value: Row) -> Result<Self, Self::Error> {
        choose|r: Result<Self, Self::Error>| is_reading_of(r, value@)
    }
}

/// Whether a column that was written as `written` may be read back as
/// `read`: a timestamp comes back to the millisecond, since that is all a
/// timestamp column keeps, and any other value as it was written.
pub open spec fn kept(written: Cell, read: Cell) -> bool {
    match written {
        Cell::Timestamp(w) => read matches Cell::Timestamp(r) && r.sec == w.sec && whole_millis(
            r.nsec,
        ) == whole_millis(w.nsec),
        _ => read == written,
    }
}

/// Whether `row` may be what is fetched after `written` was inserted: the
/// same columns under the same names, each holding what the table kept of it.
pub open spec fn fetched(written: Cells, row: Cells) -> bool {
    &&& row.len() == written.len()
    &&& forall|i: int|
        0 <= i < written.len() ==> (#[trigger] row[i]).0 == written[i].0 && kept(
            written[i].1,
            row[i].1,
        )
}

/// Whether every column of `row` is, under the same name, a value that the
/// table may give back for the column of `written`: one that the driver
/// sends as the same bytes.
pub open spec fn read_back(written: Cells, row: Cells) -> bool {
    &&& row.len() == written.len()
    &&& forall|i: int|
        0 <= i < written.len() ==> (#[trigger] row[i]).0 == written[i].0 && reads_as(
            written[i].1,
            row[i].1,
        )
}

/// Whether the value is no timestamp, or a timestamp in its normal form.
pub open spec fn normal_if_timestamp(written: Cell) -> bool {
    written matches Cell::Timestamp(timestamp) ==> is_normal(timestamp)
}

/// Whether the driver can send every value, and every timestamp is in its
/// normal form.
pub open spec fn storable(written: Cells) -> bool {
    forall|i: int|
        0 <= i < written.len() ==> sendable((#[trigger] written[i]).1) && normal_if_timestamp(
            written[i].1,
        )
}

/// What the table gives back for the bytes that the driver sent is what was
/// written, the timestamps to the millisecond.
pub proof fn lemma_read_back_is_fetched(written: Cells, row: Cells)
    requires
        storable(written),
        read_back(written, row),
    ensures
        fetched(written, row),
{
    assert forall|i: int| 0 <= i < written.len() implies (#[trigger] row[i]).0 == written[i].0
        && kept(written[i].1, row[i].1) by {
        assert(sendable(written[i].1));
        lemma_reads_as(written[i].1, row[i].1);
    }
}

/// The five columns of the table go by five different names.
proof fn lemma_column_names_differ()
    ensures
        "id"@.len() == 2,
        "username"@.len() == 8,
        "email"@.len() == 5,
        "password_hash"@.len() == 13 && "password_hash"@[0] == 'p',
        "registered_at"@.len() == 13 && "registered_at"@[0] == 'r',
{
    reveal_strlit("id");
    reveal_strlit("username");
    reveal_strlit("email");
    reveal_strlit("password_hash");
    reveal_strlit("registered_at");
}

/// No two columns of the table share a name.
pub proof fn lemma_column_name_injective(a: UserColumn, b: UserColumn)
    requires
        a.spec_name() == b.spec_name(),
    ensures
        a == b,
{
    lemma_column_names_differ();
}

/// A name is found in the first column that goes by it.
proof fn lemma_cell_at(cells: Cells, at: int, name: Seq<char>)
    requires
        0 <= at < cells.len(),
        cells[at].0 == name,
        forall|j: int| 0 <= j < at ==> (#[trigger] cells[j]).0 != name,
    ensures
        cell(cells, name) == Some(cells[at].1),
    decreases at,
{
    if at > 0 {
        let rest = cells.drop_first();
        assert(cells[0].0 != name);
        assert(rest[at - 1] == cells[at]);
        assert forall|j: int| 0 <= j < at - 1 implies (#[trigger] rest[j]).0 != name by {
            assert(rest[j] == cells[j + 1]);
        }
        lemma_cell_at(rest, at - 1, name);
    }
}

/// A user that is written and read back is the same user: reading the row
/// that is fetched after the insert of a user gives a record equal to that
/// user, the registration time to the millisecond.
pub proof fn lemma_user_round_trip(user: UserView, row: Cells)
    requires
        user.is_valid(),
        fetched(encoded(user), row),
    ensures
        decoded(row) matches Ok(back) && same_user(user, back),
{
    lemma_column_names_differ();
    lemma_base58_exists(user.password_hash);
    let written = encoded(user);
    assert(row[0].0 == written[0].0 && kept(written[0].1, row[0].1));
    assert(row[1].0 == written[1].0 && kept(written[1].1, row[1].1));
    assert(row[2].0 == written[2].0 && kept(written[2].1, row[2].1));
    assert(row[3].0 == written[3].0 && kept(written[3].1, row[3].1));
    assert(row[4].0 == written[4].0 && kept(written[4].1, row[4].1));
    lemma_cell_at(row, 0, UserColumn::Id.spec_name());
    lemma_cell_at(row, 1, UserColumn::Username.spec_name());
    lemma_cell_at(row, 2, UserColumn::Email.spec_name());
    lemma_cell_at(row, 3, UserColumn::PasswordHash.spec_name());
    lemma_cell_at(row, 4, UserColumn::RegisteredAt.spec_name());
    let native = row[4].1->Timestamp_0;
    lemma_timestamp_parts(native.sec, native.nsec);
}

/// A user that is sent to the table and read back from the bytes that were
/// sent is the same user.
pub proof fn lemma_user_round_trip_through_driver(user: UserView, row: Cells)
    requires
        user.is_valid(),
        user.registered_at.is_normal(),
        millis_fit(user.registered_at.native()),
        read_back(encoded(user), row),
    ensures
        storable(encoded(user)),
        decoded(row) matches Ok(back) && same_user(user, back),
{
    lemma_read_back_is_fetched(encoded(user), row);
    lemma_user_round_trip(user, row);
}

/// What is inserted for a user reads back as that very user where the table
/// keeps every value whole.
pub proof fn lemma_insert_reads_back(user: UserView)
    requires
        user.is_valid(),
    ensures
        decoded(encoded(user)) matches Ok(back) && back.id == user.id && back.username
            == user.username && back.email == user.email && back.password_hash
            == user.password_hash && back.registered_at.seconds() == user.registered_at.seconds()
            && back.registered_at.nanoseconds() == user.registered_at.nanoseconds(),
{
    lemma_column_names_differ();
    lemma_base58_exists(user.password_hash);
    let written = encoded(user);
    lemma_cell_at(written, 0, UserColumn::Id.spec_name());
    lemma_cell_at(written, 1, UserColumn::Username.spec_name());
    lemma_cell_at(written, 2, UserColumn::Email.spec_name());
    lemma_cell_at(written, 3, UserColumn::PasswordHash.spec_name());
    lemma_cell_at(written, 4, UserColumn::RegisteredAt.spec_name());
    lemma_timestamp_parts(user.registered_at.seconds(), user.registered_at.nanoseconds());
}

/// Whether the column of the row can be read as the table has it.
pub open spec fn readable(cells: Cells, column: UserColumn) -> bool {
    match column {
        UserColumn::Id => uuid_in(cells, column) is Ok,
        UserColumn::Username | UserColumn::Email => text_in(cells, column) is Ok,
        UserColumn::PasswordHash => text_in(cells, column) matches Ok(text) && hash_of(text) is Ok,
        UserColumn::RegisteredAt => timestamp_in(cells, column) is Ok,
    }
}

/// Whether the column is not in the row, or is unset in it.
pub open spec fn missing(cells: Cells, column: UserColumn) -> bool {
    cell(cells, column.spec_name()) is None || cell(cells, column.spec_name()) == Some(Cell::Null)
}

/// A row in which a column of the table is not there, or is unset, is never
/// read as a user: no field is made up in the place of the column. Where
/// the columns before it can be read, the error names that column as
/// missing.
pub proof fn lemma_missing_column_is_error(row: Cells, column: UserColumn)
    requires
        missing(row, column),
    ensures
        decoded(row) is Err,
        (forall|before: UserColumn| before.place() < column.place() ==> readable(row, before))
            ==> decoded(row) == Err::<UserView, ConvertRowToUserError>(
            ConvertRowToUserError::MissingColumn(column),
        ),
{
    if forall|before: UserColumn| before.place() < column.place() ==> readable(row, before) {
        assert(UserColumn::Id.place() < column.place() ==> readable(row, UserColumn::Id));
        assert(UserColumn::Username.place() < column.place() ==> readable(
            row,
            UserColumn::Username,
        ));
        assert(UserColumn::Email.place() < column.place() ==> readable(row, UserColumn::Email));
        assert(UserColumn::PasswordHash.place() < column.place() ==> readable(
            row,
            UserColumn::PasswordHash,
        ));
    }
}

/// A row is read as a user exactly when every column of the table can be
/// read; otherwise the error is that of the first column that cannot.
pub proof fn lemma_decoded_iff_readable(row: Cells)
    ensures
        decoded(row) is Ok <==> forall|column: UserColumn| readable(row, column),
        decoded(row) matches Err(e) ==> !readable(row, e.spec_column()) && forall|
            before: UserColumn,
        |
            before.place() < e.spec_column().place() ==> readable(row, before),
{
    if decoded(row) is Ok {
        assert forall|column: UserColumn| readable(row, column) by {}
    } else {
        let e = decoded(row)->Err_0;
        assert(!readable(row, e.spec_column()));
    }
    if forall|column: UserColumn| readable(row, column) {
        assert(readable(row, UserColumn::Id));
        assert(readable(row, UserColumn::Username));
        assert(readable(row, UserColumn::Email));
        assert(readable(row, UserColumn::PasswordHash));
        assert(readable(row, UserColumn::RegisteredAt));
    }
}

/// The values of an insert name every column of the table, each once, in the
/// order of the table.
pub proof fn lemma_encoded_covers_the_table(user: UserView)
    ensures
        encoded(user).len() == UserColumn::table().len(),
        forall|i: int|
            0 <= i < encoded(user).len() ==> (#[trigger] encoded(user)[i]).0
                == UserColumn::table()[i].spec_name(),
        forall|i: int| 0 <= i < UserColumn::table().len() ==> UserColumn::table()[i].place() == i,
{
}

/// A row whose hash column holds text that is not Base58 is never read as a
/// user; where the columns before it are in order, the error is the decoding
/// error for the first foreign character of the text.
pub proof fn lemma_bad_hash_text_is_error(row: Cells, text: Seq<char>)
    requires
        cell(row, UserColumn::PasswordHash.spec_name()) == Some(Cell::Text(text)),
        !is_base58_text(text),
    ensures
        decoded(row) is Err,
        uuid_in(row, UserColumn::Id) is Ok && text_in(row, UserColumn::Username) is Ok && text_in(
            row,
            UserColumn::Email,
        ) is Ok ==> decoded(row) == Err::<UserView, ConvertRowToUserError>(
            ConvertRowToUserError::DecodingError(base58_failure(text)),
        ),
{
}

} // verus!
