//! The statements of the `users` table: its schema, the insert, and the two
//! lookups.

use crate::column::{Cell, Cells, Column, ColumnValue, QueryValues};
use crate::user::{User, UserColumn};
use vstd::prelude::*;

verus! {

/// Creates the table of all users, keyed by id.
pub const CREATE_USERS_TABLE: &'static str =
    "CREATE TABLE IF NOT EXISTS identity.users (id UUID, username TEXT, email TEXT, password_hash TEXT, registered_at TIMESTAMP, PRIMARY KEY (id));";

/// Creates the index that makes a user findable by username.
pub const CREATE_USERNAME_INDEX: &'static str =
    "CREATE INDEX IF NOT EXISTS ON identity.users (username);";

/// Selects the user of an id, which is bound as the one parameter.
pub const SELECT_BY_ID: &'static str = "SELECT * FROM identity.users WHERE id = ?;";

/// Selects the user of a username, which is bound as the one parameter.
pub const SELECT_BY_USERNAME: &'static str = "SELECT * FROM identity.users WHERE username = ?;";

impl User<'_> {
    /// Inserts a user: one parameter for each column, in the order of the
    /// table.
    pub const INSERTION_QUERY: &'static str =
        "INSERT INTO identity.users (id, username, email, password_hash, registered_at) VALUES (?, ?, ?, ?, ?);";
}

/// The keys by which a single user is looked up.
#[derive(Debug)]
pub enum UserQuery<'a> {
    /// The user of this id.
    Id(&'a u128),
    /// The user of this username.
    Nickname(&'a str),
}

/// A statement with the values that are bound to its parameters. The text
/// of the statement holds none of the values.
#[derive(Debug)]
pub struct BoundStatement {
    /// The text of the statement, with a `?` for each parameter.
    pub statement: &'static str,
    /// The values of the parameters.
    pub values: QueryValues,
}

impl UserQuery<'_> {
    /// The text of the lookup: it depends on the kind of key alone.
    pub open spec fn statement(&self) -> Seq<char> {
        match self {
            UserQuery::Id(_) => SELECT_BY_ID@,
            UserQuery::Nickname(_) => SELECT_BY_USERNAME@,
        }
    }

    /// The key of the lookup, under the name of its column.
    pub open spec fn values(&self) -> Cells {
        match self {
            UserQuery::Id(id) => seq![(UserColumn::Id.spec_name(), Cell::Uuid(**id))],
            UserQuery::Nickname(nick) => seq![
                (UserColumn::Username.spec_name(), Cell::Text(nick@)),
            ],
        }
    }

    /// The select statement of the lookup. The key is bound as a parameter
    /// and never written into the text of the statement.
    pub fn to_query(&self) -> (query: BoundStatement)
        ensures
            query.statement@ == self.statement(),
            query.values@ == self.values(),
    {
        let mut columns: Vec<Column> = Vec::new();
        match self {
            UserQuery::Id(id) => {
                columns.push(
                    Column {
                        name: UserColumn::Id.name().to_owned(),
                        value: ColumnValue::Uuid(**id),
                    },
                );
                let values = QueryValues { columns };
                assert(values@ =~= self.values());
                BoundStatement { statement: SELECT_BY_ID, values }
            },
            UserQuery::Nickname(nick) => {
                columns.push(
                    Column {
                        name: UserColumn::Username.name().to_owned(),
                        value: ColumnValue::Text((*nick).to_owned()),
                    },
                );
                let values = QueryValues { columns };
                assert(values@ =~= self.values());
                BoundStatement { statement: SELECT_BY_USERNAME, values }
            },
        }
    }
}

/// How far the making of the table and its index has come. Whoever holds the
/// session runs the statement of each step and hands its outcome back; both
/// statements are run whatever the first came to.
#[derive(Debug)]
pub enum Provisioning<E> {
    /// Nothing has run: the table is made next.
    Table,
    /// The table statement has run with this outcome: the index is made next.
    Index(Result<(), E>),
    /// Both statements have run, with this outcome together.
    Done(Result<(), E>),
}

impl<E> Provisioning<E> {
    /// The step after this one, once its statement has run with `outcome`.
    /// The outcome of both statements together is the failure of the table
    /// statement if it failed, and the outcome of the index statement
    /// otherwise.
    pub open spec fn after(self, outcome: Result<(), E>) -> Self {
        match self {
            Provisioning::Table => Provisioning::Index(outcome),
            Provisioning::Index(Ok(_)) => Provisioning::Done(outcome),
            Provisioning::Index(Err(e)) => Provisioning::Done(Err(e)),
            Provisioning::Done(both) => Provisioning::Done(both),
        }
    }

    /// The statement that this step runs.
    pub open spec fn pending(self) -> Option<Seq<char>> {
        match self {
            Provisioning::Table => Some(CREATE_USERS_TABLE@),
            Provisioning::Index(_) => Some(CREATE_USERNAME_INDEX@),
            Provisioning::Done(_) => None,
        }
    }

    /// The first step.
    pub fn start() -> (first: Self)
        ensures
            first == Provisioning::<E>::Table,
    {
        Provisioning::Table
    }

    /// The statement to run now, if any is left.
    pub fn statement(&self) -> (statement: Option<&'static str>)
        ensures
            match statement {
                Some(text) => self.pending() == Some(text@),
                None => self.pending() is None,
            },
    {
        match self {
            Provisioning::Table => Some(CREATE_USERS_TABLE),
            Provisioning::Index(_) => Some(CREATE_USERNAME_INDEX),
            Provisioning::Done(_) => None,
        }
    }

    /// Takes the outcome of the statement of this step and moves on.
    pub fn advance(self, outcome: Result<(), E>) -> (next: Self)
        ensures
            next == self.after(outcome),
    {
        match self {
            Provisioning::Table => Provisioning::Index(outcome),
            Provisioning::Index(Ok(_)) => Provisioning::Done(outcome),
            Provisioning::Index(Err(e)) => Provisioning::Done(Err(e)),
            Provisioning::Done(both) => Provisioning::Done(both),
        }
    }

    /// The outcome of both statements, once both have run.
    pub fn outcome(self) -> (both: Option<Result<(), E>>)
        ensures
            both == match self {
                Provisioning::Done(both) => Some(both),
                _ => None,
            },
    {
        match self {
            Provisioning::Done(both) => Some(both),
            _ => None,
        }
    }
}

/// Two statements are run, the table first and the index second, and then
/// nothing is left to run; together they succeed when both did, and fail with
/// the failure of the first that failed.
pub proof fn lemma_provisioning_runs_both<E>(table: Result<(), E>, index: Result<(), E>)
    ensures
        Provisioning::<E>::Table.pending() == Some(CREATE_USERS_TABLE@),
        Provisioning::<E>::Table.after(table).pending() == Some(CREATE_USERNAME_INDEX@),
        Provisioning::<E>::Table.after(table).after(index).pending() is None,
        Provisioning::<E>::Table.after(table).after(index) == Provisioning::Done(
            match table {
                Ok(_) => index,
                Err(e) => Err(e),
            },
        ),
{
}

} // verus!
