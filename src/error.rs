use vstd::prelude::*;

verus! {

/// What can go wrong while composing or running a query.
#[derive(Debug)]
pub enum SsqlError {
    /// The table is already part of the query.
    AlreadyJoined { table: String },
    /// The root table declares no relation to the table.
    UnknownRelation { table: String },
    /// A filter or an ordering names a table that is not part of the query.
    TableNotJoined { table: String },
    /// The table has no field of that name.
    ColumnNotFound { table: String, field: String },
    /// An `IN` test on the column has no values.
    EmptyInList { column: String },
    /// A column of a row is missing or holds a value of another kind than declared.
    DecodeError { column: String },
    /// The database driver failed.
    DriverError { message: String },
}

/// The text shown to a user for an error.
pub open spec fn error_text(e: SsqlError) -> Seq<char> {
    match e {
        SsqlError::AlreadyJoined { table } => "table already joined: "@ + table@,
        SsqlError::UnknownRelation { table } => "relationship not found: "@ + table@,
        SsqlError::TableNotJoined { table } => "table not in this builder: "@ + table@,
        SsqlError::ColumnNotFound { table, field } => "column "@ + field@ + " not found in "@
            + table@,
        SsqlError::EmptyInList { column } => "IN test without values on "@ + column@,
        SsqlError::DecodeError { column } => "cannot decode column "@ + column@,
        SsqlError::DriverError { message } => "Error occur when executing sql: "@ + message@,
    }
}

impl SsqlError {
    /// The text shown to a user.
    pub fn message(&self) -> (r: String)
        ensures
            r@ == error_text(*self),
    {
        let (head, tail) = match self {
            SsqlError::AlreadyJoined { table } => ("table already joined: ", table),
            SsqlError::UnknownRelation { table } => ("relationship not found: ", table),
            SsqlError::TableNotJoined { table } => ("table not in this builder: ", table),
            SsqlError::ColumnNotFound { table, field } => {
                let mut r = String::from_str("column ");
                r.append(field.as_str());
                r.append(" not found in ");
                r.append(table.as_str());
                return r;
            },
            SsqlError::EmptyInList { column } => ("IN test without values on ", column),
            SsqlError::DecodeError { column } => ("cannot decode column ", column),
            SsqlError::DriverError { message } => ("Error occur when executing sql: ", message),
        };
        let mut r = String::from_str(head);
        r.append(tail.as_str());
        r
    }
}

/// An error that carries only a message.
#[derive(Debug)]
pub struct CustomError {
    pub msg: String,
}

/// An error that carries only a message, raised while sending data.
#[derive(Debug)]
pub struct SentError {
    pub msg: String,
}

impl CustomError {
    pub fn new(msg: &str) -> (r: CustomError)
        ensures
            r.msg@ == msg@,
    {
        CustomError { msg: String::from_str(msg) }
    }

    /// The message, as it is shown to a user.
    pub fn message(&self) -> (r: String)
        ensures
            r@ == self.msg@,
    {
        self.msg.clone()
    }
}

impl SentError {
    pub fn new(msg: &str) -> (r: SentError)
        ensures
            r.msg@ == msg@,
    {
        SentError { msg: String::from_str(msg) }
    }

    /// The message, as it is shown to a user.
    pub fn message(&self) -> (r: String)
        ensures
            r@ == self.msg@,
    {
        self.msg.clone()
    }
}

} // verus!
