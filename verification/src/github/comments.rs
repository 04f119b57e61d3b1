//! Errors of fetching the comments of a pull request.
use vstd::prelude::*;
use super::graphql::{graphql_error_text, GraphQLError};

verus! {

broadcast use vstd::string::group_string_axioms;

/// Why the comments of a pull request could not be fetched.
#[derive(Debug)]
pub enum CommentsError {
    GraphQLError(String),
}

/// The message shown for a `CommentsError`.
pub open spec fn comments_error_text(e: CommentsError) -> Seq<char> {
    match e {
        CommentsError::GraphQLError(msg) => "GitHub GraphQL error: "@ + msg@,
    }
}

impl CommentsError {
    /// The message of the error, as its `Display` writes it.
    pub fn message(&self) -> (s: String)
        ensures
            s@ == comments_error_text(*self),
    {
        match self {
            CommentsError::GraphQLError(msg) => {
                let mut s = String::from_str("GitHub GraphQL error: ");
                s.append(msg.as_str());
                s
            },
        }
    }

    /// A failed query, carrying the query error's message.
    pub fn from_graphql(err: &GraphQLError) -> (e: CommentsError)
        ensures
            e matches CommentsError::GraphQLError(msg) && msg@ == graphql_error_text(*err),
    {
        CommentsError::GraphQLError(err.message())
    }
}

} // verus!
