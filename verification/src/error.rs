use vstd::prelude::*;
use vstd::string::*;
use vstd::std_specs::cmp::PartialEqSpecImpl;
use vstd::std_specs::convert::FromSpecImpl;
use crate::duration::{duration_text, Duration};
use crate::text::{decimal, push_decimal};

verus! {

/// Errors that can occur during query and mutation operations.
#[derive(Clone, Debug)]
pub enum QueryError {
    Network(String),
    Http { status: u16, message: String },
    Unauthorized,
    NotFound(String),
    Validation(String),
    Timeout(Duration),
    Custom(String),
    /// The operation was cancelled before it finished.
    Cancelled,
}

/// Whether an HTTP status is a server error (500 to 599).
pub open spec fn is_server_error(status: u16) -> bool {
    500 <= status <= 599
}

impl QueryError {
    /// Whether retrying the failed operation may help: network failures,
    /// timeouts and server errors.
    pub open spec fn retryable(&self) -> bool {
        match self {
            QueryError::Network(_) => true,
            QueryError::Timeout(_) => true,
            QueryError::Http { status, .. } => is_server_error(*status),
            _ => false,
        }
    }

    /// Two errors are the same when they are the same kind with the same text,
    /// status and timeout.
    pub open spec fn same_as(&self, other: &QueryError) -> bool {
        match (self, other) {
            (QueryError::Network(a), QueryError::Network(b)) => a@ == b@,
            (
                QueryError::Http { status: s1, message: m1 },
                QueryError::Http { status: s2, message: m2 },
            ) => s1 == s2 && m1@ == m2@,
            (QueryError::Unauthorized, QueryError::Unauthorized) => true,
            (QueryError::NotFound(a), QueryError::NotFound(b)) => a@ == b@,
            (QueryError::Validation(a), QueryError::Validation(b)) => a@ == b@,
            (QueryError::Timeout(a), QueryError::Timeout(b)) => a == b,
            (QueryError::Custom(a), QueryError::Custom(b)) => a@ == b@,
            (QueryError::Cancelled, QueryError::Cancelled) => true,
            _ => false,
        }
    }

    /// The human-readable message of the error.
    pub open spec fn message_text(&self) -> Seq<char> {
        match self {
            QueryError::Network(s) => "Network error: "@ + s@,
            QueryError::Http { status, message } => "HTTP error "@ + decimal(*status as nat) + ": "@
                + message@,
            QueryError::Unauthorized => "Unauthorized"@,
            QueryError::NotFound(s) => "Not found: "@ + s@,
            QueryError::Validation(s) => "Validation error: "@ + s@,
            QueryError::Timeout(d) => "Timeout after "@ + duration_text(d.nanos()),
            QueryError::Custom(s) => s@,
            QueryError::Cancelled => "Query cancelled"@,
        }
    }

    /// Check if this error is retryable.
    pub fn is_retryable(&self) -> (b: bool)
        ensures
            b == self.retryable(),
    {
        match self {
            QueryError::Network(_) => true,
            QueryError::Timeout(_) => true,
            QueryError::Http { status, .. } => 500 <= *status && *status <= 599,
            _ => false,
        }
    }

    /// Create a network error.
    pub fn network(msg: &str) -> (e: QueryError)
        ensures
            e matches QueryError::Network(m) && m@ == msg@,
    {
        QueryError::Network(String::from_str(msg))
    }

    /// Create a custom error.
    pub fn custom(msg: &str) -> (e: QueryError)
        ensures
            e matches QueryError::Custom(m) && m@ == msg@,
    {
        QueryError::Custom(String::from_str(msg))
    }

    /// The human-readable message of the error, such as
    /// `Network error: boom` or `HTTP error 404: not found`.
    pub fn message(&self) -> (s: String)
        ensures
            s@ == self.message_text(),
    {
        let mut s = String::new();
        match self {
            QueryError::Network(m) => {
                s.append("Network error: ");
                s.append(m.as_str());
            },
            QueryError::Http { status, message } => {
                s.append("HTTP error ");
                push_decimal(&mut s, *status as u128);
                s.append(": ");
                s.append(message.as_str());
            },
            QueryError::Unauthorized => {
                s.append("Unauthorized");
            },
            QueryError::NotFound(m) => {
                s.append("Not found: ");
                s.append(m.as_str());
            },
            QueryError::Validation(m) => {
                s.append("Validation error: ");
                s.append(m.as_str());
            },
            QueryError::Timeout(d) => {
                s.append("Timeout after ");
                let t = d.debug_text();
                s.append(t.as_str());
            },
            QueryError::Custom(m) => {
                s.append(m.as_str());
            },
            QueryError::Cancelled => {
                s.append("Query cancelled");
            },
        }
        assert(s@ =~= self.message_text());
        s
    }
}

impl PartialEq for QueryError {
    fn eq(&self, other: &QueryError) -> (r: bool) {
        match (self, other) {
            (QueryError::Network(a), QueryError::Network(b)) => a.eq(b),
            (
                QueryError::Http { status: s1, message: m1 },
                QueryError::Http { status: s2, message: m2 },
            ) => *s1 == *s2 && m1.eq(m2),
            (QueryError::Unauthorized, QueryError::Unauthorized) => true,
            (QueryError::NotFound(a), QueryError::NotFound(b)) => a.eq(b),
            (QueryError::Validation(a), QueryError::Validation(b)) => a.eq(b),
            (QueryError::Timeout(a), QueryError::Timeout(b)) => *a == *b,
            (QueryError::Custom(a), QueryError::Custom(b)) => a.eq(b),
            (QueryError::Cancelled, QueryError::Cancelled) => true,
            _ => false,
        }
    }
}

impl PartialEqSpecImpl for QueryError {
    open spec fn obeys_eq_spec() -> bool {
        true
    }

    open spec fn eq_spec(&self, other: &QueryError) -> bool {
        self.same_as(other)
    }
}

impl From<String> for QueryError {
    fn from(s: String) -> (e: QueryError) {
        QueryError::Custom(s)
    }
}

impl FromSpecImpl<String> for QueryError {
    open spec fn obeys_from_spec() -> bool {
        true
    }

    open spec fn from_spec(s: String) -> QueryError {
        QueryError::Custom(s)
    }
}

impl FromSpecImpl<&str> for QueryError {
    /// A `String` cannot be named from a `&str` in specifications; what `from`
    /// returns is stated on the method itself.
    open spec fn obeys_from_spec() -> bool {
        false
    }

    open spec fn from_spec(s: &str) -> QueryError {
        QueryError::Unauthorized
    }
}

impl From<&str> for QueryError {
    fn from(s: &str) -> (e: QueryError)
        ensures
            e matches QueryError::Custom(m) && m@ == s@,
    {
        QueryError::Custom(String::from_str(s))
    }
}

} // verus!
