use vstd::prelude::*;

verus! {

/// Every failure the session can report to its caller.
#[derive(Debug)]
pub enum SessionError {
    /// The connect target is not a `host:port` socket address.
    InvalidAddress,
    /// The protocol layer could not open a connection; carries its description.
    ConnectionFailed(String),
    /// An unsubscribe named a topic that has no recorded interest.
    NotSubscribed,
    /// A write carried a value that is not a number, a string or a boolean.
    UnsupportedValueType,
    /// Creating a publisher or sending a value failed; carries the description.
    PublishError(String),
    /// An event could not be delivered to the presentation layer.
    NotifyError(String),
}

impl SessionError {
    /// The text returned at the command boundary.
    pub fn message(&self) -> (r: String)
        ensures
            match self {
                SessionError::ConnectionFailed(d) => r@ == d@,
                SessionError::PublishError(d) => r@ == d@,
                SessionError::NotifyError(d) => r@ == d@,
                SessionError::InvalidAddress => r@ == "InvalidIp"@,
                SessionError::NotSubscribed => r@ == "Not subscribed to topic"@,
                SessionError::UnsupportedValueType => r@ == "Not a valid nt Type"@,
            },
    {
        match self {
            SessionError::InvalidAddress => String::from_str("InvalidIp"),
            SessionError::ConnectionFailed(d) => d.clone(),
            SessionError::NotSubscribed => String::from_str("Not subscribed to topic"),
            SessionError::UnsupportedValueType => String::from_str("Not a valid nt Type"),
            SessionError::PublishError(d) => d.clone(),
            SessionError::NotifyError(d) => d.clone(),
        }
    }
}

} // verus!
