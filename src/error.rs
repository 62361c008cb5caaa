use vstd::prelude::*;

verus! {

/// The errors with which the service's process stops or a request fails.
/// Each carries the message that is shown for it.
#[derive(Debug)]
pub enum ServiceError {
    DBConnectionError { error_message: String },
    BindAddressError { error_message: String },
    RunServerError { error_message: String },
    Unauthorized { error_message: String },
    InternalServerError { error_message: String },
    BadRequest { error_message: String },
    NotFound { error_message: String },
}

impl ServiceError {
    /// The message that an error of any kind carries.
    pub open spec fn message_of(&self) -> Seq<char> {
        match self {
            ServiceError::DBConnectionError { error_message } => error_message@,
            ServiceError::BindAddressError { error_message } => error_message@,
            ServiceError::RunServerError { error_message } => error_message@,
            ServiceError::Unauthorized { error_message } => error_message@,
            ServiceError::InternalServerError { error_message } => error_message@,
            ServiceError::BadRequest { error_message } => error_message@,
            ServiceError::NotFound { error_message } => error_message@,
        }
    }

    /// The text shown for the error: its message, as it is.
    pub fn message(&self) -> (r: &str)
        ensures
            r@ == self.message_of(),
    {
        match self {
            ServiceError::DBConnectionError { error_message } => error_message.as_str(),
            ServiceError::BindAddressError { error_message } => error_message.as_str(),
            ServiceError::RunServerError { error_message } => error_message.as_str(),
            ServiceError::Unauthorized { error_message } => error_message.as_str(),
            ServiceError::InternalServerError { error_message } => error_message.as_str(),
            ServiceError::BadRequest { error_message } => error_message.as_str(),
            ServiceError::NotFound { error_message } => error_message.as_str(),
        }
    }
}

} // verus!
