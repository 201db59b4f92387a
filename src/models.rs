//! The request forms and the envelope of the service's answers.

use vstd::prelude::*;

use crate::error::{Error, LufaError};

verus! {

/// The form that logs a user in.
#[derive(Debug, Clone, PartialEq, Eq)]
pub struct LoginReqForm {
    pub email: String,
    pub password: String,
}

/// A form that names a user.
#[derive(Debug, Clone, PartialEq, Eq)]
pub struct PerUserForm {
    pub user_id: String,
}

/// A form that names an order.
#[derive(Debug, Clone, PartialEq, Eq)]
pub struct PerOrderForm {
    pub order_id: String,
}

/// The envelope of the service's answers.
#[derive(Debug, Clone, PartialEq, Eq)]
pub struct ApiResponse<T> {
    pub success: bool,
    pub data: Option<T>,
    pub message: Option<String>,
}

impl<T> ApiResponse<T> {
    /// The data of the answer, or an error with `message` where it carries none.
    pub fn into_data(self, message: &str) -> (r: Result<T, Error>)
        ensures
            match self.data {
                Some(d) => r == Ok::<T, Error>(d),
                None => r matches Err(Error::Lufa { source }) && source.message@ == message@,
            },
    {
        match self.data {
            Some(d) => Ok(d),
            None => Err(Error::Lufa { source: LufaError { message: message.to_owned() } }),
        }
    }
}

} // verus!
