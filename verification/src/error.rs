//! The library's error type.
use vstd::prelude::*;

verus! {

/// Errors the library reports. Each variant carries a human-readable message.
#[derive(Debug, Clone, PartialEq, Eq)]
pub enum AppError {
    /// Not logged in, or Odoo refused the credentials.
    Auth(String),
    /// Odoo answered with a fault or with something the client cannot use.
    Odoo(String),
    /// The timer was asked to do something its current state does not allow.
    Timer(String),
    /// The OS credential store failed.
    Keyring(String),
    /// Invalid input or any other failure.
    General(String),
    /// The local database failed.
    Database(String),
    /// The HTTP transport failed.
    Http(String),
}

pub type AppResult<T> = Result<T, AppError>;

impl AppError {
    /// The text carried by the error, whatever its kind.
    pub open spec fn text(&self) -> Seq<char> {
        match self {
            AppError::Auth(m) => m@,
            AppError::Odoo(m) => m@,
            AppError::Timer(m) => m@,
            AppError::Keyring(m) => m@,
            AppError::General(m) => m@,
            AppError::Database(m) => m@,
            AppError::Http(m) => m@,
        }
    }

    /// The text carried by the error.
    pub fn message(&self) -> (res: String)
        ensures
            res@ == self.text(),
    {
        match self {
            AppError::Auth(m) => m.clone(),
            AppError::Odoo(m) => m.clone(),
            AppError::Timer(m) => m.clone(),
            AppError::Keyring(m) => m.clone(),
            AppError::General(m) => m.clone(),
            AppError::Database(m) => m.clone(),
            AppError::Http(m) => m.clone(),
        }
    }
}

/// An error raised while talking to Odoo; it becomes `AppError::Odoo`.
#[derive(Debug, Clone, PartialEq, Eq)]
pub struct OdooError(pub String);

impl From<OdooError> for AppError {
    fn from(e: OdooError) -> (r: AppError) {
        AppError::Odoo(e.0)
    }
}

impl vstd::std_specs::convert::FromSpecImpl<OdooError> for AppError {
    open spec fn obeys_from_spec() -> bool {
        true
    }

    open spec fn from_spec(e: OdooError) -> AppError {
        AppError::Odoo(e.0)
    }
}

} // verus!
