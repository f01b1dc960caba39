//! What the update check reports to the front end.
use vstd::prelude::*;

use crate::error::AppError;
use vstd::string::StringExecFns;

verus! {

/// An available update, as the update screen shows it.
#[derive(Debug, Clone, PartialEq, Eq)]
pub struct UpdateInfo {
    pub available: bool,
    pub version: Option<String>,
    pub body: Option<String>,
    pub date: Option<String>,
}

/// A release the updater found: its version, release notes and date.
#[derive(Debug, Clone, PartialEq, Eq)]
pub struct FoundUpdate {
    pub version: String,
    pub body: Option<String>,
    pub date: Option<String>,
}

/// The report of an update check: available exactly when a release was
/// found, and then with its version, notes and date; otherwise all empty.
pub fn update_info(found: Option<FoundUpdate>) -> (r: UpdateInfo)
    ensures
        r.available == found is Some,
        match found {
            Some(u) => r.version == Some(u.version) && r.body == u.body && r.date == u.date,
            None => r.version is None && r.body is None && r.date is None,
        },
{
    match found {
        Some(u) => UpdateInfo { available: true, version: Some(u.version), body: u.body, date: u.date },
        None => UpdateInfo { available: false, version: None, body: None, date: None },
    }
}

/// The error of an update check that could not be made.
pub fn update_check_failed(reason: &str) -> (e: AppError)
    ensures
        e is General && e.text() == "Update check failed: "@ + reason@,
{
    let mut m = String::from_str("Update check failed: ");
    m.append(reason);
    AppError::General(m)
}

/// The error of an updater that could not be set up.
pub fn updater_unavailable(reason: &str) -> (e: AppError)
    ensures
        e is General && e.text() == "Failed to build updater: "@ + reason@,
{
    let mut m = String::from_str("Failed to build updater: ");
    m.append(reason);
    AppError::General(m)
}

} // verus!
