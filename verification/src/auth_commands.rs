//! State behind the credential commands that the front end calls.

use vstd::prelude::*;

use crate::credentials::{derived_key, CredentialsManager, CREDENTIALS_FILE};
use crate::paths::joined_path;
use crate::text::owned;

verus! {

/// Message of the commands when no credentials manager could be made.
pub const MANAGER_NOT_INITIALIZED: &'static str = "Credentials manager not initialized";

/// The credentials manager, when one could be made at start-up.
pub struct CredentialsState {
    pub manager: Option<CredentialsManager>,
}

impl CredentialsState {
    /// The state for the store in `app_data_dir`, given the machine identity
    /// the application read (or the error it met). Without an identity there is
    /// no manager, and every command then fails.
    pub fn new(app_data_dir: String, machine_id: Result<String, String>) -> (r: Self)
        ensures
            match machine_id {
                Ok(id) => r.manager matches Some(m) && m.key() == derived_key(id@) && m.path()
                    == joined_path(app_data_dir@, CREDENTIALS_FILE@),
                Err(_) => r.manager is None,
            },
    {
        match CredentialsManager::new(app_data_dir, machine_id) {
            Ok(manager) => CredentialsState { manager: Some(manager) },
            Err(_) => CredentialsState { manager: None },
        }
    }

    /// The manager, or the error that the commands report without one.
    pub fn get_manager(&self) -> (r: Result<&CredentialsManager, String>)
        ensures
            match self.manager {
                Some(m) => r matches Ok(x) && *x == m,
                None => r matches Err(e) && e@ == MANAGER_NOT_INITIALIZED@,
            },
    {
        match &self.manager {
            Some(m) => Ok(m),
            None => Err(owned(MANAGER_NOT_INITIALIZED)),
        }
    }
}

} // verus!
