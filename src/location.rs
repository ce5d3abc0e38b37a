//! Where the journal is stored.
use etcetera::app_strategy::{AppStrategy, AppStrategyArgs, Xdg};
use std::path::PathBuf;
use vstd::prelude::*;

use crate::db::DbError;

verus! {

#[verifier::external_type_specification]
#[verifier::external_body]
pub struct ExPathBuf(PathBuf);

#[verifier::external_type_specification]
#[verifier::external_body]
pub struct ExXdg(Xdg);

/// Relies on etcetera's `Xdg::new`: the XDG directory layout for an
/// application, or `None` where the home directory cannot be found.
#[verifier::external_body]
fn xdg_strategy(top_level_domain: &str, author: &str, app_name: &str) -> (r: Option<Xdg>) {
    Xdg::new(
        AppStrategyArgs {
            top_level_domain: top_level_domain.to_string(),
            author: author.to_string(),
            app_name: app_name.to_string(),
        },
    ).ok()
}

/// Relies on etcetera's `AppStrategy::in_data_dir`: a path under the
/// application's data directory.
#[verifier::external_body]
fn in_data_dir(xdg: &Xdg, name: &str) -> (r: PathBuf) {
    xdg.in_data_dir(name)
}

/// The path of the file that holds the journal.
pub struct DbLocation(PathBuf);

impl View for DbLocation {
    type V = PathBuf;

    closed spec fn view(&self) -> PathBuf {
        self.0
    }
}

impl DbLocation {
    /// The journal file `db` in the user's data directory for this
    /// application; a configuration error where that cannot be resolved.
    pub fn locate() -> (r: Result<DbLocation, DbError>)
        ensures
            r is Err ==> r->Err_0 == DbError::Config,
    {
        match xdg_strategy("io.github", "arzg", "journal") {
            Some(xdg) => Ok(DbLocation(in_data_dir(&xdg, "db"))),
            None => Err(DbError::Config),
        }
    }

    /// A location at the path given.
    pub fn at(path: PathBuf) -> (r: DbLocation)
        ensures
            r@ == path,
    {
        DbLocation(path)
    }

    pub fn path(&self) -> (r: &PathBuf)
        ensures
            *r == self@,
    {
        &self.0
    }
}

} // verus!
