//! Where the client works: its directories and the API host it talks to.
use vstd::prelude::*;

use std::path::PathBuf;

verus! {

/// Declares `std::path::PathBuf`, a path of the file system; opaque here, only
/// carried and compared.
#[verifier::external_type_specification]
#[verifier::external_body]
pub struct ExPathBuf(PathBuf);

/// The client's settings: working directory, home of its own files, and
/// whether it talks to the test environment.
#[derive(Debug)]
pub struct Config {
    cwd: PathBuf,
    home_dir: PathBuf,
    test_env: bool,
}

/// The API host of the live service, or of the test environment.
pub open spec fn host_url(test_env: bool) -> Seq<char> {
    if test_env {
        "https://api.test.mod.io/v1"@
    } else {
        "https://api.mod.io/v1"@
    }
}

impl Config {
    pub closed spec fn cwd_path(&self) -> PathBuf {
        self.cwd
    }

    pub closed spec fn home_path(&self) -> PathBuf {
        self.home_dir
    }

    pub closed spec fn uses_test_env(&self) -> bool {
        self.test_env
    }

    /// Settings for the live service.
    pub fn new(cwd: PathBuf, home_dir: PathBuf) -> (r: Self)
        ensures
            r.cwd_path() == cwd,
            r.home_path() == home_dir,
            !r.uses_test_env(),
    {
        Config { cwd, home_dir, test_env: false }
    }

    /// Chooses between the live service and the test environment.
    pub fn configure(&mut self, test_env: bool) -> (r: Result<(), String>)
        ensures
            r is Ok,
            final(self).uses_test_env() == test_env,
            final(self).cwd_path() == old(self).cwd_path(),
            final(self).home_path() == old(self).home_path(),
    {
        self.test_env = test_env;
        Ok(())
    }

    /// The directory that holds the client's own files.
    pub fn home(&self) -> (r: &PathBuf)
        ensures
            *r == self.home_path(),
    {
        &self.home_dir
    }

    /// The working directory.
    pub fn cwd(&self) -> (r: &PathBuf)
        ensures
            *r == self.cwd_path(),
    {
        &self.cwd
    }

    /// The base URL of the API that the settings point at.
    pub fn host(&self) -> (r: &'static str)
        ensures
            r@ == host_url(self.uses_test_env()),
    {
        if self.test_env {
            "https://api.test.mod.io/v1"
        } else {
            "https://api.mod.io/v1"
        }
    }
}

} // verus!
