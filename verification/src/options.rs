//! What the person running the tool asked for.

use vstd::prelude::*;
use crate::configuration::{loaded, Configuration};
use crate::document::Value;
use crate::error::{fails_as, fails_with, Failure, FailureKind};

verus! {

/// The options of a run.
#[derive(Debug)]
pub struct Options {
    /// The manifest to read instead of the one of the working directory.
    pub manifest_path: Option<String>,
    /// The name of the package to list the versions of.
    pub package: Option<String>,
    /// Whether a package without configuration is run with the defaults.
    pub default_configuration: bool,
}

impl Options {
    /// Settles the configuration of the run from the metadata that the
    /// package brings under `markdown-versions`.
    ///
    /// Metadata that is there is read, and must describe a configuration.
    /// Where there is none, the defaults are used if the options ask for
    /// them, and the run fails otherwise, before any source of versions is
    /// touched.
    pub fn resolve_configuration(&self, metadata: Option<&Value>) -> (r: Result<
        Configuration,
        Failure,
    >)
        ensures
            match metadata {
                Some(raw) => match loaded(raw) {
                    Some(configuration) => r matches Ok(c) && c@ == configuration && c.wf(),
                    None => fails_as(r, FailureKind::Config),
                },
                None => if self.default_configuration {
                    r matches Ok(c) && c.is_default() && c.wf()
                } else {
                    fails_with(
                        r,
                        FailureKind::Config,
                        "missing `package.metadata.markdown-versions` field",
                    )
                },
            },
    {
        match metadata {
            Some(raw) => Configuration::load(raw),
            None => {
                if self.default_configuration {
                    Ok(Configuration::default())
                } else {
                    Err(
                        Failure::new(
                            FailureKind::Config,
                            "missing `package.metadata.markdown-versions` field",
                        ),
                    )
                }
            },
        }
    }
}

} // verus!
