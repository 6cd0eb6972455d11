//! Choosing the package whose versions are listed.

use vstd::prelude::*;
use crate::error::{fails_with, Failure, FailureKind};
use crate::text::optional_text;

verus! {

/// A package of the workspace: its name and the path of its manifest.
#[derive(Debug)]
pub struct PackageEntry {
    pub name: String,
    pub manifest_path: String,
}

/// How far the choice has come.
#[derive(Clone, Copy, Debug, PartialEq, Eq, Structural)]
pub enum Selection {
    /// The package at this index of the list was chosen.
    Package(usize),
    /// There are several packages and nothing to tell them apart: the choice
    /// falls on the manifest of the working directory, whose path the
    /// caller has to supply.
    NeedsWorkingDirectory,
}

/// Whether the package at `at` is the first one named `name`.
pub open spec fn first_named(packages: Seq<PackageEntry>, name: Seq<char>, at: int) -> bool {
    &&& 0 <= at < packages.len()
    &&& packages[at].name@ == name
    &&& forall|k: int| 0 <= k < at ==> packages[k].name@ != name
}

/// Whether no package is named `name`.
pub open spec fn none_named(packages: Seq<PackageEntry>, name: Seq<char>) -> bool {
    forall|k: int| 0 <= k < packages.len() ==> packages[k].name@ != name
}

/// Whether the package at `at` is the first one whose manifest is `path`.
pub open spec fn first_at_manifest(packages: Seq<PackageEntry>, path: Seq<char>, at: int) -> bool {
    &&& 0 <= at < packages.len()
    &&& packages[at].manifest_path@ == path
    &&& forall|k: int| 0 <= k < at ==> packages[k].manifest_path@ != path
}

/// Whether no package has the manifest `path`.
pub open spec fn none_at_manifest(packages: Seq<PackageEntry>, path: Seq<char>) -> bool {
    forall|k: int| 0 <= k < packages.len() ==> packages[k].manifest_path@ != path
}

/// The first package named `name`.
pub fn find_named(packages: &Vec<PackageEntry>, name: &str) -> (r: Option<usize>)
    ensures
        match r {
            Some(at) => first_named(packages@, name@, at as int),
            None => none_named(packages@, name@),
        },
{
    let wanted = name.to_owned();
    let mut i: usize = 0;
    while i < packages.len()
        invariant
            i <= packages.len(),
            wanted@ == name@,
            forall|k: int| 0 <= k < i ==> packages@[k].name@ != name@,
        decreases packages.len() - i,
    {
        if packages[i].name == wanted {
            return Some(i);
        }
        i += 1;
    }
    None
}

/// The first package whose manifest is `path`.
pub fn find_at_manifest(packages: &Vec<PackageEntry>, path: &str) -> (r: Option<usize>)
    ensures
        match r {
            Some(at) => first_at_manifest(packages@, path@, at as int),
            None => none_at_manifest(packages@, path@),
        },
{
    let wanted = path.to_owned();
    let mut i: usize = 0;
    while i < packages.len()
        invariant
            i <= packages.len(),
            wanted@ == path@,
            forall|k: int| 0 <= k < i ==> packages@[k].manifest_path@ != path@,
        decreases packages.len() - i,
    {
        if packages[i].manifest_path == wanted {
            return Some(i);
        }
        i += 1;
    }
    None
}

/// Turns what a search found into the outcome of the choice.
fn chosen(found: Option<usize>) -> (r: Result<Selection, Failure>)
    ensures
        match found {
            Some(at) => r == Ok::<Selection, Failure>(Selection::Package(at)),
            None => fails_with(r, FailureKind::Resolution, "failed to resolve package"),
        },
{
    match found {
        Some(at) => Ok(Selection::Package(at)),
        None => Err(Failure::new(FailureKind::Resolution, "failed to resolve package")),
    }
}

/// What the choice comes to, given the packages, the name asked for and
/// the manifest asked for.
///
/// A name decides alone: the first package of that name is chosen. Without
/// a name, the only package of a workspace is chosen. Among several, the
/// first one with the manifest asked for is chosen; where no manifest was
/// asked for, the working directory decides.
pub open spec fn selects(
    packages: Seq<PackageEntry>,
    package: Option<Seq<char>>,
    manifest_path: Option<Seq<char>>,
    r: Result<Selection, Failure>,
) -> bool {
    let failed = fails_with(r, FailureKind::Resolution, "failed to resolve package");
    match package {
        Some(name) => match r {
            Ok(Selection::Package(at)) => first_named(packages, name, at as int),
            Ok(Selection::NeedsWorkingDirectory) => false,
            Err(_) => failed && none_named(packages, name),
        },
        None => if packages.len() == 0 {
            failed
        } else if packages.len() == 1 {
            r == Ok::<Selection, Failure>(Selection::Package(0))
        } else {
            match manifest_path {
                Some(path) => match r {
                    Ok(Selection::Package(at)) => first_at_manifest(packages, path, at as int),
                    Ok(Selection::NeedsWorkingDirectory) => false,
                    Err(_) => failed && none_at_manifest(packages, path),
                },
                None => r == Ok::<Selection, Failure>(Selection::NeedsWorkingDirectory),
            }
        },
    }
}

/// Chooses the package whose versions are listed.
///
/// Where the outcome is `NeedsWorkingDirectory`, the caller calls again
/// with the path of the manifest in the working directory.
pub fn select_package(
    packages: &Vec<PackageEntry>,
    package: Option<&str>,
    manifest_path: Option<&str>,
) -> (r: Result<Selection, Failure>)
    ensures
        selects(packages@, optional_text(package), optional_text(manifest_path), r),
{
    if let Some(name) = package {
        return chosen(find_named(packages, name));
    }
    if packages.len() == 0 {
        chosen(None)
    } else if packages.len() == 1 {
        Ok(Selection::Package(0))
    } else {
        match manifest_path {
            Some(path) => chosen(find_at_manifest(packages, path)),
            None => Ok(Selection::NeedsWorkingDirectory),
        }
    }
}

} // verus!
