//! Repository kinds and the predicate that decides whether a kind carries
//! derived index metadata.

use vstd::prelude::*;

verus! {

/// Repository types supported by the service.
#[derive(Clone, Debug, PartialEq, Eq, Structural)]
pub enum RepositoryType {
    /// Debian repository.
    Debian,
    /// Docker images repository.
    Docker,
    /// Generic file storage.
    Generic,
    /// Maven repository.
    Maven,
    /// Node.js/npm repository.
    Npm,
    /// NuGet repository.
    Nuget,
    /// OpenWRT repository.
    Opkg,
    /// RPM repository.
    Rpm,
    /// Vagrant boxes repository.
    Vagrant,
    /// The service sometimes reports a Debian repository as `deb` instead
    /// of `debian`. This crate enforces the use of `Debian`, converting
    /// `Deb` with [`RepositoryType::fixup`] when the service responds
    /// with it.
    Deb,
}

impl RepositoryType {
    /// Whether the service maintains derived index metadata (a package
    /// index) for repositories of this type. Only Debian and RPM
    /// repositories are indexed.
    pub fn is_indexed(&self) -> (r: bool)
        ensures
            r == (self is Debian || self is Rpm),
    {
        match self {
            RepositoryType::Debian => true,
            RepositoryType::Rpm => true,
            _ => false,
        }
    }

    /// Replaces the `Deb` alias with `Debian` and leaves every other kind
    /// unchanged.
    pub fn fixup(self) -> (r: RepositoryType)
        ensures
            self is Deb ==> r is Debian,
            !(self is Deb) ==> r == self,
    {
        match self {
            RepositoryType::Deb => RepositoryType::Debian,
            _ => self,
        }
    }
}

} // verus!
