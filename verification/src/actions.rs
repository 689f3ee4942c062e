//! The units of work that a manifest holds.
//!
//! Every kind of action can be tried out and carried out. To try an action
//! out changes nothing on the host.

use crate::context::VariableContext;
use crate::errors::ActionError;
use crate::manifests::Manifest;
use crate::package::{
    begun, binding, declared_names, install_message, reported, texts, InstallRun, InstallRunView,
    Package, PackageInstall, PackageView, ProviderCall,
};
use crate::providers::{text_of, ProviderRegistry};
use vstd::prelude::*;
use vstd::string::StringExecFns;

verus! {

/// One declared change of the system.
#[derive(Debug)]
pub enum Actions {
    /// Install packages.
    PackageInstall(PackageInstall),
}

/// What an action reports when it succeeds.
#[derive(Debug)]
pub struct ActionResult {
    pub message: String,
}

/// A declaration names a kind of action that the engine does not know.
#[derive(Debug)]
pub struct UnrecognizedAction {
    pub kind: String,
}

/// The kind that declares a package installation.
pub open spec fn package_install_kind() -> Seq<char> {
    "package.install"@
}

impl Actions {
    /// The action that a declaration of the given kind stands for. A package
    /// installation is declared with a single `name` or with a `list`.
    pub fn declare(
        kind: &str,
        name: Option<String>,
        list: Vec<String>,
        provider: Option<String>,
        repository: Option<String>,
    ) -> (r: Result<Actions, UnrecognizedAction>)
        ensures
            match r {
                Ok(Actions::PackageInstall(package)) => {
                    &&& kind@ == package_install_kind()
                    &&& package@ == PackageView {
                        names: declared_names(text_of(name), texts(list@)),
                        provider: text_of(provider),
                        repository: text_of(repository),
                    }
                },
                Err(e) => kind@ != package_install_kind() && e.kind@ == kind@,
            },
    {
        let given = String::from_str(kind);
        if given == String::from_str("package.install") {
            Ok(Actions::PackageInstall(Package::new(name, list, provider, repository)))
        } else {
            Err(UnrecognizedAction { kind: given })
        }
    }

    /// What the action is, as the contracts see it.
    pub open spec fn package(&self) -> PackageView {
        match self {
            Actions::PackageInstall(package) => package@,
        }
    }

    /// Reports what the action would do, and does nothing.
    pub fn dry_run(
        &self,
        manifest: &Manifest,
        context: &VariableContext,
        providers: &ProviderRegistry,
    ) -> (r: Result<ActionResult, ActionError>)
        ensures
            reported(r) == match binding(self.package(), context@, providers@) {
                Ok(variant) => Ok(install_message(variant)),
                Err(e) => Err(e),
            },
    {
        match self {
            Actions::PackageInstall(package) => package.dry_run(manifest, context, providers),
        }
    }

    /// Begins to carry the action out.
    pub fn run(
        &self,
        manifest: &Manifest,
        context: &VariableContext,
        providers: &ProviderRegistry,
    ) -> (r: Result<InstallRun, ActionError>)
        ensures
            begun(r) == match binding(self.package(), context@, providers@) {
                Ok(variant) => Ok(InstallRunView { variant, pending: ProviderCall::Available }),
                Err(e) => Err(e),
            },
    {
        match self {
            Actions::PackageInstall(package) => package.run(manifest, context, providers),
        }
    }
}

} // verus!
