//! The errors of the engine.

use vstd::prelude::*;
use vstd::string::StringExecFns;

verus! {

/// Why a set of manifests cannot be loaded.
#[derive(Debug)]
pub enum LoadError {
    /// A manifest names a dependency that is not in the set.
    UnknownDependency { manifest: String, dependency: String },
    /// The dependencies form a closed walk.
    DependencyCycle,
}

/// The text that describes a load error to the operator.
pub open spec fn load_description(e: LoadError) -> Seq<char> {
    match e {
        LoadError::UnknownDependency { manifest, dependency } => "manifest "@ + manifest@
            + " depends on "@ + dependency@ + ", which does not exist"@,
        LoadError::DependencyCycle => "the manifests depend on each other in a circle"@,
    }
}

impl LoadError {
    /// Describes the error to the operator.
    pub fn message(&self) -> (text: String)
        ensures
            text@ == load_description(*self),
    {
        match self {
            LoadError::UnknownDependency { manifest, dependency } => {
                let mut text = String::from_str("manifest ");
                text.append(manifest.as_str());
                text.append(" depends on ");
                text.append(dependency.as_str());
                text.append(", which does not exist");
                text
            },
            LoadError::DependencyCycle => String::from_str(
                "the manifests depend on each other in a circle",
            ),
        }
    }
}

/// Why an action could not be carried out.
#[derive(Debug)]
pub enum ActionError {
    /// A template names an undefined variable or is malformed.
    TemplateError { message: String },
    /// The provider is missing and could not be set up.
    ProviderUnavailable { provider: String },
    /// A repository could not be added.
    RepositoryError { repository: String, cause: String },
    /// The provider reported that the installation failed.
    InstallError { message: String },
    /// The action pins a provider that is not registered.
    UnknownProvider { name: String },
    /// No provider is registered as the default of the platform.
    NoDefaultProvider { platform: String },
}

/// An [`ActionError`] as the contracts see it.
pub ghost enum ActionErrorView {
    TemplateError { message: Seq<char> },
    ProviderUnavailable { provider: Seq<char> },
    RepositoryError { repository: Seq<char>, cause: Seq<char> },
    InstallError { message: Seq<char> },
    UnknownProvider { name: Seq<char> },
    NoDefaultProvider { platform: Seq<char> },
}

impl View for ActionError {
    type V = ActionErrorView;

    open spec fn view(&self) -> ActionErrorView {
        match self {
            ActionError::TemplateError { message } => ActionErrorView::TemplateError {
                message: message@,
            },
            ActionError::ProviderUnavailable { provider } => ActionErrorView::ProviderUnavailable {
                provider: provider@,
            },
            ActionError::RepositoryError { repository, cause } => ActionErrorView::RepositoryError {
                repository: repository@,
                cause: cause@,
            },
            ActionError::InstallError { message } => ActionErrorView::InstallError {
                message: message@,
            },
            ActionError::UnknownProvider { name } => ActionErrorView::UnknownProvider {
                name: name@,
            },
            ActionError::NoDefaultProvider { platform } => ActionErrorView::NoDefaultProvider {
                platform: platform@,
            },
        }
    }
}

/// The text that describes an error to the operator.
pub open spec fn description(e: ActionErrorView) -> Seq<char> {
    match e {
        ActionErrorView::TemplateError { message } => message,
        ActionErrorView::ProviderUnavailable { provider } => "Provider unavailable"@,
        ActionErrorView::RepositoryError { repository, cause } => "failed to add repository"@,
        ActionErrorView::InstallError { message } => message,
        ActionErrorView::UnknownProvider { name } => "Unknown provider: "@ + name,
        ActionErrorView::NoDefaultProvider { platform } => "No default provider for "@ + platform,
    }
}

impl ActionError {
    /// Describes the error to the operator. What a provider reported is
    /// handed on unchanged.
    pub fn message(&self) -> (text: String)
        ensures
            text@ == description(self@),
    {
        match self {
            ActionError::TemplateError { message } => message.clone(),
            ActionError::ProviderUnavailable { provider } => String::from_str(
                "Provider unavailable",
            ),
            ActionError::RepositoryError { repository, cause } => String::from_str(
                "failed to add repository",
            ),
            ActionError::InstallError { message } => message.clone(),
            ActionError::UnknownProvider { name } => {
                let mut text = String::from_str("Unknown provider: ");
                text.append(name.as_str());
                text
            },
            ActionError::NoDefaultProvider { platform } => {
                let mut text = String::from_str("No default provider for ");
                text.append(platform.as_str());
                text
            },
        }
    }

    /// A copy of the error.
    pub fn duplicate(&self) -> (copy: ActionError)
        ensures
            copy@ == self@,
    {
        match self {
            ActionError::TemplateError { message } => ActionError::TemplateError {
                message: message.clone(),
            },
            ActionError::ProviderUnavailable { provider } => ActionError::ProviderUnavailable {
                provider: provider.clone(),
            },
            ActionError::RepositoryError { repository, cause } => ActionError::RepositoryError {
                repository: repository.clone(),
                cause: cause.clone(),
            },
            ActionError::InstallError { message } => ActionError::InstallError {
                message: message.clone(),
            },
            ActionError::UnknownProvider { name } => ActionError::UnknownProvider {
                name: name.clone(),
            },
            ActionError::NoDefaultProvider { platform } => ActionError::NoDefaultProvider {
                platform: platform.clone(),
            },
        }
    }
}

} // verus!
