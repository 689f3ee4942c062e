//! Package installation: what a manifest declares, the provider it is bound
//! to, and the protocol that installs it.
//!
//! The provider is a package manager on the host. The engine does not call
//! it: an installation is a small machine that names the next call, takes the
//! provider's reply and names the call after that, until it is done. The host
//! makes the calls.

use crate::actions::ActionResult;
use crate::context::VariableContext;
use crate::errors::{ActionError, ActionErrorView};
use crate::manifests::Manifest;
use crate::providers::{resolution, text_of, ProviderRegistry};
use vstd::prelude::*;
use vstd::string::StringExecFns;

verus! {

/// The texts of a list of strings.
pub open spec fn texts(list: Seq<String>) -> Seq<Seq<char>> {
    Seq::new(list.len(), |i: int| list[i]@)
}

/// The packages that a manifest asks for.
#[derive(Debug)]
pub struct Package {
    /// The packages to install, in declared order.
    pub names: Vec<String>,
    /// The provider that the manifest pins, if any.
    pub provider: Option<String>,
    /// An extra repository that the packages come from, if any.
    pub repository: Option<String>,
}

/// A package declaration used as an install action.
pub type PackageInstall = Package;

/// A [`Package`] as the contracts see it.
pub ghost struct PackageView {
    pub names: Seq<Seq<char>>,
    pub provider: Option<Seq<char>>,
    pub repository: Option<Seq<char>>,
}

impl View for Package {
    type V = PackageView;

    open spec fn view(&self) -> PackageView {
        PackageView {
            names: texts(self.names@),
            provider: text_of(self.provider),
            repository: text_of(self.repository),
        }
    }
}

/// A package declaration bound to the provider that installs it.
#[derive(Debug)]
pub struct PackageVariant {
    /// The packages to install.
    pub packages: Vec<String>,
    /// The name of the provider.
    pub provider: String,
    /// The repository to add before the installation, if any.
    pub repository: Option<String>,
}

/// A [`PackageVariant`] as the contracts see it.
pub ghost struct PackageVariantView {
    pub packages: Seq<Seq<char>>,
    pub provider: Seq<char>,
    pub repository: Option<Seq<char>>,
}

impl View for PackageVariant {
    type V = PackageVariantView;

    open spec fn view(&self) -> PackageVariantView {
        PackageVariantView {
            packages: texts(self.packages@),
            provider: self.provider@,
            repository: text_of(self.repository),
        }
    }
}

/// The packages that a declaration names: the single `name` where it is
/// given, else the `list`.
pub open spec fn declared_names(name: Option<Seq<char>>, list: Seq<Seq<char>>) -> Seq<Seq<char>> {
    match name {
        Some(name) => seq![name],
        None => list,
    }
}

/// The variant that a package is bound to, or why it cannot be bound.
pub open spec fn binding(
    package: PackageView,
    context: crate::context::VariableContextView,
    providers: crate::providers::RegistryView,
) -> Result<PackageVariantView, ActionErrorView> {
    match resolution(providers, package.provider, context.platform) {
        Ok(provider) => Ok(
            PackageVariantView {
                packages: package.names,
                provider,
                repository: package.repository,
            },
        ),
        Err(e) => Err(e),
    }
}

/// The parts, with the separator between each two.
pub open spec fn joined(parts: Seq<Seq<char>>, separator: Seq<char>) -> Seq<char>
    decreases parts.len(),
{
    if parts.len() == 0 {
        Seq::empty()
    } else if parts.len() == 1 {
        parts[0]
    } else {
        joined(parts.drop_last(), separator) + separator + parts.last()
    }
}

/// What a dry run reports of an installation.
pub open spec fn install_message(variant: PackageVariantView) -> Seq<char> {
    "Install "@ + joined(variant.packages, ", "@) + " from "@ + variant.provider
}

/// What a successful installation reports.
pub open spec fn success_message() -> Seq<char> {
    "Packages installed successfully"@
}

/// A copy of a list of strings.
pub fn copy_texts(list: &Vec<String>) -> (copy: Vec<String>)
    ensures
        copy@ == list@,
{
    let mut copy: Vec<String> = Vec::new();
    let mut i: usize = 0;
    while i < list.len()
        invariant
            i <= list.len(),
            copy@ == list@.take(i as int),
        decreases list.len() - i,
    {
        copy.push(list[i].clone());
        i += 1;
        assert(copy@ =~= list@.take(i as int));
    }
    assert(list@.take(list.len() as int) =~= list@);
    copy
}

/// A copy of an optional string.
pub fn copy_text(text: &Option<String>) -> (copy: Option<String>)
    ensures
        copy == *text,
{
    match text {
        Some(text) => Some(text.clone()),
        None => None,
    }
}

/// Joins the texts with `", "` between each two.
pub fn join(parts: &Vec<String>) -> (text: String)
    ensures
        text@ == joined(texts(parts@), ", "@),
{
    let mut text = String::new();
    let mut i: usize = 0;
    while i < parts.len()
        invariant
            i <= parts.len(),
            text@ == joined(texts(parts@).take(i as int), ", "@),
        decreases parts.len() - i,
    {
        if i > 0 {
            text.append(", ");
        }
        text.append(parts[i].as_str());
        i += 1;
        proof {
            let upto = texts(parts@).take(i as int);
            assert(upto.drop_last() =~= texts(parts@).take(i - 1));
            assert(upto.last() == parts@[i - 1]@);
            if i == 1 {
                assert(text@ =~= upto[0]);
            }
        }
    }
    assert(texts(parts@).take(parts.len() as int) =~= texts(parts@));
    text
}

impl Package {
    /// A package declaration. The single `name` is a shorthand for a list of
    /// one: where it is given, it is the package list, and `list` is dropped.
    pub fn new(
        name: Option<String>,
        list: Vec<String>,
        provider: Option<String>,
        repository: Option<String>,
    ) -> (package: Package)
        ensures
            package@.names == declared_names(text_of(name), texts(list@)),
            package@.provider == text_of(provider),
            package@.repository == text_of(repository),
    {
        let names = match name {
            Some(name) => {
                let mut names: Vec<String> = Vec::new();
                names.push(name);
                assert(texts(names@) =~= seq![name@]);
                names
            },
            None => list,
        };
        Package { names, provider, repository }
    }

    /// Binds the declaration to a provider: the one it pins, else the default
    /// of the platform.
    pub fn variant(&self, context: &VariableContext, providers: &ProviderRegistry) -> (r: Result<
        PackageVariant,
        ActionError,
    >)
        ensures
            bound(r) == binding(self@, context@, providers@),
    {
        match providers.resolve(&self.provider, context.platform()) {
            Ok(provider) => Ok(
                PackageVariant {
                    packages: copy_texts(&self.names),
                    provider,
                    repository: copy_text(&self.repository),
                },
            ),
            Err(e) => Err(e),
        }
    }

    /// Reports what an installation would do, and does nothing: the
    /// declaration is bound to its provider as a run would bind it, and no
    /// call to the provider is asked for.
    pub fn dry_run(
        &self,
        manifest: &Manifest,
        context: &VariableContext,
        providers: &ProviderRegistry,
    ) -> (r: Result<ActionResult, ActionError>)
        ensures
            reported(r) == match binding(self@, context@, providers@) {
                Ok(variant) => Ok(install_message(variant)),
                Err(e) => Err(e),
            },
    {
        match self.variant(context, providers) {
            Ok(variant) => {
                let mut message = String::from_str("Install ");
                let list = join(&variant.packages);
                message.append(list.as_str());
                message.append(" from ");
                message.append(variant.provider.as_str());
                Ok(ActionResult { message })
            },
            Err(e) => Err(e),
        }
    }

    /// Begins an installation: the declaration is bound to its provider, and
    /// the first call, whether the provider is available, is pending.
    pub fn run(
        &self,
        manifest: &Manifest,
        context: &VariableContext,
        providers: &ProviderRegistry,
    ) -> (r: Result<InstallRun, ActionError>)
        ensures
            begun(r) == match binding(self@, context@, providers@) {
                Ok(variant) => Ok(InstallRunView { variant, pending: ProviderCall::Available }),
                Err(e) => Err(e),
            },
    {
        match self.variant(context, providers) {
            Ok(variant) => Ok(InstallRun { variant, pending: ProviderCall::Available }),
            Err(e) => Err(e),
        }
    }
}

/// The outcome of a binding as the contracts see it.
pub open spec fn bound(r: Result<PackageVariant, ActionError>) -> Result<
    PackageVariantView,
    ActionErrorView,
> {
    match r {
        Ok(variant) => Ok(variant@),
        Err(e) => Err(e@),
    }
}

/// The outcome of an action as the contracts see it.
pub open spec fn reported(r: Result<ActionResult, ActionError>) -> Result<
    Seq<char>,
    ActionErrorView,
> {
    match r {
        Ok(result) => Ok(result.message@),
        Err(e) => Err(e@),
    }
}

/// The outcome of beginning an installation as the contracts see it.
pub open spec fn begun(r: Result<InstallRun, ActionError>) -> Result<
    InstallRunView,
    ActionErrorView,
> {
    match r {
        Ok(run) => Ok(run@),
        Err(e) => Err(e@),
    }
}

/// A call that the host makes to the provider of an installation.
#[derive(Clone, Copy, PartialEq, Eq, Structural, Debug)]
pub enum ProviderCall {
    /// Is the provider present on the host?
    Available,
    /// Set the provider up.
    Bootstrap,
    /// Is the repository of the variant registered?
    HasRepository,
    /// Register the repository of the variant.
    AddRepository,
    /// Install the packages of the variant.
    Install,
}

/// What the provider answered: whether the call succeeded (for a question,
/// whether the answer is yes), and the text that it printed.
#[derive(Debug)]
pub struct Reply {
    pub success: bool,
    pub output: String,
}

/// A [`Reply`] as the contracts see it.
pub ghost struct ReplyView {
    pub success: bool,
    pub output: Seq<char>,
}

impl View for Reply {
    type V = ReplyView;

    open spec fn view(&self) -> ReplyView {
        ReplyView { success: self.success, output: self.output@ }
    }
}

/// An installation under way: the variant, and the call whose reply is
/// awaited.
#[derive(Debug)]
pub struct InstallRun {
    variant: PackageVariant,
    pending: ProviderCall,
}

/// An [`InstallRun`] as the contracts see it.
pub ghost struct InstallRunView {
    pub variant: PackageVariantView,
    pub pending: ProviderCall,
}

impl View for InstallRun {
    type V = InstallRunView;

    closed spec fn view(&self) -> InstallRunView {
        InstallRunView { variant: self.variant@, pending: self.pending }
    }
}

/// Where an installation stands after a reply.
#[derive(Debug)]
pub enum Progress {
    /// Another call is pending.
    Call(InstallRun),
    /// The installation is over.
    Done(Result<ActionResult, ActionError>),
}

/// A [`Progress`] as the contracts see it.
pub ghost enum ProgressView {
    Call(InstallRunView),
    Done(Result<Seq<char>, ActionErrorView>),
}

impl View for Progress {
    type V = ProgressView;

    open spec fn view(&self) -> ProgressView {
        match self {
            Progress::Call(run) => ProgressView::Call(run@),
            Progress::Done(r) => ProgressView::Done(reported(*r)),
        }
    }
}

/// The call that follows once the provider is there: the question for the
/// repository where one is declared, else the installation.
pub open spec fn after_setup(variant: PackageVariantView) -> ProviderCall {
    if variant.repository is Some {
        ProviderCall::HasRepository
    } else {
        ProviderCall::Install
    }
}

/// The repository of a variant, empty where it declares none.
pub open spec fn repository_of(variant: PackageVariantView) -> Seq<char> {
    match variant.repository {
        Some(repository) => repository,
        None => Seq::empty(),
    }
}

/// The protocol of an installation: where it stands after the reply to the
/// pending call.
///
/// A provider that is not available is set up, and the installation ends
/// where that fails. A declared repository is added unless the provider has
/// it, and the installation ends where that fails. Then the packages are
/// installed, and what the provider reports of a failure is handed on as it
/// is.
pub open spec fn step(run: InstallRunView, reply: ReplyView) -> ProgressView {
    match run.pending {
        ProviderCall::Available => if reply.success {
            ProgressView::Call(InstallRunView { pending: after_setup(run.variant), ..run })
        } else {
            ProgressView::Call(InstallRunView { pending: ProviderCall::Bootstrap, ..run })
        },
        ProviderCall::Bootstrap => if reply.success {
            ProgressView::Call(InstallRunView { pending: after_setup(run.variant), ..run })
        } else {
            ProgressView::Done(
                Err(ActionErrorView::ProviderUnavailable { provider: run.variant.provider }),
            )
        },
        ProviderCall::HasRepository => if reply.success {
            ProgressView::Call(InstallRunView { pending: ProviderCall::Install, ..run })
        } else {
            ProgressView::Call(InstallRunView { pending: ProviderCall::AddRepository, ..run })
        },
        ProviderCall::AddRepository => if reply.success {
            ProgressView::Call(InstallRunView { pending: ProviderCall::Install, ..run })
        } else {
            ProgressView::Done(
                Err(
                    ActionErrorView::RepositoryError {
                        repository: repository_of(run.variant),
                        cause: reply.output,
                    },
                ),
            )
        },
        ProviderCall::Install => if reply.success {
            ProgressView::Done(Ok(success_message()))
        } else {
            ProgressView::Done(Err(ActionErrorView::InstallError { message: reply.output }))
        },
    }
}

impl InstallRun {
    /// The call that the host is to make next.
    pub fn pending(&self) -> (call: ProviderCall)
        ensures
            call == self@.pending,
    {
        self.pending
    }

    /// The variant that the calls are about.
    pub fn variant(&self) -> (variant: &PackageVariant)
        ensures
            variant@ == self@.variant,
    {
        &self.variant
    }

    /// Takes the reply to the pending call and says how the installation goes
    /// on.
    pub fn advance(self, reply: Reply) -> (progress: Progress)
        ensures
            progress@ == step(self@, reply@),
    {
        let InstallRun { variant, pending } = self;
        let next = if variant.repository.is_some() {
            ProviderCall::HasRepository
        } else {
            ProviderCall::Install
        };
        match pending {
            ProviderCall::Available => if reply.success {
                Progress::Call(InstallRun { variant, pending: next })
            } else {
                Progress::Call(InstallRun { variant, pending: ProviderCall::Bootstrap })
            },
            ProviderCall::Bootstrap => if reply.success {
                Progress::Call(InstallRun { variant, pending: next })
            } else {
                Progress::Done(Err(ActionError::ProviderUnavailable { provider: variant.provider }))
            },
            ProviderCall::HasRepository => if reply.success {
                Progress::Call(InstallRun { variant, pending: ProviderCall::Install })
            } else {
                Progress::Call(InstallRun { variant, pending: ProviderCall::AddRepository })
            },
            ProviderCall::AddRepository => if reply.success {
                Progress::Call(InstallRun { variant, pending: ProviderCall::Install })
            } else {
                let repository = match variant.repository {
                    Some(repository) => repository,
                    None => String::new(),
                };
                Progress::Done(Err(ActionError::RepositoryError { repository, cause: reply.output }))
            },
            ProviderCall::Install => if reply.success {
                Progress::Done(
                    Ok(ActionResult { message: String::from_str("Packages installed successfully") }),
                )
            } else {
                Progress::Done(Err(ActionError::InstallError { message: reply.output }))
            },
        }
    }
}

/// How many calls an installation can still make, the pending one included.
pub open spec fn remaining(call: ProviderCall) -> nat {
    match call {
        ProviderCall::Available => 5,
        ProviderCall::Bootstrap => 4,
        ProviderCall::HasRepository => 3,
        ProviderCall::AddRepository => 2,
        ProviderCall::Install => 1,
    }
}

/// The calls that an installation makes, in order, from where `run` stands,
/// with a provider that replies to each call as `provider` says.
pub open spec fn calls_made(
    run: InstallRunView,
    provider: spec_fn(ProviderCall) -> ReplyView,
) -> Seq<ProviderCall>
    decreases remaining(run.pending),
{
    match step(run, provider(run.pending)) {
        ProgressView::Call(next) => seq![run.pending] + calls_made(next, provider),
        ProgressView::Done(_) => seq![run.pending],
    }
}

/// How an installation ends, from where `run` stands, with a provider that
/// replies to each call as `provider` says.
pub open spec fn outcome(
    run: InstallRunView,
    provider: spec_fn(ProviderCall) -> ReplyView,
) -> Result<Seq<char>, ActionErrorView>
    decreases remaining(run.pending),
{
    match step(run, provider(run.pending)) {
        ProgressView::Call(next) => outcome(next, provider),
        ProgressView::Done(r) => r,
    }
}

/// An installation makes every call at most once, and at most five calls.
pub proof fn law_calls_are_made_once(
    run: InstallRunView,
    provider: spec_fn(ProviderCall) -> ReplyView,
)
    ensures
        calls_made(run, provider).len() <= remaining(run.pending),
        calls_made(run, provider)[0] == run.pending,
        forall|i: int, j: int|
            0 <= i < j < calls_made(run, provider).len() ==> remaining(
                calls_made(run, provider)[i],
            ) > remaining(calls_made(run, provider)[j]),
    decreases remaining(run.pending),
{
    match step(run, provider(run.pending)) {
        ProgressView::Call(next) => {
            law_calls_are_made_once(next, provider);
            let rest = calls_made(next, provider);
            let all = calls_made(run, provider);
            assert(all =~= seq![run.pending] + rest);
            assert forall|i: int, j: int| 0 <= i < j < all.len() implies remaining(all[i])
                > remaining(all[j]) by {
                assert(all[j] == rest[j - 1]);
                if i > 0 {
                    assert(all[i] == rest[i - 1]);
                } else {
                    if j - 1 > 0 {
                        assert(remaining(rest[0]) > remaining(rest[j - 1]));
                    }
                }
            }
        },
        ProgressView::Done(_) => {},
    }
}

/// Where the provider is not available and cannot be set up, the
/// installation fails with `ProviderUnavailable` after these two calls, and
/// the provider is never asked to install.
pub proof fn law_unavailable_provider_installs_nothing(
    run: InstallRunView,
    provider: spec_fn(ProviderCall) -> ReplyView,
)
    requires
        run.pending == ProviderCall::Available,
        !provider(ProviderCall::Available).success,
        !provider(ProviderCall::Bootstrap).success,
    ensures
        outcome(run, provider) == Err::<Seq<char>, ActionErrorView>(
            ActionErrorView::ProviderUnavailable { provider: run.variant.provider },
        ),
        calls_made(run, provider) == seq![ProviderCall::Available, ProviderCall::Bootstrap],
        !calls_made(run, provider).contains(ProviderCall::Install),
{
    reveal_with_fuel(outcome, 3);
    reveal_with_fuel(calls_made, 3);
    assert(calls_made(run, provider) =~= seq![ProviderCall::Available, ProviderCall::Bootstrap]);
}

/// Where a repository is declared and the provider has it, the provider is
/// never asked to add it.
pub proof fn law_present_repository_is_not_added(
    run: InstallRunView,
    provider: spec_fn(ProviderCall) -> ReplyView,
)
    requires
        run.pending == ProviderCall::Available,
        run.variant.repository is Some,
        provider(ProviderCall::HasRepository).success,
    ensures
        !calls_made(run, provider).contains(ProviderCall::AddRepository),
{
    reveal_with_fuel(calls_made, 6);
    let calls = calls_made(run, provider);
    if calls.contains(ProviderCall::AddRepository) {
        let i = choose|i: int| 0 <= i < calls.len() && calls[i] == ProviderCall::AddRepository;
        law_calls_are_made_once(run, provider);
        assert(false);
    }
}

/// With a provider that is available and no repository declared, the
/// installation is the only other call.
pub proof fn law_plain_installation(
    run: InstallRunView,
    provider: spec_fn(ProviderCall) -> ReplyView,
)
    requires
        run.pending == ProviderCall::Available,
        run.variant.repository is None,
        provider(ProviderCall::Available).success,
    ensures
        calls_made(run, provider) == seq![ProviderCall::Available, ProviderCall::Install],
        provider(ProviderCall::Install).success ==> outcome(run, provider) == Ok::<
            Seq<char>,
            ActionErrorView,
        >(success_message()),
        !provider(ProviderCall::Install).success ==> outcome(run, provider) == Err::<
            Seq<char>,
            ActionErrorView,
        >(ActionErrorView::InstallError { message: provider(ProviderCall::Install).output }),
{
    reveal_with_fuel(outcome, 3);
    reveal_with_fuel(calls_made, 3);
    assert(calls_made(run, provider) =~= seq![ProviderCall::Available, ProviderCall::Install]);
}

/// An installation that succeeds reports the same message whatever the
/// replies were on the way: running an action again, with a provider that
/// installs what is installed already, yields the message of the first run.
pub proof fn law_success_message_is_fixed(
    run: InstallRunView,
    first: spec_fn(ProviderCall) -> ReplyView,
    second: spec_fn(ProviderCall) -> ReplyView,
)
    ensures
        outcome(run, first) is Ok ==> outcome(run, first) == Ok::<Seq<char>, ActionErrorView>(
            success_message(),
        ),
        outcome(run, first) is Ok && outcome(run, second) is Ok ==> outcome(run, first)
            == outcome(run, second),
{
    reveal_with_fuel(outcome, 6);
}

} // verus!
