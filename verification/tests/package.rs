use comtrya::context::{Platform, VariableContext};
use comtrya::errors::ActionError;
use comtrya::manifests::Manifest;
use comtrya::package::{
    copy_text, copy_texts, join, InstallRun, Package, Progress, ProviderCall, Reply,
};
use comtrya::providers::ProviderRegistry;

fn strings(items: &[&str]) -> Vec<String> {
    items.iter().map(|s| s.to_string()).collect()
}

fn context() -> VariableContext {
    let platform = Platform { os_family: "linux".to_string(), arch: "x86_64".to_string() };
    VariableContext::new(&platform, &Vec::new(), &Vec::new())
}

fn registry() -> ProviderRegistry {
    let mut registry = ProviderRegistry::new();
    registry.register("apt".to_string());
    registry.register("brew".to_string());
    registry.set_default("linux".to_string(), "apt".to_string());
    registry
}

fn manifest() -> Manifest {
    Manifest { name: "base".to_string(), depends: Vec::new(), actions: Vec::new(), variables: Vec::new() }
}

fn begin(package: &Package) -> InstallRun {
    package.run(&manifest(), &context(), &registry()).unwrap()
}

fn yes() -> Reply {
    Reply { success: true, output: String::new() }
}

fn no(output: &str) -> Reply {
    Reply { success: false, output: output.to_string() }
}

/// Runs an installation against scripted replies and returns the calls made and the outcome.
fn play(
    package: &Package,
    script: &dyn Fn(ProviderCall) -> Reply,
) -> (Vec<ProviderCall>, Result<String, ActionError>) {
    let mut run = begin(package);
    let mut calls = Vec::new();
    loop {
        let call = run.pending();
        calls.push(call);
        match run.advance(script(call)) {
            Progress::Call(next) => run = next,
            Progress::Done(outcome) => return (calls, outcome.map(|r| r.message)),
        }
    }
}

#[test]
fn a_single_name_is_a_list_of_one() {
    let short = Package::new(Some("curl".to_string()), Vec::new(), None, None);
    let long = Package::new(None, strings(&["curl"]), None, None);
    assert_eq!(short.names, vec!["curl"]);
    assert_eq!(long.names, short.names);
}

#[test]
fn a_name_takes_the_place_of_a_list() {
    let package = Package::new(Some("curl".to_string()), strings(&["git", "vim"]), None, None);
    assert_eq!(package.names, vec!["curl"]);
}

#[test]
fn a_list_keeps_its_order() {
    let package = Package::new(None, strings(&["git", "curl", "vim"]), Some("brew".to_string()), Some("tap".to_string()));
    assert_eq!(package.names, vec!["git", "curl", "vim"]);
    assert_eq!(package.provider, Some("brew".to_string()));
    assert_eq!(package.repository, Some("tap".to_string()));
}

#[test]
fn texts_are_joined_with_commas() {
    assert_eq!(join(&strings(&[])), "");
    assert_eq!(join(&strings(&["curl"])), "curl");
    assert_eq!(join(&strings(&["curl", "git", "vim"])), "curl, git, vim");
}

#[test]
fn copies_equal_what_was_copied() {
    assert_eq!(copy_texts(&strings(&["a", "b"])), strings(&["a", "b"]));
    assert_eq!(copy_text(&Some("x".to_string())), Some("x".to_string()));
    assert_eq!(copy_text(&None), None);
}

#[test]
fn an_unpinned_package_uses_the_default_of_the_platform() {
    let package = Package::new(Some("curl".to_string()), Vec::new(), None, Some("ppa:curl".to_string()));
    let variant = package.variant(&context(), &registry()).unwrap();
    assert_eq!(variant.provider, "apt");
    assert_eq!(variant.packages, vec!["curl"]);
    assert_eq!(variant.repository, Some("ppa:curl".to_string()));
}

#[test]
fn a_pinned_provider_is_chosen() {
    let package = Package::new(Some("curl".to_string()), Vec::new(), Some("brew".to_string()), None);
    assert_eq!(package.variant(&context(), &registry()).unwrap().provider, "brew");
}

#[test]
fn a_pinned_provider_must_be_registered() {
    let package = Package::new(Some("curl".to_string()), Vec::new(), Some("yay".to_string()), None);
    match package.variant(&context(), &registry()) {
        Err(ActionError::UnknownProvider { name }) => assert_eq!(name, "yay"),
        other => panic!("expected an unknown provider, got {:?}", other),
    }
    assert!(matches!(package.dry_run(&manifest(), &context(), &registry()), Err(ActionError::UnknownProvider { .. })));
    assert!(matches!(package.run(&manifest(), &context(), &registry()), Err(ActionError::UnknownProvider { .. })));
}

#[test]
fn a_platform_without_default_binds_nothing() {
    let package = Package::new(Some("curl".to_string()), Vec::new(), None, None);
    let platform = Platform { os_family: "plan9".to_string(), arch: "mips".to_string() };
    let context = VariableContext::new(&platform, &Vec::new(), &Vec::new());
    match package.variant(&context, &registry()) {
        Err(ActionError::NoDefaultProvider { platform }) => assert_eq!(platform, "plan9"),
        other => panic!("expected no default provider, got {:?}", other),
    }
}

#[test]
fn a_dry_run_names_packages_and_provider() {
    let package = Package::new(None, strings(&["curl", "git"]), None, None);
    let result = package.dry_run(&manifest(), &context(), &registry()).unwrap();
    assert_eq!(result.message, "Install curl, git from apt");
}

#[test]
fn a_dry_run_of_one_package() {
    let package = Package::new(Some("curl".to_string()), Vec::new(), Some("brew".to_string()), None);
    let result = package.dry_run(&manifest(), &context(), &registry()).unwrap();
    assert_eq!(result.message, "Install curl from brew");
}

#[test]
fn a_run_begins_by_asking_for_the_provider() {
    let package = Package::new(Some("curl".to_string()), Vec::new(), None, None);
    let run = begin(&package);
    assert_eq!(run.pending(), ProviderCall::Available);
    assert_eq!(run.variant().provider, "apt");
    assert_eq!(run.variant().packages, vec!["curl"]);
}

#[test]
fn an_available_provider_installs_at_once() {
    let package = Package::new(Some("curl".to_string()), Vec::new(), None, None);
    let (calls, outcome) = play(&package, &|_| yes());
    assert_eq!(calls, vec![ProviderCall::Available, ProviderCall::Install]);
    assert_eq!(outcome.unwrap(), "Packages installed successfully");
}

#[test]
fn a_missing_provider_is_set_up_first() {
    let package = Package::new(Some("curl".to_string()), Vec::new(), None, None);
    let (calls, outcome) = play(&package, &|call| match call {
        ProviderCall::Available => no(""),
        _ => yes(),
    });
    assert_eq!(calls, vec![ProviderCall::Available, ProviderCall::Bootstrap, ProviderCall::Install]);
    assert_eq!(outcome.unwrap(), "Packages installed successfully");
}

#[test]
fn a_provider_that_cannot_be_set_up_installs_nothing() {
    let package = Package::new(Some("curl".to_string()), Vec::new(), None, Some("ppa:curl".to_string()));
    let (calls, outcome) = play(&package, &|call| match call {
        ProviderCall::Available => no(""),
        ProviderCall::Bootstrap => no("no network"),
        _ => yes(),
    });
    assert_eq!(calls, vec![ProviderCall::Available, ProviderCall::Bootstrap]);
    match outcome {
        Err(ActionError::ProviderUnavailable { provider }) => assert_eq!(provider, "apt"),
        other => panic!("expected an unavailable provider, got {:?}", other),
    }
}

#[test]
fn a_present_repository_is_not_added() {
    let package = Package::new(Some("curl".to_string()), Vec::new(), None, Some("ppa:curl".to_string()));
    let (calls, outcome) = play(&package, &|_| yes());
    assert_eq!(calls, vec![ProviderCall::Available, ProviderCall::HasRepository, ProviderCall::Install]);
    assert!(outcome.is_ok());
}

#[test]
fn a_missing_repository_is_added_before_the_installation() {
    let package = Package::new(Some("curl".to_string()), Vec::new(), None, Some("ppa:curl".to_string()));
    let (calls, outcome) = play(&package, &|call| match call {
        ProviderCall::HasRepository => no(""),
        _ => yes(),
    });
    assert_eq!(
        calls,
        vec![ProviderCall::Available, ProviderCall::HasRepository, ProviderCall::AddRepository, ProviderCall::Install]
    );
    assert_eq!(outcome.unwrap(), "Packages installed successfully");
}

#[test]
fn a_repository_that_cannot_be_added_ends_the_installation() {
    let package = Package::new(Some("curl".to_string()), Vec::new(), None, Some("ppa:curl".to_string()));
    let (calls, outcome) = play(&package, &|call| match call {
        ProviderCall::HasRepository => no(""),
        ProviderCall::AddRepository => no("key expired"),
        _ => yes(),
    });
    assert_eq!(calls, vec![ProviderCall::Available, ProviderCall::HasRepository, ProviderCall::AddRepository]);
    match outcome {
        Err(ActionError::RepositoryError { repository, cause }) => {
            assert_eq!(repository, "ppa:curl");
            assert_eq!(cause, "key expired");
        }
        other => panic!("expected a repository error, got {:?}", other),
    }
}

#[test]
fn a_failed_installation_is_reported_in_the_words_of_the_provider() {
    let package = Package::new(Some("curl".to_string()), Vec::new(), None, None);
    let (calls, outcome) = play(&package, &|call| match call {
        ProviderCall::Install => no("E: Unable to locate package curl"),
        _ => yes(),
    });
    assert_eq!(calls, vec![ProviderCall::Available, ProviderCall::Install]);
    match outcome {
        Err(ActionError::InstallError { message }) => assert_eq!(message, "E: Unable to locate package curl"),
        other => panic!("expected an install error, got {:?}", other),
    }
}

#[test]
fn a_second_run_reports_the_same_success() {
    let package = Package::new(Some("curl".to_string()), Vec::new(), None, Some("ppa:curl".to_string()));
    let (_, first) = play(&package, &|call| match call {
        ProviderCall::Available => no(""),
        ProviderCall::HasRepository => no(""),
        _ => yes(),
    });
    let (_, second) = play(&package, &|_| yes());
    assert_eq!(first.unwrap(), second.unwrap());
}

#[test]
fn every_error_has_a_description() {
    let text = |e: ActionError| e.message();
    assert_eq!(text(ActionError::TemplateError { message: "bad template".to_string() }), "bad template");
    assert_eq!(text(ActionError::ProviderUnavailable { provider: "apt".to_string() }), "Provider unavailable");
    assert_eq!(
        text(ActionError::RepositoryError { repository: "ppa".to_string(), cause: "x".to_string() }),
        "failed to add repository"
    );
    assert_eq!(text(ActionError::InstallError { message: "exit 100".to_string() }), "exit 100");
    assert_eq!(text(ActionError::UnknownProvider { name: "yay".to_string() }), "Unknown provider: yay");
    assert_eq!(
        text(ActionError::NoDefaultProvider { platform: "plan9".to_string() }),
        "No default provider for plan9"
    );
}

#[test]
fn a_duplicate_of_an_error_equals_it() {
    let error = ActionError::RepositoryError { repository: "ppa".to_string(), cause: "x".to_string() };
    match error.duplicate() {
        ActionError::RepositoryError { repository, cause } => {
            assert_eq!(repository, "ppa");
            assert_eq!(cause, "x");
        }
        other => panic!("expected a repository error, got {:?}", other),
    }
    assert!(matches!(
        ActionError::InstallError { message: "m".to_string() }.duplicate(),
        ActionError::InstallError { .. }
    ));
}
