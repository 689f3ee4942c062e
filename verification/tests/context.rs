use comtrya::bindings::lookup;
use comtrya::context::{rendered, Platform, VariableContext};
use comtrya::errors::ActionError;
use comtrya::providers::ProviderRegistry;
use comtrya::template::is_plain;

fn pairs(items: &[(&str, &str)]) -> Vec<(String, String)> {
    items.iter().map(|(k, v)| (k.to_string(), v.to_string())).collect()
}

fn platform() -> Platform {
    Platform { os_family: "linux".to_string(), arch: "x86_64".to_string() }
}

fn get(context: &VariableContext, name: &str) -> Option<String> {
    context.get(&name.to_string()).cloned()
}

#[test]
fn a_later_entry_replaces_an_earlier_one() {
    let entries = pairs(&[("a", "1"), ("b", "2"), ("a", "3")]);
    assert_eq!(lookup(&entries, &"a".to_string()), Some(&"3".to_string()));
    assert_eq!(lookup(&entries, &"b".to_string()), Some(&"2".to_string()));
    assert_eq!(lookup(&entries, &"c".to_string()), None);
}

#[test]
fn a_context_holds_the_facts_about_the_platform() {
    let context = VariableContext::new(&platform(), &Vec::new(), &Vec::new());
    assert_eq!(context.platform(), "linux");
    assert_eq!(get(&context, "os_family"), Some("linux".to_string()));
    assert_eq!(get(&context, "arch"), Some("x86_64".to_string()));
    assert_eq!(get(&context, "user"), None);
}

#[test]
fn local_variables_override_global_ones() {
    let global = pairs(&[("user", "root"), ("shell", "sh")]);
    let local = pairs(&[("user", "alice")]);
    let context = VariableContext::new(&platform(), &global, &local);
    assert_eq!(get(&context, "user"), Some("alice".to_string()));
    assert_eq!(get(&context, "shell"), Some("sh".to_string()));
}

#[test]
fn variables_override_the_facts_but_not_the_platform() {
    let global = pairs(&[("arch", "arm64")]);
    let local = pairs(&[("os_family", "bsd")]);
    let context = VariableContext::new(&platform(), &global, &local);
    assert_eq!(get(&context, "arch"), Some("arm64".to_string()));
    assert_eq!(get(&context, "os_family"), Some("bsd".to_string()));
    assert_eq!(context.platform(), "linux");
}

#[test]
fn a_template_is_rendered_with_the_variables() {
    let global = pairs(&[("greeting", "hello"), ("user", "root")]);
    let local = pairs(&[("user", "alice")]);
    let context = VariableContext::new(&platform(), &global, &local);
    assert_eq!(context.render("{{ greeting }} {{ user }} on {{ os_family }}").unwrap(), "hello alice on linux");
}

#[test]
fn a_text_without_variables_renders_to_itself() {
    let context = VariableContext::new(&platform(), &Vec::new(), &Vec::new());
    assert_eq!(context.render("packages: [curl]").unwrap(), "packages: [curl]");
}

#[test]
fn an_undefined_variable_is_a_template_error() {
    let context = VariableContext::new(&platform(), &Vec::new(), &Vec::new());
    match context.render("{{ missing }}") {
        Err(ActionError::TemplateError { message }) => assert!(!message.is_empty()),
        other => panic!("expected a template error, got {:?}", other),
    }
}

#[test]
fn a_malformed_template_is_a_template_error() {
    let context = VariableContext::new(&platform(), &Vec::new(), &Vec::new());
    assert!(matches!(context.render("{% if %}"), Err(ActionError::TemplateError { .. })));
}

#[test]
fn values_are_not_escaped() {
    let local = pairs(&[("path", "<a&b>")]);
    let context = VariableContext::new(&platform(), &Vec::new(), &local);
    assert_eq!(context.render("{{ path }}").unwrap(), "<a&b>");
}

#[test]
fn the_outcome_of_the_engine_is_handed_on() {
    assert_eq!(rendered(Ok("text".to_string())).unwrap(), "text");
    let failed = tera::Tera::one_off("{{ x }}", &tera::Context::new(), false);
    assert!(matches!(rendered(failed), Err(ActionError::TemplateError { .. })));
}

#[test]
fn the_template_context_holds_the_merged_variables() {
    let global = pairs(&[("user", "root")]);
    let local = pairs(&[("user", "alice")]);
    let context = VariableContext::new(&platform(), &global, &local).template_context();
    assert_eq!(context.get("user").and_then(|v| v.as_str()), Some("alice"));
    assert_eq!(context.get("arch").and_then(|v| v.as_str()), Some("x86_64"));
    assert!(context.get("shell").is_none());
}

#[test]
fn a_registry_knows_what_was_registered() {
    let mut registry = ProviderRegistry::new();
    assert!(!registry.is_registered(&"apt".to_string()));
    registry.register("apt".to_string());
    registry.register("brew".to_string());
    assert!(registry.is_registered(&"apt".to_string()));
    assert!(registry.is_registered(&"brew".to_string()));
    assert!(!registry.is_registered(&"yay".to_string()));
}

#[test]
fn a_later_default_replaces_an_earlier_one() {
    let mut registry = ProviderRegistry::new();
    registry.register("apt".to_string());
    registry.register("snap".to_string());
    assert_eq!(registry.default_for(&"linux".to_string()), None);
    registry.set_default("linux".to_string(), "apt".to_string());
    registry.set_default("macos".to_string(), "brew".to_string());
    registry.set_default("linux".to_string(), "snap".to_string());
    assert_eq!(registry.default_for(&"linux".to_string()), Some(&"snap".to_string()));
    assert_eq!(registry.resolve(&None, &"linux".to_string()).unwrap(), "snap");
}

#[test]
fn a_provider_is_resolved_by_pin_or_by_platform() {
    let mut registry = ProviderRegistry::new();
    registry.register("apt".to_string());
    registry.register("brew".to_string());
    registry.set_default("linux".to_string(), "apt".to_string());
    registry.set_default("haiku".to_string(), "pkgman".to_string());
    assert_eq!(registry.resolve(&Some("brew".to_string()), &"linux".to_string()).unwrap(), "brew");
    assert_eq!(registry.resolve(&None, &"linux".to_string()).unwrap(), "apt");
    match registry.resolve(&Some("yay".to_string()), &"linux".to_string()) {
        Err(ActionError::UnknownProvider { name }) => assert_eq!(name, "yay"),
        other => panic!("expected an unknown provider, got {:?}", other),
    }
    match registry.resolve(&None, &"macos".to_string()) {
        Err(ActionError::NoDefaultProvider { platform }) => assert_eq!(platform, "macos"),
        other => panic!("expected no default provider, got {:?}", other),
    }
    match registry.resolve(&None, &"haiku".to_string()) {
        Err(ActionError::UnknownProvider { name }) => assert_eq!(name, "pkgman"),
        other => panic!("expected an unknown provider, got {:?}", other),
    }
}

const REFUSAL: &str = "invalid template: only text and {{ name }} references are rendered";

fn refused(template: &str) {
    let context = VariableContext::new(&platform(), &pairs(&[("name", "value")]), &Vec::new());
    assert!(!is_plain(template), "{:?} should not be plain", template);
    match context.render(template) {
        Err(ActionError::TemplateError { message }) => assert_eq!(message, REFUSAL),
        other => panic!("expected a refusal of {:?}, got {:?}", template, other),
    }
}

#[test]
fn text_and_references_are_plain() {
    assert!(is_plain(""));
    assert!(is_plain("packages: [curl]"));
    assert!(is_plain("{{name}}"));
    assert!(is_plain("{{ name }}"));
    assert!(is_plain("a {{   user_1   }} b {{ _x }} c"));
    assert!(is_plain("{"));
    assert!(is_plain("a { b } c }} d"));
    assert!(is_plain("{ {name} }"));
    assert!(is_plain("trailing {"));
    assert!(is_plain("caf\u{e9} {{ name }} \u{2603}"));
}

#[test]
fn a_reference_is_rendered_whatever_the_blanks() {
    let context = VariableContext::new(&platform(), &pairs(&[("name", "value")]), &Vec::new());
    assert_eq!(context.render("{{name}}").unwrap(), "value");
    assert_eq!(context.render("<{{   name   }}>").unwrap(), "<value>");
    assert_eq!(context.render("a { b } c }} d").unwrap(), "a { b } c }} d");
    assert_eq!(context.render("caf\u{e9} {{ name }}").unwrap(), "caf\u{e9} value");
}

#[test]
fn a_call_that_never_returns_is_refused() {
    refused("{{ range(end=1, step_by=0) }}");
}

#[test]
fn arithmetic_is_refused() {
    refused("{{ -9223372036854775808 % -1 }}");
    refused("{{ 1 + 1 }}");
    refused("{{ 7 }}");
}

#[test]
fn a_template_that_reads_the_environment_is_refused() {
    refused("{{ get_env(name=\"HOME\") }}");
}

#[test]
fn blocks_and_comments_are_refused() {
    refused("{% if name %}x{% endif %}");
    refused("{% for x in name %}{{ x }}{% endfor %}");
    refused("{# note #}");
    refused("a {%");
    refused("a {#");
}

#[test]
fn anything_but_a_name_in_a_reference_is_refused() {
    refused("{{ name | upper }}");
    refused("{{ name.first }}");
    refused("{{ name[0] }}");
    refused("{{- name -}}");
    refused("{{ name");
    refused("{{ name }");
    refused("{{ }}");
    refused("{{");
    refused("{{ a b }}");
    refused("{{ \"text\" }}");
    refused("{{\tname }}");
    refused("{{{ name }}}");
}

#[test]
fn what_the_engine_reports_is_not_a_refusal() {
    let context = VariableContext::new(&platform(), &Vec::new(), &Vec::new());
    assert!(is_plain("{{ missing }}"));
    match context.render("{{ missing }}") {
        Err(ActionError::TemplateError { message }) => assert_ne!(message, REFUSAL),
        other => panic!("expected a template error, got {:?}", other),
    }
}
