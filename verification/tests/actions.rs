use comtrya::actions::Actions;

#[derive(Debug)]
struct Entry {
    action: String,
    name: Option<String>,
    list: Vec<String>,
}

fn text(value: Option<&serde_yaml::Value>) -> Option<String> {
    value.and_then(|v| v.as_str()).map(|s| s.to_string())
}

fn entries(yaml: &str) -> Vec<Entry> {
    let document: serde_yaml::Value = serde_yaml::from_str(yaml).unwrap();
    document
        .as_sequence()
        .unwrap()
        .iter()
        .map(|entry| Entry {
            action: text(entry.get("action")).unwrap(),
            name: text(entry.get("name")),
            list: match entry.get("list").and_then(|l| l.as_sequence()) {
                Some(items) => items.iter().map(|i| text(Some(i)).unwrap()).collect(),
                None => Vec::new(),
            },
        })
        .collect()
}

fn actions(yaml: &str) -> Vec<Actions> {
    entries(yaml)
        .into_iter()
        .map(|e| Actions::declare(&e.action, e.name, e.list, None, None).unwrap())
        .collect()
}

#[test]
fn it_can_be_deserialized() {
    let yaml = r#"
- action: package.install
  name: curl

- action: package.install
  list:
    - curl
"#;

    let mut actions: Vec<Actions> = actions(yaml);

    match actions.pop() {
        Some(Actions::PackageInstall(package_install)) => {
            assert_eq!(vec!["curl"], package_install.names);
        }
        _ => {
            panic!("PackageInstall didn't deserialize to the correct type");
        }
    };

    match actions.pop() {
        Some(Actions::PackageInstall(package_install)) => {
            assert_eq!(vec!["curl"], package_install.names);
        }
        _ => {
            panic!("PackageInstall didn't deserialize to the correct type");
        }
    };
}

#[test]
fn an_unknown_kind_of_action_is_refused() {
    match Actions::declare("package.remove", Some("curl".to_string()), Vec::new(), None, None) {
        Err(e) => assert_eq!(e.kind, "package.remove"),
        Ok(_) => panic!("expected an unrecognized action"),
    }
}

#[test]
fn a_declared_installation_keeps_provider_and_repository() {
    let declared = Actions::declare(
        "package.install",
        None,
        vec!["git".to_string(), "curl".to_string()],
        Some("brew".to_string()),
        Some("tap".to_string()),
    );
    match declared {
        Ok(Actions::PackageInstall(package)) => {
            assert_eq!(package.names, vec!["git", "curl"]);
            assert_eq!(package.provider, Some("brew".to_string()));
            assert_eq!(package.repository, Some("tap".to_string()));
        }
        Err(e) => panic!("unexpected {:?}", e),
    }
}
