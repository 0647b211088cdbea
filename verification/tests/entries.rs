use manifest_deps::entries::{generate_imports, package_json_dependency_entry, SelectedPackage};

fn selected(import_name: &str, package_name: &str, version_req: &str) -> SelectedPackage {
    SelectedPackage {
        import_name: import_name.to_string(),
        package_name: package_name.to_string(),
        version_req: version_req.to_string(),
    }
}

#[test]
fn package_json_entry_for_npm_package_uses_bare_name() {
    let entry = package_json_dependency_entry(selected("left-pad", "npm:left-pad", "~1.0.3"));
    assert_eq!(entry, ("left-pad".to_string(), "~1.0.3".to_string()));
}

#[test]
fn package_json_entry_for_jsr_package_is_rewritten() {
    let entry = package_json_dependency_entry(selected("@foo/bar", "jsr:@foo/bar", "^1.2.0"));
    assert_eq!(entry, ("@foo/bar".to_string(), "npm:@jsr/foo__bar@^1.2.0".to_string()));
}

#[test]
fn package_json_entry_for_unscoped_jsr_package() {
    let entry = package_json_dependency_entry(selected("a/b/c", "jsr:a/b/c", "^2.0.0"));
    assert_eq!(entry, ("a/b/c".to_string(), "npm:@jsr/a__b__c@^2.0.0".to_string()));
}

#[test]
fn package_json_entry_strips_only_one_leading_at_sign() {
    let entry = package_json_dependency_entry(selected("x", "jsr:@@s/p", "^1.0.0"));
    assert_eq!(entry, ("x".to_string(), "npm:@jsr/@s__p@^1.0.0".to_string()));
}

#[test]
fn package_json_entry_for_other_scheme_is_unchanged() {
    let entry = package_json_dependency_entry(selected("pkg", "https://example.com/pkg", "1"));
    assert_eq!(entry, ("https://example.com/pkg".to_string(), "1".to_string()));
}

#[test]
fn generate_imports_of_nothing_is_empty() {
    assert_eq!(generate_imports(vec![]), "");
}

#[test]
fn generate_imports_of_one_entry_has_no_comma() {
    let body = generate_imports(vec![("@foo/bar".to_string(), "jsr:@foo/bar@^1.2.0".to_string())]);
    assert_eq!(body, "\"@foo/bar\": \"jsr:@foo/bar@^1.2.0\"");
}

#[test]
fn generate_imports_separates_entries_with_a_comma_line() {
    let body = generate_imports(vec![
        ("a".to_string(), "npm:a@^1.0.0".to_string()),
        ("b".to_string(), "npm:b@~2.0.0".to_string()),
        ("c".to_string(), "jsr:c@^3.0.0".to_string()),
    ]);
    assert_eq!(
        body,
        "\"a\": \"npm:a@^1.0.0\"\n,\n\"b\": \"npm:b@~2.0.0\"\n,\n\"c\": \"jsr:c@^3.0.0\""
    );
}

#[test]
fn deno_json_entry_joins_package_name_and_version() {
    let entry = manifest_deps::entries::manifest_dependency_entry(
        selected("@foo/bar", "jsr:@foo/bar", "^1.2.0"),
        false,
    );
    assert_eq!(entry, ("@foo/bar".to_string(), "jsr:@foo/bar@^1.2.0".to_string()));
}

#[test]
fn package_json_entry_is_used_for_a_package_json() {
    let entry = manifest_deps::entries::manifest_dependency_entry(
        selected("@foo/bar", "jsr:@foo/bar", "^1.2.0"),
        true,
    );
    assert_eq!(entry, ("@foo/bar".to_string(), "npm:@jsr/foo__bar@^1.2.0".to_string()));
}

#[test]
fn names_and_specifiers_are_written_as_json_strings() {
    let body = generate_imports(vec![
        ("a".to_string(), "x\"y".to_string()),
        ("b\\c".to_string(), "tab\there\nline\u{1}\u{1f}".to_string()),
        ("caf\u{e9}".to_string(), "\u{7f}\u{4e2d}/".to_string()),
    ]);
    assert_eq!(
        body,
        "\"a\": \"x\\\"y\"\n,\n\"b\\\\c\": \"tab\\u0009here\\u000aline\\u0001\\u001f\"\n,\n\"caf\u{e9}\": \"\u{7f}\u{4e2d}/\""
    );
}

#[test]
fn rendered_body_reads_back_as_the_entries() {
    let entries = vec![
        ("a".to_string(), "x\"y".to_string()),
        ("b\\".to_string(), "\\\"\u{0}\u{8}\u{c}\r\n\t\u{1b} end".to_string()),
        ("\"".to_string(), "npm:c@^1.0.0".to_string()),
    ];
    let text = format!("{{{}}}", generate_imports(entries.clone()));
    let parsed: serde_json::Value = serde_json::from_str(&text).unwrap();
    let object = parsed.as_object().unwrap();
    assert_eq!(object.len(), entries.len());
    for (name, specifier) in entries {
        assert_eq!(object.get(&name).and_then(|v| v.as_str()), Some(specifier.as_str()), "{name:?}");
    }
}
