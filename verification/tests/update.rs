use manifest_deps::driver::{LookupEvent, ResolveError};
use manifest_deps::entries::SelectedPackage;
use manifest_deps::manifest::{
    ConfigError, ConfigSpecifier, DenoConfig, DenoConfigFormat, DenoOrPackageJson, FmtSection,
    ImportsValue, MemberValue, PackageJson, ShapeFault,
};
use manifest_deps::patch::PatchError;
use manifest_deps::requirement::{classify, InvalidPackageReq};
use manifest_deps::resolve::{find_package_and_select_version_for_req, PackageAndVersion};
use manifest_deps::update::{
    add_resolved, add_to_manifest, add_to_parsed_manifest, contents_or_empty_object, AddError,
};

fn specifier(text: &str) -> ConfigSpecifier {
    ConfigSpecifier {
        text: text.to_string(),
        scheme: "file".to_string(),
        file_name: text.rsplit('/').next().map(|s| s.to_string()),
    }
}

fn section(entries: &[(&str, &str)]) -> Option<ImportsValue> {
    if entries.is_empty() {
        None
    } else {
        Some(ImportsValue::Object(
            entries.iter().map(|(k, v)| (k.to_string(), MemberValue::String(v.to_string()))).collect(),
        ))
    }
}

fn deno_with(imports: Option<ImportsValue>) -> DenoOrPackageJson {
    DenoOrPackageJson::Deno(
        DenoConfig { specifier: specifier("file:///p/deno.json"), imports, fmt: FmtSection::Absent },
        DenoConfigFormat::Json,
    )
}

fn deno_json(imports: &[(&str, &str)]) -> DenoOrPackageJson {
    deno_with(section(imports))
}

fn package_json(dependencies: &[(&str, &str)]) -> DenoOrPackageJson {
    DenoOrPackageJson::Npm(
        PackageJson { specifier: specifier("file:///p/package.json"), dependencies: section(dependencies) },
        None,
    )
}

fn resolved(identifier: &str, version: &str) -> SelectedPackage {
    let req = classify(identifier).unwrap();
    match find_package_and_select_version_for_req(&req, Some(version.to_string())) {
        PackageAndVersion::Selected(selected) => selected,
        other => panic!("{other:?}"),
    }
}

fn unwrap_err(r: Result<String, AddError>) -> AddError {
    match r {
        Ok(text) => panic!("{text:?}"),
        Err(e) => e,
    }
}

#[test]
fn blank_contents_stand_for_an_empty_object() {
    assert_eq!(contents_or_empty_object(""), "{}\n");
    assert_eq!(contents_or_empty_object(" \n\t"), "{}\n");
    assert_eq!(contents_or_empty_object(" {} "), " {} ");
}

#[test]
fn manifest_without_imports_gets_the_section_before_the_closing_brace() {
    let text = add_to_manifest(&deno_json(&[]), "{}\n", &vec![resolved("jsr:@foo/bar", "1.2.0")]).unwrap();
    assert_eq!(text, "{\"imports\": {\n \"@foo/bar\": \"jsr:@foo/bar@^1.2.0\" }}\n");
}

#[test]
fn blank_manifest_is_patched_as_an_empty_object() {
    let text = add_to_manifest(&deno_json(&[]), "\n", &vec![resolved("npm:left-pad@~1.0.0", "1.0.3")]).unwrap();
    assert_eq!(text, "{\"imports\": {\n \"left-pad\": \"npm:left-pad@~1.0.3\" }}\n");
}

#[test]
fn existing_section_is_rewritten_and_the_rest_is_kept() {
    let contents = "{\n  // the project's tasks\n  \"tasks\": { \"dev\": \"deno run main.ts\" },\n  \"imports\": {\n    \"b\": \"npm:b@^1.0.0\" // pinned\n  },\n  /* tail */\n}\n";
    let manifest = deno_json(&[("b", "npm:b@^1.0.0")]);
    let text = add_to_manifest(&manifest, contents, &vec![resolved("jsr:@foo/bar", "1.2.0")]).unwrap();
    assert_eq!(
        text,
        "{\n  // the project's tasks\n  \"tasks\": { \"dev\": \"deno run main.ts\" },\n  \"imports\": {\"@foo/bar\": \"jsr:@foo/bar@^1.2.0\"\n,\n\"b\": \"npm:b@^1.0.0\"},\n  /* tail */\n}\n"
    );
}

#[test]
fn adding_twice_leaves_one_entry_with_the_second_version() {
    let first = add_to_manifest(&deno_json(&[]), "{}", &vec![resolved("jsr:@foo/bar", "1.2.0")]).unwrap();
    assert_eq!(first, "{\"imports\": {\n \"@foo/bar\": \"jsr:@foo/bar@^1.2.0\" }}");
    let manifest = deno_json(&[("@foo/bar", "jsr:@foo/bar@^1.2.0")]);
    let second = add_to_manifest(&manifest, &first, &vec![resolved("jsr:@foo/bar", "1.3.0")]).unwrap();
    assert_eq!(second, "{\"imports\": {\"@foo/bar\": \"jsr:@foo/bar@^1.3.0\"}}");
    assert_eq!(second.matches("\"@foo/bar\":").count(), 1);
}

#[test]
fn package_json_gets_rewritten_entries_under_dependencies() {
    let contents = "{ \"name\": \"p\", \"dependencies\": { \"left-pad\": \"^1.0.0\" } }";
    let text = add_to_manifest(
        &package_json(&[("left-pad", "^1.0.0")]),
        contents,
        &vec![resolved("jsr:@foo/bar", "1.2.0"), resolved("npm:chalk", "5.3.0")],
    )
    .unwrap();
    assert_eq!(
        text,
        "{ \"name\": \"p\", \"dependencies\": {\"@foo/bar\": \"npm:@jsr/foo__bar@^1.2.0\"\n,\n\"chalk\": \"^5.3.0\"\n,\n\"left-pad\": \"^1.0.0\"} }"
    );
}

#[test]
fn text_that_does_not_parse_is_refused() {
    let err = unwrap_err(add_to_manifest(&deno_json(&[]), "{ \"imports\": ", &Vec::new()));
    match &err {
        AddError::InvalidManifest(reason) => assert!(!reason.is_empty()),
        other => panic!("{other:?}"),
    }
    assert!(!err.message().is_empty());
}

#[test]
fn text_without_an_object_is_refused() {
    let err = unwrap_err(add_to_manifest(&deno_json(&[]), "[1, 2]", &Vec::new()));
    assert!(matches!(err, AddError::NoObject), "{err:?}");
    let err = unwrap_err(add_to_parsed_manifest(&deno_json(&[]), "// nothing", None, &Vec::new()));
    assert!(matches!(err, AddError::NoObject), "{err:?}");
}

#[test]
fn malformed_imports_are_refused() {
    let err = unwrap_err(add_to_manifest(&deno_with(Some(ImportsValue::Other)), "{ \"imports\": 1 }", &Vec::new()));
    assert!(matches!(err, AddError::Config(ConfigError::MalformedImports(ShapeFault::NotObject))), "{err:?}");
}

#[test]
fn malformed_section_goes_before_everything_else() {
    let manifest = deno_with(Some(ImportsValue::Object(vec![("a".to_string(), MemberValue::Other)])));
    let is_shape = |r: Result<String, AddError>| match unwrap_err(r) {
        AddError::Config(ConfigError::MalformedImports(ShapeFault::MemberNotString(name))) => name == "a",
        _ => false,
    };
    let not_found = vec![LookupEvent::Completed(PackageAndVersion::NotFound("npm:missing".to_string()))];
    assert!(is_shape(add_resolved(&manifest, "{ \"imports\": { \"a\": 1 } }", &not_found)));
    let failed = vec![LookupEvent::Failed("timeout".to_string())];
    assert!(is_shape(add_resolved(&manifest, "{}", &failed)));
    assert!(is_shape(add_resolved(&manifest, "not json", &Vec::new())));
    assert!(is_shape(add_to_manifest(&manifest, "[]", &Vec::new())));
    assert!(is_shape(add_to_parsed_manifest(&manifest, "[]", None, &Vec::new())));
}

#[test]
fn malformed_dependencies_of_a_package_json_are_refused() {
    let manifest = DenoOrPackageJson::Npm(
        PackageJson { specifier: specifier("file:///p/package.json"), dependencies: Some(ImportsValue::Other) },
        None,
    );
    let events = vec![LookupEvent::Completed(PackageAndVersion::NotFound("npm:missing".to_string()))];
    let err = unwrap_err(add_resolved(&manifest, "{ \"dependencies\": [] }", &events));
    assert!(matches!(err, AddError::Config(ConfigError::MalformedDependencies(ShapeFault::NotObject))), "{err:?}");
    assert_eq!(err.message(), "Malformed \"dependencies\" configuration: expected an object");
}

#[test]
fn section_that_is_no_object_in_the_text_is_refused() {
    let err = unwrap_err(add_to_manifest(&deno_json(&[]), "{ \"imports\": [] }", &Vec::new()));
    assert!(matches!(err, AddError::SectionNotObject), "{err:?}");
}

#[test]
fn existing_value_with_a_quote_is_written_back_as_it_reads() {
    let contents = "{ \"imports\": { \"a\": \"x\\\"y\", \"b\": \"c:\\\\d\" } }";
    let manifest = deno_json(&[("a", "x\"y"), ("b", "c:\\d")]);
    let text = add_to_manifest(&manifest, contents, &vec![resolved("npm:z", "1.0.0")]).unwrap();
    assert_eq!(
        text,
        "{ \"imports\": {\"a\": \"x\\\"y\"\n,\n\"b\": \"c:\\\\d\"\n,\n\"z\": \"npm:z@^1.0.0\"} }"
    );
    let parsed: serde_json::Value = serde_json::from_str(&text).unwrap();
    assert_eq!(parsed["imports"]["a"].as_str(), Some("x\"y"));
    assert_eq!(parsed["imports"]["b"].as_str(), Some("c:\\d"));
    assert_eq!(parsed["imports"]["z"].as_str(), Some("npm:z@^1.0.0"));
}

#[test]
fn text_with_characters_of_several_bytes_is_patched() {
    let contents = "{ /* caf\u{e9} \u{4e2d} */ \"imports\": {\"\u{e9}\": \"npm:\u{e9}@1\"}, \"n\": \"\u{1f600}\" }";
    let manifest = deno_json(&[("\u{e9}", "npm:\u{e9}@1")]);
    let text = add_to_manifest(&manifest, contents, &Vec::new()).unwrap();
    assert_eq!(text, contents);
}

#[test]
fn not_found_fails_the_whole_batch() {
    let events = vec![
        LookupEvent::Completed(PackageAndVersion::Selected(resolved("npm:a", "1.0.0"))),
        LookupEvent::Completed(PackageAndVersion::NotFound("npm:missing".to_string())),
        LookupEvent::Completed(PackageAndVersion::Selected(resolved("npm:b", "1.0.0"))),
    ];
    match unwrap_err(add_resolved(&deno_json(&[]), "{}", &events)) {
        AddError::Resolve(ResolveError::NotFound(name)) => assert_eq!(name, "npm:missing"),
        other => panic!("{other:?}"),
    }
}

#[test]
fn batch_without_failure_is_added() {
    let events = vec![
        LookupEvent::Completed(PackageAndVersion::Selected(resolved("npm:b", "2.0.0"))),
        LookupEvent::Completed(PackageAndVersion::Selected(resolved("npm:a@~1", "1.0.4"))),
    ];
    assert_eq!(
        add_resolved(&deno_json(&[]), "{}", &events).unwrap(),
        "{\"imports\": {\n \"a\": \"npm:a@~1.0.4\"\n,\n\"b\": \"npm:b@^2.0.0\" }}"
    );
}

#[test]
fn messages_name_what_failed() {
    let cases = vec![
        (AddError::Config(ConfigError::EmptyPath("data:x".to_string())), "Empty path in deno config specifier: data:x"),
        (AddError::Config(ConfigError::UnsupportedFile("a.json".to_string())), "Unsupported deno config file: a.json"),
        (
            AddError::Config(ConfigError::MalformedImports(ShapeFault::NotObject)),
            "Malformed \"imports\" configuration: expected an object",
        ),
        (
            AddError::Config(ConfigError::MalformedDependencies(ShapeFault::MemberNotString("chalk".to_string()))),
            "Malformed \"dependencies\" configuration: expected a string as the value of chalk",
        ),
        (AddError::Config(ConfigError::RemoteConfig), "Can't add dependencies to a remote configuration file"),
        (AddError::Config(ConfigError::CreatedConfigNotFound), "config not found, but it was just created"),
        (
            AddError::InvalidPackageReq(InvalidPackageReq { input: "npm:".to_string(), reason: "no name".to_string() }),
            "Failed to parse package required: npm:: no name",
        ),
        (AddError::Resolve(ResolveError::LookupFailed("timed out".to_string())), "timed out"),
        (AddError::Resolve(ResolveError::NotFound("npm:left-pad".to_string())), "npm:left-pad was not found."),
        (AddError::InvalidManifest("Unterminated object on line 1".to_string()), "Unterminated object on line 1"),
        (AddError::NoObject, "Failed updating config file due to no object."),
        (AddError::SectionNotObject, "Failed updating config file: its dependencies are no object."),
        (AddError::Patch(PatchError::InvalidRange), "Failed updating config file: a position lies outside its text."),
    ];
    for (error, message) in cases {
        assert_eq!(error.message(), message);
    }
}

#[test]
fn text_nested_as_deep_as_the_parser_is_handed_is_patched() {
    let contents = format!("{{\"a\":{}1{}}}", "{\"k\":".repeat(127), "}".repeat(127));
    let text = add_to_manifest(&deno_json(&[]), &contents, &vec![resolved("npm:z", "1.0.0")]).unwrap();
    assert!(text.ends_with("\"imports\": {\n \"z\": \"npm:z@^1.0.0\" }}"), "{text}");
    let contents = format!("{{\"a\":{}{}}}", "[".repeat(127), "]".repeat(127));
    assert!(add_to_manifest(&deno_json(&[]), &contents, &Vec::new()).is_ok());
}

#[test]
fn text_with_too_many_openings_is_refused_unparsed() {
    for depth in [128, 1000, 100000] {
        let contents = format!("{{\"a\":{}{}}}", "[".repeat(depth), "]".repeat(depth));
        let err = unwrap_err(add_to_manifest(&deno_json(&[]), &contents, &Vec::new()));
        assert!(matches!(err, AddError::TooManyOpenings), "{depth}");
        let contents = format!("{{\"a\":{}", "{\"k\":".repeat(depth));
        let err = unwrap_err(add_resolved(&deno_json(&[]), &contents, &Vec::new()));
        assert!(matches!(err, AddError::TooManyOpenings), "{depth}");
    }
    assert_eq!(
        AddError::TooManyOpenings.message(),
        "Failed to parse the configuration file: it holds more than 128 opening brackets and braces."
    );
}

#[test]
fn openings_are_counted_over_the_whole_text() {
    use_shallow(&"[".repeat(128), true);
    use_shallow(&"{".repeat(129), false);
    use_shallow(&format!("{}{}", "[]".repeat(64), "{}".repeat(64)), true);
    use_shallow(&format!("{}{}", "[]".repeat(64), "{}".repeat(65)), false);
    use_shallow("", true);
    use_shallow(&format!("\"{}\"", "[".repeat(129)), false);
}

fn use_shallow(text: &str, expected: bool) {
    assert_eq!(manifest_deps::patch::shallow_enough(text), expected);
}
