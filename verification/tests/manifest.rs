use indexmap::IndexMap;
use manifest_deps::manifest::{
    ConfigError, ConfigSpecifier, DenoConfig, DenoConfigFormat, DenoOrPackageJson, Discovery,
    FmtOptionsConfig, FmtSection, ImportsValue, MemberValue, PackageJson, ProseWrap, ShapeFault,
};

fn specifier(text: &str) -> ConfigSpecifier {
    let scheme = text.split(':').next().unwrap().to_string();
    let file_name = text.rsplit('/').next().map(|s| s.to_string());
    ConfigSpecifier { text: text.to_string(), scheme, file_name }
}

fn deno(imports: Option<ImportsValue>) -> DenoConfig {
    DenoConfig { specifier: specifier("file:///project/deno.json"), imports, fmt: FmtSection::Absent }
}

fn package_json(dependencies: Option<ImportsValue>) -> PackageJson {
    PackageJson { specifier: specifier("file:///project/package.json"), dependencies }
}

fn object(members: &[(&str, Option<&str>)]) -> ImportsValue {
    ImportsValue::Object(
        members
            .iter()
            .map(|(k, v)| {
                (k.to_string(), match v {
                    Some(v) => MemberValue::String(v.to_string()),
                    None => MemberValue::Other,
                })
            })
            .collect(),
    )
}

fn entries(map: IndexMap<String, String>) -> Vec<(String, String)> {
    map.into_iter().collect()
}

#[test]
fn format_is_read_from_the_file_name() {
    assert_eq!(DenoConfigFormat::from_specifier(&specifier("file:///a/deno.json")), Ok(DenoConfigFormat::Json));
    assert_eq!(DenoConfigFormat::from_specifier(&specifier("file:///a/deno.jsonc")), Ok(DenoConfigFormat::Jsonc));
}

#[test]
fn other_file_names_are_unsupported() {
    assert_eq!(
        DenoConfigFormat::from_specifier(&specifier("file:///a/config.json")),
        Err(ConfigError::UnsupportedFile("config.json".to_string()))
    );
}

#[test]
fn location_without_a_path_is_refused() {
    let spec = ConfigSpecifier { text: "data:text/plain,x".to_string(), scheme: "data".to_string(), file_name: None };
    assert_eq!(DenoConfigFormat::from_specifier(&spec), Err(ConfigError::EmptyPath("data:text/plain,x".to_string())));
}

#[test]
fn deno_json_without_imports_has_no_entries() {
    let manifest = DenoOrPackageJson::Deno(deno(None), DenoConfigFormat::Json);
    assert_eq!(entries(manifest.existing_imports().unwrap()), Vec::new());
}

#[test]
fn deno_json_imports_keep_their_order() {
    let imports = object(&[("b", Some("npm:b@1")), ("a", Some("jsr:a@2"))]);
    let manifest = DenoOrPackageJson::Deno(deno(Some(imports)), DenoConfigFormat::Json);
    assert_eq!(
        entries(manifest.existing_imports().unwrap()),
        vec![("b".to_string(), "npm:b@1".to_string()), ("a".to_string(), "jsr:a@2".to_string())]
    );
}

#[test]
fn imports_that_are_no_object_are_malformed() {
    let manifest = DenoOrPackageJson::Deno(deno(Some(ImportsValue::Other)), DenoConfigFormat::Json);
    assert_eq!(manifest.existing_imports(), Err(ConfigError::MalformedImports(ShapeFault::NotObject)));
}

#[test]
fn imports_with_a_member_that_is_no_string_are_malformed() {
    let imports = object(&[("a", Some("npm:a@1")), ("b", None), ("c", None)]);
    let manifest = DenoOrPackageJson::Deno(deno(Some(imports)), DenoConfigFormat::Jsonc);
    assert_eq!(
        manifest.existing_imports(),
        Err(ConfigError::MalformedImports(ShapeFault::MemberNotString("b".to_string())))
    );
}

#[test]
fn package_json_dependencies_are_read_in_order() {
    let dependencies = object(&[("left-pad", Some("^1.0.0")), ("chalk", Some("5"))]);
    let manifest = DenoOrPackageJson::Npm(package_json(Some(dependencies)), None);
    let mut expected = IndexMap::new();
    expected.insert("left-pad".to_string(), "^1.0.0".to_string());
    expected.insert("chalk".to_string(), "5".to_string());
    assert_eq!(manifest.existing_imports(), Ok(expected));
    let manifest = DenoOrPackageJson::Npm(package_json(None), None);
    assert_eq!(entries(manifest.existing_imports().unwrap()), Vec::new());
}

#[test]
fn package_json_dependencies_of_the_wrong_shape_are_malformed() {
    let manifest = DenoOrPackageJson::Npm(package_json(Some(ImportsValue::Other)), None);
    assert_eq!(manifest.existing_imports(), Err(ConfigError::MalformedDependencies(ShapeFault::NotObject)));
    let dependencies = object(&[("left-pad", Some("^1.0.0")), ("chalk", None)]);
    let manifest = DenoOrPackageJson::Npm(package_json(Some(dependencies)), None);
    assert_eq!(
        manifest.existing_imports(),
        Err(ConfigError::MalformedDependencies(ShapeFault::MemberNotString("chalk".to_string())))
    );
}

#[test]
fn member_stored_twice_keeps_its_place_and_the_last_value() {
    let imports = object(&[("a", Some("1")), ("b", Some("2")), ("a", Some("3"))]);
    let manifest = DenoOrPackageJson::Deno(deno(Some(imports)), DenoConfigFormat::Json);
    assert_eq!(
        entries(manifest.existing_imports().unwrap()),
        vec![("a".to_string(), "3".to_string()), ("b".to_string(), "2".to_string())]
    );
}

#[test]
fn key_file_name_and_kind_follow_the_manifest() {
    let json = DenoOrPackageJson::Deno(deno(None), DenoConfigFormat::Json);
    let jsonc = DenoOrPackageJson::Deno(deno(None), DenoConfigFormat::Jsonc);
    let npm = DenoOrPackageJson::Npm(package_json(None), None);
    assert_eq!((json.imports_key(), json.file_name(), json.is_npm()), ("imports", "deno.json", false));
    assert_eq!((jsonc.imports_key(), jsonc.file_name(), jsonc.is_npm()), ("imports", "deno.jsonc", false));
    assert_eq!((npm.imports_key(), npm.file_name(), npm.is_npm()), ("dependencies", "package.json", true));
    assert_eq!(npm.specifier().text, "file:///project/package.json");
    assert_eq!(json.specifier().text, "file:///project/deno.json");
}

#[test]
fn formatting_preferences_default_to_none() {
    let none = FmtOptionsConfig {
        use_tabs: None,
        line_width: None,
        indent_width: None,
        single_quote: None,
        prose_wrap: None,
        semi_colons: None,
    };
    assert_eq!(FmtOptionsConfig::default(), none);
    let stated = FmtOptionsConfig { use_tabs: Some(true), indent_width: Some(4), prose_wrap: Some(ProseWrap::Never), ..none };
    let mut config = deno(None);
    config.fmt = FmtSection::Options(stated);
    assert_eq!(DenoOrPackageJson::Deno(config, DenoConfigFormat::Json).fmt_options(), stated);
    let mut config = deno(None);
    config.fmt = FmtSection::Invalid;
    assert_eq!(DenoOrPackageJson::Deno(config, DenoConfigFormat::Json).fmt_options(), none);
    assert_eq!(DenoOrPackageJson::Deno(deno(None), DenoConfigFormat::Json).fmt_options(), none);
    assert_eq!(DenoOrPackageJson::Npm(package_json(None), Some(stated)).fmt_options(), stated);
    assert_eq!(DenoOrPackageJson::Npm(package_json(None), None).fmt_options(), none);
}

#[test]
fn remote_manifest_is_refused() {
    let mut config = deno(None);
    config.specifier = specifier("https://example.com/deno.json");
    assert_eq!(DenoOrPackageJson::Deno(config, DenoConfigFormat::Json).ensure_local(), Err(ConfigError::RemoteConfig));
    assert_eq!(DenoOrPackageJson::Deno(deno(None), DenoConfigFormat::Json).ensure_local(), Ok(()));
}

#[test]
fn deno_json_goes_before_package_json() {
    let found = DenoOrPackageJson::from_flags(Some(deno(None)), Some(package_json(None)), true);
    assert_eq!(found, Ok(Discovery::Found(DenoOrPackageJson::Deno(deno(None), DenoConfigFormat::Json))));
}

#[test]
fn package_json_is_used_only_with_future_features() {
    let found = DenoOrPackageJson::from_flags(None, Some(package_json(None)), true);
    assert_eq!(found, Ok(Discovery::Found(DenoOrPackageJson::Npm(package_json(None), None))));
    let found = DenoOrPackageJson::from_flags(None, Some(package_json(None)), false);
    assert_eq!(found, Ok(Discovery::CreateDenoJson));
    assert_eq!(DenoOrPackageJson::from_flags(None, None, true), Ok(Discovery::CreateDenoJson));
}

#[test]
fn unsupported_deno_config_fails_discovery() {
    let mut config = deno(None);
    config.specifier = specifier("file:///project/settings.json");
    assert_eq!(
        DenoOrPackageJson::from_flags(Some(config), None, false),
        Err(ConfigError::UnsupportedFile("settings.json".to_string()))
    );
}

#[test]
fn created_deno_json_is_plain_json() {
    assert_eq!(
        DenoOrPackageJson::from_created(Some(deno(None))),
        Ok(DenoOrPackageJson::Deno(deno(None), DenoConfigFormat::Json))
    );
    assert_eq!(DenoOrPackageJson::from_created(None), Err(ConfigError::CreatedConfigNotFound));
}
