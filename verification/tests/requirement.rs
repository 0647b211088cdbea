use manifest_deps::requirement::{classify, classify_all, AddPackageReq, PackageReq};

fn req(name: &str, version_text: &str) -> PackageReq {
    PackageReq { name: name.to_string(), version_text: version_text.to_string() }
}

#[test]
fn jsr_identifier_is_a_jsr_requirement_without_the_scheme() {
    assert_eq!(classify("jsr:@foo/bar"), Ok(AddPackageReq::Jsr(req("@foo/bar", "*"))));
}

#[test]
fn npm_identifier_is_an_npm_requirement_without_the_scheme() {
    assert_eq!(classify("npm:left-pad@~1.0.0"), Ok(AddPackageReq::Npm(req("left-pad", "~1.0.0"))));
}

#[test]
fn npm_scoped_identifier_keeps_its_scope() {
    assert_eq!(classify("npm:@types/node@^20"), Ok(AddPackageReq::Npm(req("@types/node", "^20"))));
}

#[test]
fn identifier_without_scheme_is_a_jsr_requirement() {
    assert_eq!(classify("@std/path@1.0.0"), Ok(AddPackageReq::Jsr(req("@std/path", "1.0.0"))));
}

#[test]
fn identifier_without_a_name_is_refused_with_the_input() {
    let err = classify("npm:").unwrap_err();
    assert_eq!(err.input, "npm:");
    let err = classify("jsr:").unwrap_err();
    assert_eq!(err.input, "jsr:");
    let err = classify("").unwrap_err();
    assert_eq!(err.input, "");
}

#[test]
fn identifier_with_a_bad_version_is_refused() {
    let err = classify("jsr:@foo/bar@not a version").unwrap_err();
    assert_eq!(err.input, "jsr:@foo/bar@not a version");
}

#[test]
fn classify_all_keeps_the_order() {
    let names = vec!["npm:a".to_string(), "jsr:@b/c@~2".to_string(), "d".to_string()];
    assert_eq!(
        classify_all(&names),
        Ok(vec![
            AddPackageReq::Npm(req("a", "*")),
            AddPackageReq::Jsr(req("@b/c", "~2")),
            AddPackageReq::Jsr(req("d", "*")),
        ])
    );
}

#[test]
fn classify_all_fails_on_the_first_bad_identifier() {
    let names = vec!["npm:a".to_string(), "npm:".to_string(), "jsr:".to_string()];
    assert_eq!(classify_all(&names).unwrap_err().input, "npm:");
    assert_eq!(classify_all(&Vec::new()), Ok(Vec::new()));
}

#[test]
fn name_is_read_from_the_start_behind_the_scheme() {
    let identifiers = [
        "npm:left-pad",
        "npm:left-pad@~1.0.0",
        "npm:@types/node@^20/fs",
        "npm:/left-pad@1",
        "npm:npm:x",
        "jsr:@std/path@1/posix",
        "jsr:/@std/path",
        "@std/path",
        "/@std/path@1",
        "express@4",
        "jsr:jsr:x",
    ];
    let mut parsed = 0;
    for identifier in identifiers {
        let (is_npm, body) = match identifier.strip_prefix("npm:") {
            Some(rest) => (true, rest),
            None => (false, identifier.strip_prefix("jsr:").unwrap_or(identifier)),
        };
        let req = match classify(identifier) {
            Ok(req) => req,
            Err(_) => continue,
        };
        parsed += 1;
        let name = match &req {
            AddPackageReq::Npm(req) => {
                assert!(is_npm, "{identifier}");
                &req.name
            }
            AddPackageReq::Jsr(req) => {
                assert!(!is_npm, "{identifier}");
                &req.name
            }
        };
        let behind_slash = body.strip_prefix('/').map(|rest| rest.starts_with(name.as_str()));
        assert!(body.starts_with(name.as_str()) || behind_slash == Some(true), "{identifier} {name}");
    }
    assert!(parsed >= 8, "{parsed}");
}

#[test]
fn number_too_long_for_a_version_is_refused() {
    for identifier in [
        "jsr:a@~18446744073709551615",
        "npm:a@^18446744073709551615",
        "a@0.18446744073709551615",
        "npm:a@0.0.18446744073709551615",
        "npm:@s/p@18446744073709551615",
        "jsr:/@s/p@x.18446744073709551615",
        "npm:a@1@~99999999999999999999",
    ] {
        let err = classify(identifier).unwrap_err();
        assert_eq!(err.input, identifier);
        assert_eq!(err.reason, "A number in the version is too long");
    }
}

#[test]
fn long_runs_of_digits_outside_a_versions_numbers_are_left_to_the_parser() {
    assert_eq!(
        classify("npm:a12345678901234567890"),
        Ok(AddPackageReq::Npm(req("a12345678901234567890", "*")))
    );
    assert_eq!(
        classify("npm:a@1.0.0-12345678901234567890"),
        Ok(AddPackageReq::Npm(req("a", "1.0.0-12345678901234567890")))
    );
    assert_eq!(
        classify("npm:@12345678901234567890/p@~1"),
        Ok(AddPackageReq::Npm(req("@12345678901234567890/p", "~1")))
    );
    assert_eq!(
        classify("@s/p12345678901234567890@1.2.3+12345678901234567890"),
        Ok(AddPackageReq::Jsr(req("@s/p12345678901234567890", "1.2.3+12345678901234567890")))
    );
    for identifier in ["npm:a@tag12345678901234567890", "jsr:a@1.0.0/sub12345678901234567890"] {
        if let Err(err) = classify(identifier) {
            assert!(err.reason != "A number in the version is too long", "{identifier}");
        }
    }
}

#[test]
fn number_of_nineteen_digits_is_parsed() {
    assert_eq!(
        classify("npm:a@~1234567890123456789"),
        Ok(AddPackageReq::Npm(req("a", "~1234567890123456789")))
    );
    assert_eq!(
        classify("jsr:@s/p@^9999999999999999999.9999999999999999999.9999999999999999999"),
        Ok(AddPackageReq::Jsr(req("@s/p", "^9999999999999999999.9999999999999999999.9999999999999999999")))
    );
}

#[test]
fn refusal_carries_the_parsers_reason() {
    let err = classify("npm:").unwrap_err();
    assert!(!err.reason.is_empty());
    assert!(err.reason.contains("npm:"), "{}", err.reason);
}

#[test]
fn only_the_numbers_of_a_version_are_bounded() {
    use_numbers_fit("", true);
    use_numbers_fit("a@1234567890123456789", true);
    use_numbers_fit("a@12345678901234567890", false);
    use_numbers_fit("a@~1.2.12345678901234567890", false);
    use_numbers_fit("a@^x.12345678901234567890", false);
    use_numbers_fit("a@1.2.3-12345678901234567890", true);
    use_numbers_fit("a@latest12345678901234567890", true);
    use_numbers_fit("a12345678901234567890", true);
    use_numbers_fit("12345678901234567890", true);
    use_numbers_fit("@12345678901234567890/b", true);
    use_numbers_fit("/@12345678901234567890/b", true);
    use_numbers_fit("a/@12345678901234567890", false);
    use_numbers_fit("a@1/12345678901234567890", true);
}

fn use_numbers_fit(body: &str, expected: bool) {
    assert_eq!(manifest_deps::requirement::numbers_fit(body), expected, "{body}");
}
