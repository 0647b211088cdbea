use indexmap::IndexMap;
use manifest_deps::entries::SelectedPackage;
use manifest_deps::imports::merge_imports;

fn selected(import_name: &str, package_name: &str, version_req: &str) -> SelectedPackage {
    SelectedPackage {
        import_name: import_name.to_string(),
        package_name: package_name.to_string(),
        version_req: version_req.to_string(),
    }
}

fn map(entries: &[(&str, &str)]) -> IndexMap<String, String> {
    let mut m = IndexMap::new();
    for (k, v) in entries {
        m.insert(k.to_string(), v.to_string());
    }
    m
}

fn pairs(entries: &[(&str, &str)]) -> Vec<(String, String)> {
    entries.iter().map(|(k, v)| (k.to_string(), v.to_string())).collect()
}

#[test]
fn merge_into_an_empty_map() {
    let merged = merge_imports(IndexMap::new(), &vec![selected("@foo/bar", "jsr:@foo/bar", "^1.2.0")], false);
    assert_eq!(merged, pairs(&[("@foo/bar", "jsr:@foo/bar@^1.2.0")]));
}

#[test]
fn merge_of_nothing_sorts_the_existing_entries() {
    let existing = map(&[("zeta", "npm:zeta@1"), ("alpha", "npm:alpha@2"), ("Mid", "npm:mid@3")]);
    let merged = merge_imports(existing, &Vec::new(), false);
    assert_eq!(merged, pairs(&[("Mid", "npm:mid@3"), ("alpha", "npm:alpha@2"), ("zeta", "npm:zeta@1")]));
}

#[test]
fn merge_overwrites_only_the_entry_of_the_same_name() {
    let existing = map(&[("b", "npm:b@^1.0.0"), ("a", "npm:a@^1.0.0"), ("c", "https://example.com/c.ts")]);
    let merged = merge_imports(existing, &vec![selected("a", "npm:a", "^2.0.0")], false);
    assert_eq!(
        merged,
        pairs(&[("a", "npm:a@^2.0.0"), ("b", "npm:b@^1.0.0"), ("c", "https://example.com/c.ts")])
    );
}

#[test]
fn later_package_of_the_same_name_wins() {
    let merged = merge_imports(
        IndexMap::new(),
        &vec![selected("a", "npm:a", "^1.0.0"), selected("b", "jsr:b", "^1.0.0"), selected("a", "npm:a", "~3.0.0")],
        false,
    );
    assert_eq!(merged, pairs(&[("a", "npm:a@~3.0.0"), ("b", "jsr:b@^1.0.0")]));
}

#[test]
fn adding_the_same_package_twice_keeps_one_entry_with_the_second_version() {
    let package = |version: &str| vec![selected("@foo/bar", "jsr:@foo/bar", version)];
    let first = merge_imports(map(&[("x", "npm:x@1")]), &package("^1.2.0"), false);
    let mut existing = IndexMap::new();
    for (k, v) in first {
        existing.insert(k, v);
    }
    let second = merge_imports(existing, &package("^1.3.0"), false);
    assert_eq!(second, pairs(&[("@foo/bar", "jsr:@foo/bar@^1.3.0"), ("x", "npm:x@1")]));
    assert_eq!(second.iter().filter(|(k, _)| k == "@foo/bar").count(), 1);
}

#[test]
fn merge_into_a_package_json_rewrites_the_entries() {
    let existing = map(&[("left-pad", "^1.0.0")]);
    let merged = merge_imports(
        existing,
        &vec![selected("@foo/bar", "jsr:@foo/bar", "^1.2.0"), selected("left-pad", "npm:left-pad", "~1.0.3")],
        true,
    );
    assert_eq!(merged, pairs(&[("@foo/bar", "npm:@jsr/foo__bar@^1.2.0"), ("left-pad", "~1.0.3")]));
}

#[test]
fn entries_come_out_in_byte_order_of_their_names() {
    let existing = map(&[("b", "1"), ("\u{e9}", "2"), ("a", "3"), ("@s/p", "4"), ("B", "5"), ("ab", "6")]);
    let names: Vec<String> = merge_imports(existing, &Vec::new(), false).into_iter().map(|e| e.0).collect();
    assert_eq!(names, vec!["@s/p", "B", "a", "ab", "b", "\u{e9}"]);
}
