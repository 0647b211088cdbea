//! From the resolved packages to the manifest's new text: the existing
//! dependency map is read, the packages are merged into it, the entries are
//! rendered in order of their names, and the text is patched. Nothing is
//! handed out for writing unless every step went through, and a dependency
//! section of the wrong shape fails before anything else is looked at.

use crate::driver::{collect_selected, collected, failure_of, LookupEvent, ResolveError};
use crate::entries::{generate_imports, generated_imports, Entry, SelectedPackage, SelectedPackageView};
use crate::imports::{merge_imports, merged_entries, sorted_entries};
use crate::manifest::{ConfigError, ConfigErrorView, DenoOrPackageJson, ShapeFault};
use crate::patch::{
    change_fits, find_property, lemma_well_placed_change_fits, nesting_fits, parse_failure_text,
    parse_root, parsed_root, patched, planned_change, property_value, shallow_enough,
    update_config_file_content, ObjectNode, ObjectNodeView, PatchError, ValueNode,
};
use crate::requirement::InvalidPackageReq;
use crate::text::{blank, is_blank};
use vstd::prelude::*;
use vstd::string::*;
use vstd::utf8::encode_utf8;

verus! {

/// Why no dependency was added.
#[derive(Debug, Clone)]
pub enum AddError {
    /// The manifest cannot be used.
    Config(ConfigError),
    /// An identifier is no package requirement.
    InvalidPackageReq(InvalidPackageReq),
    /// A lookup failed or found nothing.
    Resolve(ResolveError),
    /// The manifest's text holds more opening brackets and braces than a text
    /// may hold to be parsed.
    TooManyOpenings,
    /// The manifest's text does not parse; the parser's words.
    InvalidManifest(String),
    /// The manifest's text holds no object.
    NoObject,
    /// The dependency section in the manifest's text is no object.
    SectionNotObject,
    /// The manifest's text could not be patched.
    Patch(PatchError),
}

/// Why a manifest's text was not updated.
pub enum UpdateFailure {
    Config(ConfigErrorView),
    TooManyOpenings,
    InvalidManifest,
    NoObject,
    SectionNotObject,
    InvalidRange,
}

/// What is wrong with a section's shape, in words.
pub open spec fn fault_text(fault: ShapeFault) -> Seq<char> {
    match fault {
        ShapeFault::NotObject => "expected an object"@,
        ShapeFault::MemberNotString(name) => "expected a string as the value of "@ + name@,
    }
}

/// What is wrong with a section's shape, in words.
fn fault_message(fault: &ShapeFault) -> (r: String)
    ensures
        r@ == fault_text(*fault),
{
    match fault {
        ShapeFault::NotObject => String::from_str("expected an object"),
        ShapeFault::MemberNotString(name) => {
            String::from_str("expected a string as the value of ").concat(name.as_str())
        },
    }
}

impl AddError {
    /// The failure to update that the error stands for, if it is one.
    pub open spec fn update_failure(self) -> Option<UpdateFailure> {
        match self {
            AddError::Config(e) => Some(UpdateFailure::Config(e@)),
            AddError::TooManyOpenings => Some(UpdateFailure::TooManyOpenings),
            AddError::InvalidManifest(_) => Some(UpdateFailure::InvalidManifest),
            AddError::NoObject => Some(UpdateFailure::NoObject),
            AddError::SectionNotObject => Some(UpdateFailure::SectionNotObject),
            AddError::Patch(PatchError::InvalidRange) => Some(UpdateFailure::InvalidRange),
            _ => None,
        }
    }

    /// What the user is told.
    pub open spec fn message_text(self) -> Seq<char> {
        match self {
            AddError::Config(ConfigError::EmptyPath(location)) => {
                "Empty path in deno config specifier: "@ + location@
            },
            AddError::Config(ConfigError::UnsupportedFile(name)) => {
                "Unsupported deno config file: "@ + name@
            },
            AddError::Config(ConfigError::MalformedImports(fault)) => {
                "Malformed \"imports\" configuration: "@ + fault_text(fault)
            },
            AddError::Config(ConfigError::MalformedDependencies(fault)) => {
                "Malformed \"dependencies\" configuration: "@ + fault_text(fault)
            },
            AddError::Config(ConfigError::RemoteConfig) => {
                "Can't add dependencies to a remote configuration file"@
            },
            AddError::Config(ConfigError::CreatedConfigNotFound) => {
                "config not found, but it was just created"@
            },
            AddError::InvalidPackageReq(invalid) => {
                "Failed to parse package required: "@ + invalid.input@ + ": "@ + invalid.reason@
            },
            AddError::Resolve(ResolveError::LookupFailed(message)) => message@,
            AddError::Resolve(ResolveError::NotFound(name)) => name@ + " was not found."@,
            AddError::TooManyOpenings => {
                "Failed to parse the configuration file: it holds more than 128 opening brackets and braces."@
            },
            AddError::InvalidManifest(reason) => reason@,
            AddError::NoObject => "Failed updating config file due to no object."@,
            AddError::SectionNotObject => {
                "Failed updating config file: its dependencies are no object."@
            },
            AddError::Patch(PatchError::InvalidRange) => {
                "Failed updating config file: a position lies outside its text."@
            },
        }
    }

    /// What the user is told.
    pub fn message(&self) -> (r: String)
        ensures
            r@ == self.message_text(),
    {
        match self {
            AddError::Config(ConfigError::EmptyPath(location)) => {
                String::from_str("Empty path in deno config specifier: ").concat(location.as_str())
            },
            AddError::Config(ConfigError::UnsupportedFile(name)) => {
                String::from_str("Unsupported deno config file: ").concat(name.as_str())
            },
            AddError::Config(ConfigError::MalformedImports(fault)) => {
                String::from_str("Malformed \"imports\" configuration: ").concat(
                    fault_message(fault).as_str(),
                )
            },
            AddError::Config(ConfigError::MalformedDependencies(fault)) => {
                String::from_str("Malformed \"dependencies\" configuration: ").concat(
                    fault_message(fault).as_str(),
                )
            },
            AddError::Config(ConfigError::RemoteConfig) => {
                String::from_str("Can't add dependencies to a remote configuration file")
            },
            AddError::Config(ConfigError::CreatedConfigNotFound) => {
                String::from_str("config not found, but it was just created")
            },
            AddError::InvalidPackageReq(invalid) => {
                String::from_str("Failed to parse package required: ").concat(
                    invalid.input.as_str(),
                ).concat(": ").concat(invalid.reason.as_str())
            },
            AddError::Resolve(ResolveError::LookupFailed(message)) => message.clone(),
            AddError::Resolve(ResolveError::NotFound(name)) => name.clone().concat(" was not found."),
            AddError::TooManyOpenings => {
                String::from_str(
                    "Failed to parse the configuration file: it holds more than 128 opening brackets and braces.",
                )
            },
            AddError::InvalidManifest(reason) => reason.clone(),
            AddError::NoObject => String::from_str("Failed updating config file due to no object."),
            AddError::SectionNotObject => {
                String::from_str("Failed updating config file: its dependencies are no object.")
            },
            AddError::Patch(PatchError::InvalidRange) => {
                String::from_str("Failed updating config file: a position lies outside its text.")
            },
        }
    }
}

/// The text that is patched: an empty object where the manifest holds
/// nothing but white space, and else the manifest's contents.
pub open spec fn manifest_text(contents: Seq<char>) -> Seq<char> {
    if is_blank(contents) {
        "{}\n"@
    } else {
        contents
    }
}

/// The name of the property that holds a manifest's dependencies.
pub open spec fn section_key(config_file: DenoOrPackageJson) -> Seq<char> {
    if config_file is Deno {
        "imports"@
    } else {
        "dependencies"@
    }
}

/// The body of the dependency section after the packages were added: the
/// merged entries, rendered in ascending order of their names.
pub open spec fn rendered_body(
    existing: Seq<Entry>,
    selected: Seq<SelectedPackageView>,
    is_npm: bool,
) -> Seq<char> {
    generated_imports(sorted_entries(merged_entries(existing, selected, is_npm)))
}

/// The bytes of the manifest's new text, given the top-level object that its
/// text parsed to, or why there is none. The shape of the manifest's
/// dependency section is looked at first.
pub open spec fn added(
    config_file: DenoOrPackageJson,
    text: Seq<char>,
    root: Option<ObjectNodeView>,
    selected: Seq<SelectedPackageView>,
) -> Result<Seq<u8>, UpdateFailure> {
    match config_file.existing_entries() {
        Err(e) => Err(UpdateFailure::Config(e)),
        Ok(existing) => match root {
            None => Err(UpdateFailure::NoObject),
            Some(obj) => if property_value(obj, section_key(config_file)) == Some(
                ValueNode::Other,
            ) {
                Err(UpdateFailure::SectionNotObject)
            } else {
                let body = rendered_body(existing, selected, config_file is Npm);
                match planned_change(obj, body, section_key(config_file)) {
                    Err(_) => Err(UpdateFailure::InvalidRange),
                    Ok(change) => if change_fits(text, change.start as int, change.end as int) {
                        Ok(
                            patched(
                                encode_utf8(text),
                                change.start as int,
                                change.end as int,
                                encode_utf8(change.new_text),
                            ),
                        )
                    } else {
                        Err(UpdateFailure::InvalidRange)
                    },
                }
            },
        },
    }
}

/// The bytes of the manifest's new text after the packages were added, or why
/// there is none. A text with more opening brackets and braces than
/// `MAX_OPENINGS` is not parsed.
pub open spec fn manifest_update(
    config_file: DenoOrPackageJson,
    contents: Seq<char>,
    selected: Seq<SelectedPackageView>,
) -> Result<Seq<u8>, UpdateFailure> {
    match config_file.existing_entries() {
        Err(e) => Err(UpdateFailure::Config(e)),
        Ok(_) => if !nesting_fits(manifest_text(contents)) {
            Err(UpdateFailure::TooManyOpenings)
        } else {
            match parsed_root(manifest_text(contents)) {
                None => Err(UpdateFailure::InvalidManifest),
                Some(root) => added(config_file, manifest_text(contents), root, selected),
            }
        },
    }
}

/// Whether a result is the update, or the failure to update, that is given.
pub open spec fn is_update(r: Result<String, AddError>, update: Result<Seq<u8>, UpdateFailure>) -> bool {
    match update {
        Ok(bytes) => r is Ok && encode_utf8(r->Ok_0@) == bytes,
        Err(failure) => r is Err && r->Err_0.update_failure() == Some(failure),
    }
}

/// The manifest's contents, or an empty object where they are blank.
pub fn contents_or_empty_object(contents: &str) -> (r: String)
    ensures
        r@ == manifest_text(contents@),
{
    if blank(contents) {
        String::from_str("{}\n")
    } else {
        String::from_str(contents)
    }
}

/// Adds the selected packages to a manifest whose text parsed to `root`, and
/// gives the manifest's new text, not yet formatted.
///
/// Fails where the manifest's dependency section is malformed, where the
/// text holds no object, where the dependency section in the text is no
/// object, and where the text cannot be patched.
pub fn add_to_parsed_manifest(
    config_file: &DenoOrPackageJson,
    text: &str,
    root: Option<ObjectNode>,
    selected: &Vec<SelectedPackage>,
) -> (r: Result<String, AddError>)
    ensures
        is_update(r, added(*config_file, text@, root.deep_view(), selected.deep_view())),
{
    let existing_imports = match config_file.existing_imports() {
        Ok(map) => map,
        Err(e) => {
            return Err(AddError::Config(e));
        },
    };
    let obj = match root {
        Some(obj) => obj,
        None => {
            return Err(AddError::NoObject);
        },
    };
    match find_property(&obj, config_file.imports_key()) {
        Some(ValueNode::Other) => {
            return Err(AddError::SectionNotObject);
        },
        _ => {},
    }
    let import_list = merge_imports(existing_imports, selected, config_file.is_npm());
    let generated_imports = generate_imports(import_list);
    match update_config_file_content(&obj, text, generated_imports, config_file.imports_key()) {
        Ok(new_text) => Ok(new_text),
        Err(e) => Err(AddError::Patch(e)),
    }
}

/// Adds the selected packages to a manifest with the given contents, and
/// gives the manifest's new text, not yet formatted.
///
/// A text with more opening brackets and braces than `MAX_OPENINGS` is
/// refused without being parsed. The positions that the parser gives are
/// those of the braces in the text, so a text that parses is never refused
/// for its positions.
pub fn add_to_manifest(
    config_file: &DenoOrPackageJson,
    config_file_contents: &str,
    selected: &Vec<SelectedPackage>,
) -> (r: Result<String, AddError>)
    ensures
        is_update(r, manifest_update(*config_file, config_file_contents@, selected.deep_view())),
        !(r matches Err(AddError::Patch(_))),
{
    if let Err(e) = config_file.existing_imports() {
        return Err(AddError::Config(e));
    }
    let text = contents_or_empty_object(config_file_contents);
    if !shallow_enough(text.as_str()) {
        return Err(AddError::TooManyOpenings);
    }
    match parse_root(text.as_str()) {
        Ok(root) => {
            proof {
                if root is Some && config_file.existing_entries() is Ok && property_value(
                    root->Some_0@,
                    section_key(*config_file),
                ) != Some(ValueNode::Other) {
                    lemma_well_placed_change_fits(
                        root->Some_0@,
                        text@,
                        rendered_body(
                            config_file.existing_entries()->Ok_0,
                            selected.deep_view(),
                            config_file is Npm,
                        ),
                        section_key(*config_file),
                    );
                }
            }
            add_to_parsed_manifest(config_file, text.as_str(), root, selected)
        },
        Err(e) => Err(AddError::InvalidManifest(parse_failure_text(&e))),
    }
}

/// Adds what a batch of lookups selected to a manifest with the given
/// contents, and gives the manifest's new text, not yet formatted.
///
/// A manifest whose dependency section is malformed is refused for that,
/// whatever the lookups reported. Where one lookup of the batch failed or
/// found nothing, the batch's first such failure is the result: there is no
/// text to write, whatever the other lookups selected.
pub fn add_resolved(
    config_file: &DenoOrPackageJson,
    config_file_contents: &str,
    events: &Vec<LookupEvent>,
) -> (r: Result<String, AddError>)
    ensures
        match config_file.existing_entries() {
            Err(e) => r matches Err(AddError::Config(shape)) && shape@ == e,
            Ok(_) => match collected(events.deep_view()) {
                Err(e) => r matches Err(AddError::Resolve(failure)) && failure@ == e,
                Ok(selected) => is_update(
                    r,
                    manifest_update(*config_file, config_file_contents@, selected),
                ),
            },
        },
        (exists|i: int| 0 <= i < events.len() && failure_of(#[trigger] events.deep_view()[i]) is Some)
            ==> r is Err,
{
    proof {
        crate::driver::lemma_first_failure_fails_the_batch(events.deep_view());
    }
    if let Err(e) = config_file.existing_imports() {
        return Err(AddError::Config(e));
    }
    match collect_selected(events) {
        Ok(selected) => add_to_manifest(config_file, config_file_contents, &selected),
        Err(e) => Err(AddError::Resolve(e)),
    }
}

} // verus!
