//! The manifest that dependencies are added to: a `deno.json` or
//! `deno.jsonc`, or a `package.json`.

use crate::entries::Entry;
use crate::imports::{insert_entry, insert_import, map_entries, new_import_map};
use crate::text::same_text;
use indexmap::IndexMap;
use vstd::prelude::*;
use vstd::string::*;

verus! {

/// What the library reads of a manifest's location.
#[derive(Debug, Clone, PartialEq, Eq)]
pub struct ConfigSpecifier {
    /// The location as a URL.
    pub text: String,
    /// The URL's scheme, without the colon.
    pub scheme: String,
    /// The last segment of the URL's path, where the URL has a path.
    pub file_name: Option<String>,
}

/// What is wrong with the shape of a dependency section.
#[derive(Debug, Clone, PartialEq, Eq)]
pub enum ShapeFault {
    /// The section is no object.
    NotObject,
    /// The value of the member of this name is no string.
    MemberNotString(String),
}

pub enum ShapeFaultView {
    NotObject,
    MemberNotString(Seq<char>),
}

impl View for ShapeFault {
    type V = ShapeFaultView;

    open spec fn view(&self) -> ShapeFaultView {
        match self {
            ShapeFault::NotObject => ShapeFaultView::NotObject,
            ShapeFault::MemberNotString(name) => ShapeFaultView::MemberNotString(name@),
        }
    }
}

/// Why a manifest cannot be used.
#[derive(Debug, Clone, PartialEq, Eq)]
pub enum ConfigError {
    /// The location of the `deno.json` has no path; the location.
    EmptyPath(String),
    /// The file is neither `deno.json` nor `deno.jsonc`; its name.
    UnsupportedFile(String),
    /// The `imports` of a `deno.json` are no object that maps names to
    /// strings.
    MalformedImports(ShapeFault),
    /// The `dependencies` of a `package.json` are no object that maps names
    /// to strings.
    MalformedDependencies(ShapeFault),
    /// The manifest does not lie on this machine.
    RemoteConfig,
    /// The `deno.json` that was just created was not found.
    CreatedConfigNotFound,
}

pub enum ConfigErrorView {
    EmptyPath(Seq<char>),
    UnsupportedFile(Seq<char>),
    MalformedImports(ShapeFaultView),
    MalformedDependencies(ShapeFaultView),
    RemoteConfig,
    CreatedConfigNotFound,
}

impl View for ConfigError {
    type V = ConfigErrorView;

    open spec fn view(&self) -> ConfigErrorView {
        match self {
            ConfigError::EmptyPath(text) => ConfigErrorView::EmptyPath(text@),
            ConfigError::UnsupportedFile(name) => ConfigErrorView::UnsupportedFile(name@),
            ConfigError::MalformedImports(fault) => ConfigErrorView::MalformedImports(fault@),
            ConfigError::MalformedDependencies(fault) => ConfigErrorView::MalformedDependencies(
                fault@,
            ),
            ConfigError::RemoteConfig => ConfigErrorView::RemoteConfig,
            ConfigError::CreatedConfigNotFound => ConfigErrorView::CreatedConfigNotFound,
        }
    }
}

/// The two dialects of a `deno.json`.
#[derive(Debug, Clone, Copy, PartialEq, Eq)]
pub enum DenoConfigFormat {
    Json,
    Jsonc,
}

/// The dialect that a location's file name stands for.
pub open spec fn format_of(file_name: Option<Seq<char>>, text: Seq<char>) -> Result<
    DenoConfigFormat,
    ConfigErrorView,
> {
    match file_name {
        None => Err(ConfigErrorView::EmptyPath(text)),
        Some(name) => if name == "deno.json"@ {
            Ok(DenoConfigFormat::Json)
        } else if name == "deno.jsonc"@ {
            Ok(DenoConfigFormat::Jsonc)
        } else {
            Err(ConfigErrorView::UnsupportedFile(name))
        },
    }
}

impl DenoConfigFormat {
    /// The dialect of the `deno.json` at `spec`, by its file name.
    pub fn from_specifier(spec: &ConfigSpecifier) -> (r: Result<Self, ConfigError>)
        ensures
            match r {
                Ok(format) => format_of(spec.file_name.deep_view(), spec.text@) == Ok::<
                    DenoConfigFormat,
                    ConfigErrorView,
                >(format),
                Err(e) => format_of(spec.file_name.deep_view(), spec.text@) == Err::<
                    DenoConfigFormat,
                    ConfigErrorView,
                >(e@),
            },
    {
        match &spec.file_name {
            None => Err(ConfigError::EmptyPath(spec.text.clone())),
            Some(name) => {
                if same_text(name.as_str(), "deno.json") {
                    Ok(DenoConfigFormat::Json)
                } else if same_text(name.as_str(), "deno.jsonc") {
                    Ok(DenoConfigFormat::Jsonc)
                } else {
                    Err(ConfigError::UnsupportedFile(name.clone()))
                }
            },
        }
    }
}

/// How prose is wrapped by the formatter.
#[derive(Debug, Clone, Copy, PartialEq, Eq)]
pub enum ProseWrap {
    Always,
    Never,
    Preserve,
}

/// A manifest's formatting preferences; what is `None` is left to the
/// formatter.
#[derive(Debug, Clone, Copy, PartialEq, Eq)]
pub struct FmtOptionsConfig {
    pub use_tabs: Option<bool>,
    pub line_width: Option<u32>,
    pub indent_width: Option<u8>,
    pub single_quote: Option<bool>,
    pub prose_wrap: Option<ProseWrap>,
    pub semi_colons: Option<bool>,
}

/// What reading the `fmt` section of a `deno.json` came to.
#[derive(Debug, Clone, Copy, PartialEq, Eq)]
pub enum FmtSection {
    /// The section's options.
    Options(FmtOptionsConfig),
    /// There is no section.
    Absent,
    /// The section could not be read.
    Invalid,
}

/// The preferences that leave everything to the formatter.
pub open spec fn no_preferences() -> FmtOptionsConfig {
    FmtOptionsConfig {
        use_tabs: None,
        line_width: None,
        indent_width: None,
        single_quote: None,
        prose_wrap: None,
        semi_colons: None,
    }
}

impl Default for FmtOptionsConfig {
    fn default() -> (r: Self)
        ensures
            r == no_preferences(),
    {
        FmtOptionsConfig {
            use_tabs: None,
            line_width: None,
            indent_width: None,
            single_quote: None,
            prose_wrap: None,
            semi_colons: None,
        }
    }
}

/// The value of one member of a dependency section.
#[derive(Debug, Clone, PartialEq, Eq)]
pub enum MemberValue {
    String(String),
    /// A value that is no string.
    Other,
}

/// The value of a dependency section: of the `imports` of a `deno.json`, or
/// of the `dependencies` of a `package.json`.
#[derive(Debug, Clone, PartialEq, Eq)]
pub enum ImportsValue {
    /// An object's members in order.
    Object(Vec<(String, MemberValue)>),
    /// A value that is no object.
    Other,
}

/// What the library reads of a `deno.json`.
#[derive(Debug, Clone, PartialEq, Eq)]
pub struct DenoConfig {
    pub specifier: ConfigSpecifier,
    /// The value of the `imports` property, where there is one.
    pub imports: Option<ImportsValue>,
    /// What reading the `fmt` section came to.
    pub fmt: FmtSection,
}

/// What the library reads of a `package.json`.
#[derive(Debug, Clone, PartialEq, Eq)]
pub struct PackageJson {
    pub specifier: ConfigSpecifier,
    /// The value of the `dependencies` property, where there is one.
    pub dependencies: Option<ImportsValue>,
}

/// The manifest that dependencies are added to.
#[derive(Debug, Clone, PartialEq, Eq)]
pub enum DenoOrPackageJson {
    Deno(DenoConfig, DenoConfigFormat),
    Npm(PackageJson, Option<FmtOptionsConfig>),
}

/// The entries that the members of a dependency section stand for, each
/// stored in turn, or the index of the first member whose value is no string.
pub open spec fn string_members(members: Seq<(String, MemberValue)>) -> Result<Seq<Entry>, int>
    decreases members.len(),
{
    if members.len() == 0 {
        Ok(Seq::empty())
    } else {
        match string_members(members.drop_last()) {
            Err(i) => Err(i),
            Ok(entries) => match members.last().1 {
                MemberValue::String(value) => Ok(insert_entry(entries, members.last().0@, value@)),
                MemberValue::Other => Err(members.len() - 1),
            },
        }
    }
}

/// The entries of a dependency section: those of its members where it is an
/// object whose members are all strings, none where there is no section, and
/// else what is wrong with its shape.
pub open spec fn section_entries(section: Option<ImportsValue>) -> Result<Seq<Entry>, ShapeFaultView> {
    match section {
        None => Ok(Seq::empty()),
        Some(ImportsValue::Object(members)) => match string_members(members@) {
            Ok(entries) => Ok(entries),
            Err(i) => Err(ShapeFaultView::MemberNotString(members@[i].0@)),
        },
        Some(ImportsValue::Other) => Err(ShapeFaultView::NotObject),
    }
}

/// Reads a dependency section into a map, in the section's order.
pub fn read_section(section: &Option<ImportsValue>) -> (r: Result<
    IndexMap<String, String>,
    ShapeFault,
>)
    ensures
        match r {
            Ok(map) => section_entries(*section) == Ok::<Seq<Entry>, ShapeFaultView>(
                map_entries(map),
            ),
            Err(fault) => section_entries(*section) == Err::<Seq<Entry>, ShapeFaultView>(fault@),
        },
{
    match section {
        None => Ok(new_import_map()),
        Some(ImportsValue::Object(members)) => {
            let mut map = new_import_map();
            let mut i: usize = 0;
            proof {
                assert(members@.take(0) =~= Seq::<(String, MemberValue)>::empty());
            }
            while i < members.len()
                invariant
                    0 <= i <= members.len(),
                    *section == Some(ImportsValue::Object(*members)),
                    string_members(members@.take(i as int)) == Ok::<Seq<Entry>, int>(
                        map_entries(map),
                    ),
                decreases members.len() - i,
            {
                proof {
                    assert(members@.take(i + 1).drop_last() =~= members@.take(i as int));
                    assert(members@.take(i + 1).last() == members@[i as int]);
                }
                match &members[i].1 {
                    MemberValue::String(value) => {
                        insert_import(&mut map, members[i].0.clone(), value.clone());
                    },
                    MemberValue::Other => {
                        proof {
                            lemma_string_members_fails_on(members@, i + 1);
                        }
                        return Err(ShapeFault::MemberNotString(members[i].0.clone()));
                    },
                }
                i = i + 1;
            }
            proof {
                assert(members@.take(i as int) =~= members@);
            }
            Ok(map)
        },
        Some(ImportsValue::Other) => Err(ShapeFault::NotObject),
    }
}

impl DenoOrPackageJson {
    /// The manifest's location.
    pub fn specifier(&self) -> (r: &ConfigSpecifier)
        ensures
            *r == (match *self {
                DenoOrPackageJson::Deno(deno, _) => deno.specifier,
                DenoOrPackageJson::Npm(npm, _) => npm.specifier,
            }),
    {
        match self {
            DenoOrPackageJson::Deno(deno, _) => &deno.specifier,
            DenoOrPackageJson::Npm(npm, _) => &npm.specifier,
        }
    }

    /// The dependency map that the manifest holds, or what is wrong with the
    /// shape of its dependency section.
    pub open spec fn existing_entries(self) -> Result<Seq<Entry>, ConfigErrorView> {
        match self {
            DenoOrPackageJson::Deno(deno, _) => match section_entries(deno.imports) {
                Ok(entries) => Ok(entries),
                Err(fault) => Err(ConfigErrorView::MalformedImports(fault)),
            },
            DenoOrPackageJson::Npm(npm, _) => match section_entries(npm.dependencies) {
                Ok(entries) => Ok(entries),
                Err(fault) => Err(ConfigErrorView::MalformedDependencies(fault)),
            },
        }
    }

    /// The existing imports or dependencies of the manifest, in its order.
    ///
    /// A section that is no object, or holds a value that is no string, is
    /// malformed, in a `deno.json` and in a `package.json` alike.
    pub fn existing_imports(&self) -> (r: Result<IndexMap<String, String>, ConfigError>)
        ensures
            match r {
                Ok(map) => self.existing_entries() == Ok::<Seq<Entry>, ConfigErrorView>(
                    map_entries(map),
                ),
                Err(e) => self.existing_entries() == Err::<Seq<Entry>, ConfigErrorView>(e@),
            },
    {
        match self {
            DenoOrPackageJson::Deno(deno, _) => match read_section(&deno.imports) {
                Ok(map) => Ok(map),
                Err(fault) => Err(ConfigError::MalformedImports(fault)),
            },
            DenoOrPackageJson::Npm(npm, _) => match read_section(&npm.dependencies) {
                Ok(map) => Ok(map),
                Err(fault) => Err(ConfigError::MalformedDependencies(fault)),
            },
        }
    }

    /// The manifest's formatting preferences: those of a `deno.json` whose
    /// `fmt` section was read, those handed along with a `package.json`, and
    /// none where there is no section or it could not be read.
    pub open spec fn stated_fmt_options(self) -> FmtOptionsConfig {
        match self {
            DenoOrPackageJson::Deno(deno, _) => match deno.fmt {
                FmtSection::Options(options) => options,
                _ => no_preferences(),
            },
            DenoOrPackageJson::Npm(_, config) => match config {
                Some(options) => options,
                None => no_preferences(),
            },
        }
    }

    /// The manifest's formatting preferences, or none where it states none.
    pub fn fmt_options(&self) -> (r: FmtOptionsConfig)
        ensures
            r == self.stated_fmt_options(),
    {
        match self {
            DenoOrPackageJson::Deno(deno, _) => match deno.fmt {
                FmtSection::Options(options) => options,
                _ => FmtOptionsConfig::default(),
            },
            DenoOrPackageJson::Npm(_, config) => match config {
                Some(options) => *options,
                None => FmtOptionsConfig::default(),
            },
        }
    }

    /// The name of the property that holds the dependencies.
    pub fn imports_key(&self) -> (r: &'static str)
        ensures
            r@ == (if self is Deno {
                "imports"@
            } else {
                "dependencies"@
            }),
    {
        match self {
            DenoOrPackageJson::Deno(..) => "imports",
            DenoOrPackageJson::Npm(..) => "dependencies",
        }
    }

    /// The manifest's file name, by which the formatter knows its dialect.
    pub fn file_name(&self) -> (r: &'static str)
        ensures
            r@ == (match *self {
                DenoOrPackageJson::Deno(_, DenoConfigFormat::Json) => "deno.json"@,
                DenoOrPackageJson::Deno(_, DenoConfigFormat::Jsonc) => "deno.jsonc"@,
                DenoOrPackageJson::Npm(..) => "package.json"@,
            }),
    {
        match self {
            DenoOrPackageJson::Deno(_, format) => match format {
                DenoConfigFormat::Json => "deno.json",
                DenoConfigFormat::Jsonc => "deno.jsonc",
            },
            DenoOrPackageJson::Npm(..) => "package.json",
        }
    }

    /// Whether the manifest is a `package.json`, whose entries of the `jsr:`
    /// registry are rewritten.
    pub fn is_npm(&self) -> (r: bool)
        ensures
            r == (self is Npm),
    {
        match self {
            DenoOrPackageJson::Deno(..) => false,
            DenoOrPackageJson::Npm(..) => true,
        }
    }

    /// Refuses a manifest that does not lie on this machine.
    pub fn ensure_local(&self) -> (r: Result<(), ConfigError>)
        ensures
            r is Ok <==> self.specifier_scheme() == "file"@,
            r matches Err(e) ==> e == ConfigError::RemoteConfig,
    {
        if same_text(self.specifier().scheme.as_str(), "file") {
            Ok(())
        } else {
            Err(ConfigError::RemoteConfig)
        }
    }

    /// The scheme of the manifest's location.
    pub open spec fn specifier_scheme(self) -> Seq<char> {
        match self {
            DenoOrPackageJson::Deno(deno, _) => deno.specifier.scheme@,
            DenoOrPackageJson::Npm(npm, _) => npm.specifier.scheme@,
        }
    }
}

/// What the search for a manifest came to.
#[derive(Debug, Clone, PartialEq, Eq)]
pub enum Discovery {
    /// The manifest to work on.
    Found(DenoOrPackageJson),
    /// There is none to work on: create an empty `deno.json`, and search
    /// again.
    CreateDenoJson,
}

/// The manifest to work on, among those that were found.
///
/// A `deno.json` goes before a `package.json`. A `package.json` is used only
/// where there is no `deno.json` and the future features are switched on.
pub open spec fn preferred(
    deno: Option<DenoConfig>,
    package_json: Option<PackageJson>,
    enable_future_features: bool,
) -> Result<Discovery, ConfigErrorView> {
    match deno {
        Some(deno) => match format_of(deno.specifier.file_name.deep_view(), deno.specifier.text@) {
            Ok(format) => Ok(Discovery::Found(DenoOrPackageJson::Deno(deno, format))),
            Err(e) => Err(e),
        },
        None => match package_json {
            Some(package_json) if enable_future_features => Ok(
                Discovery::Found(DenoOrPackageJson::Npm(package_json, None)),
            ),
            _ => Ok(Discovery::CreateDenoJson),
        },
    }
}

impl DenoOrPackageJson {
    /// Picks the manifest to work on among those that were found, or says
    /// that a `deno.json` is to be created.
    pub fn from_flags(
        deno: Option<DenoConfig>,
        package_json: Option<PackageJson>,
        enable_future_features: bool,
    ) -> (r: Result<Discovery, ConfigError>)
        ensures
            match r {
                Ok(found) => preferred(deno, package_json, enable_future_features) == Ok::<
                    Discovery,
                    ConfigErrorView,
                >(found),
                Err(e) => preferred(deno, package_json, enable_future_features) == Err::<
                    Discovery,
                    ConfigErrorView,
                >(e@),
            },
    {
        match deno {
            Some(deno) => match DenoConfigFormat::from_specifier(&deno.specifier) {
                Ok(format) => Ok(Discovery::Found(DenoOrPackageJson::Deno(deno, format))),
                Err(e) => Err(e),
            },
            None => match package_json {
                Some(package_json) => if enable_future_features {
                    Ok(Discovery::Found(DenoOrPackageJson::Npm(package_json, None)))
                } else {
                    Ok(Discovery::CreateDenoJson)
                },
                None => Ok(Discovery::CreateDenoJson),
            },
        }
    }

    /// The manifest to work on after a `deno.json` was created: that file,
    /// which is plain JSON. It is an error where the search does not find it.
    pub fn from_created(deno: Option<DenoConfig>) -> (r: Result<Self, ConfigError>)
        ensures
            r == (match deno {
                Some(deno) => Ok::<Self, ConfigError>(
                    DenoOrPackageJson::Deno(deno, DenoConfigFormat::Json),
                ),
                None => Err::<Self, ConfigError>(ConfigError::CreatedConfigNotFound),
            }),
    {
        match deno {
            Some(deno) => Ok(DenoOrPackageJson::Deno(deno, DenoConfigFormat::Json)),
            None => Err(ConfigError::CreatedConfigNotFound),
        }
    }
}

/// Members of which one among the first `n` is no string fail at that one,
/// whatever follows.
pub proof fn lemma_string_members_fails_on(members: Seq<(String, MemberValue)>, n: int)
    requires
        0 <= n <= members.len(),
        string_members(members.take(n)) is Err,
    ensures
        string_members(members) == string_members(members.take(n)),
    decreases members.len() - n,
{
    if n == members.len() {
        assert(members.take(n) =~= members);
    } else {
        assert(members.take(n + 1).drop_last() =~= members.take(n));
        lemma_string_members_fails_on(members, n + 1);
    }
}

} // verus!
