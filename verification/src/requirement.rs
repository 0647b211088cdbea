//! Package requirements: what the user asked for, by registry.

use crate::text::{starts_with, strip_prefix, strip_prefix_spec};
use deno_semver::jsr::JsrPackageReqReference;
use deno_semver::npm::NpmPackageReqReference;
use deno_semver::package::PackageReqReferenceParseError;
use std::str::Chars;
use vstd::prelude::*;
use vstd::std_specs::iter::IteratorSpec;
use vstd::string::*;

verus! {

/// The name of a package and the text of its version constraint (`*` where
/// none was given).
#[derive(Debug, Clone, PartialEq, Eq)]
pub struct PackageReq {
    pub name: String,
    pub version_text: String,
}

/// A requirement, by the registry that it names.
#[derive(Debug, Clone, PartialEq, Eq)]
pub enum AddPackageReq {
    Jsr(PackageReq),
    Npm(PackageReq),
}

/// An identifier that is no package requirement.
#[derive(Debug, Clone, PartialEq, Eq)]
pub struct InvalidPackageReq {
    /// The identifier as it was given.
    pub input: String,
    /// Why it was refused, in the parser's words.
    pub reason: String,
}

/// The most digits that a number of a version may have. A number of so many
/// digits fits the parser's integers with room to add one.
pub const MAX_DIGITS: usize = 19;

/// A requirement as character sequences.
pub enum AddPackageReqView {
    Jsr { name: Seq<char>, version_text: Seq<char> },
    Npm { name: Seq<char>, version_text: Seq<char> },
}

impl View for AddPackageReq {
    type V = AddPackageReqView;

    open spec fn view(&self) -> AddPackageReqView {
        match self {
            AddPackageReq::Jsr(req) => AddPackageReqView::Jsr {
                name: req.name@,
                version_text: req.version_text@,
            },
            AddPackageReq::Npm(req) => AddPackageReqView::Npm {
                name: req.name@,
                version_text: req.version_text@,
            },
        }
    }
}

impl DeepView for AddPackageReq {
    type V = AddPackageReqView;

    open spec fn deep_view(&self) -> AddPackageReqView {
        self@
    }
}

/// `deno_semver::package::PackageReqReferenceParseError`, with which a
/// specifier is refused. Nothing is read of it.
#[verifier::external_type_specification]
#[verifier::external_body]
pub struct ExPackageReqReferenceParseError(PackageReqReferenceParseError);

/// Whether a character is one of the digits `0` to `9`.
pub open spec fn is_digit(c: char) -> bool {
    '0' <= c <= '9'
}

/// The length of the run of digits that ends just before position `end`.
pub open spec fn digit_run(text: Seq<char>, end: int) -> nat
    decreases end,
{
    if end <= 0 || end > text.len() || !is_digit(text[end - 1]) {
        0
    } else {
        1 + digit_run(text, end - 1)
    }
}

/// Whether a character may stand in front of a number of a version: a digit,
/// the dot between two numbers, a wildcard, or the operator of a range.
pub open spec fn leads_number(c: char) -> bool {
    is_digit(c) || c == '.' || c == 'x' || c == 'X' || c == '*' || c == '~' || c == '^'
}

/// Whether the position `i` of what follows the scheme is where the `@` of a
/// scope stands: the first, or the one behind a slash that stands first.
pub open spec fn is_scope_mark(body: Seq<char>, i: int) -> bool {
    i == 0 || (i == 1 && body[0] == '/')
}

/// Whether the position `end` of what follows the scheme lies in the numbers
/// of a version: behind an `@` that marks no scope, with nothing since but
/// what may stand in front of a number. The parser reads a version's major,
/// minor and patch number there, and no number anywhere else.
pub open spec fn in_numbers(body: Seq<char>, end: int) -> bool
    decreases end,
{
    if end <= 0 || end > body.len() {
        false
    } else if body[end - 1] == '@' {
        !is_scope_mark(body, end - 1)
    } else {
        leads_number(body[end - 1]) && in_numbers(body, end - 1)
    }
}

/// Whether no number of a version in what follows the scheme has more digits
/// than `MAX_DIGITS`. Digits in a name, a tag or a pre-release are not
/// counted.
pub open spec fn digit_runs_fit(body: Seq<char>) -> bool {
    forall|end: int|
        0 <= end <= body.len() && in_numbers(body, end) ==> #[trigger] digit_run(body, end)
            <= MAX_DIGITS
}

/// Whether no number of a version in what follows the scheme has more digits
/// than `MAX_DIGITS`.
pub fn numbers_fit(body: &str) -> (r: bool)
    ensures
        r == digit_runs_fit(body@),
{
    let mut rest: Chars<'_> = body.chars();
    let mut run: usize = 0;
    let mut inside: bool = false;
    let mut position: usize = 0;
    let mut first_is_slash: bool = false;
    let ghost mut k: int = 0;
    loop
        invariant
            0 <= k <= body@.len(),
            rest.remaining() == body@.skip(k),
            rest.obeys_prophetic_iter_laws(),
            position == (if k < 2 {
                k
            } else {
                2
            }),
            k >= 1 ==> first_is_slash == (body@[0] == '/'),
            inside == in_numbers(body@, k),
            inside ==> run == digit_run(body@, k),
            run <= MAX_DIGITS,
            forall|end: int|
                0 <= end <= k && in_numbers(body@, end) ==> #[trigger] digit_run(body@, end)
                    <= MAX_DIGITS,
        decreases body@.len() - k,
    {
        match rest.next() {
            None => {
                return true;
            },
            Some(c) => {
                proof {
                    assert(c == body@[k]);
                    assert(body@.skip(k).drop_first() =~= body@.skip(k + 1));
                }
                let digit = '0' <= c && c <= '9';
                if c == '@' {
                    inside = !(position == 0 || (position == 1 && first_is_slash));
                    run = 0;
                } else if inside && (digit || c == '.' || c == 'x' || c == 'X' || c == '*' || c
                    == '~' || c == '^') {
                    if digit {
                        if run == MAX_DIGITS {
                            proof {
                                assert(in_numbers(body@, k + 1));
                                assert(digit_run(body@, k + 1) == MAX_DIGITS + 1);
                            }
                            return false;
                        }
                        run = run + 1;
                    } else {
                        run = 0;
                    }
                } else {
                    inside = false;
                    run = 0;
                }
                if position == 0 {
                    first_is_slash = c == '/';
                }
                if position < 2 {
                    position = position + 1;
                }
                proof {
                    k = k + 1;
                }
            },
        }
    }
}

/// Whether `name` stands at the start of `body`, or behind the slash with
/// which `body` begins.
pub open spec fn begins_with_name(body: Seq<char>, name: Seq<char>) -> bool {
    name.is_prefix_of(body) || (body.len() > 0 && body[0] == '/' && name.is_prefix_of(body.skip(1)))
}

/// The name and the version text that a `jsr:` specifier holds, or `None`
/// where the text is no such specifier.
pub uninterp spec fn jsr_req_parts(specifier: Seq<char>) -> Option<(Seq<char>, Seq<char>)>;

/// The name and the version text that an `npm:` specifier holds, or `None`
/// where the text is no such specifier.
pub uninterp spec fn npm_req_parts(specifier: Seq<char>) -> Option<(Seq<char>, Seq<char>)>;

/// Parses a `jsr:` specifier with `JsrPackageReqReference::from_str`. The
/// result depends on the text alone; a text that does not begin with `jsr:`
/// is refused, and the name is read from the start of what follows the
/// scheme. A specifier whose version has a number of more digits than
/// `MAX_DIGITS` is left out: on a number that large the parser's arithmetic
/// can overflow.
#[verifier::external_body]
fn parse_jsr_req(specifier: &str) -> (r: Result<PackageReq, PackageReqReferenceParseError>)
    requires
        "jsr:"@.is_prefix_of(specifier@) ==> digit_runs_fit(
            specifier@.skip("jsr:"@.len() as int),
        ),
    ensures
        match r {
            Ok(req) => jsr_req_parts(specifier@) == Some((req.name@, req.version_text@)),
            Err(_) => jsr_req_parts(specifier@) is None,
        },
        r matches Ok(req) ==> "jsr:"@.is_prefix_of(specifier@) && begins_with_name(
            specifier@.skip("jsr:"@.len() as int),
            req.name@,
        ),
{
    let reference = JsrPackageReqReference::from_str(specifier)?;
    Ok(
        PackageReq {
            name: reference.req().name.to_string(),
            version_text: reference.req().version_req.version_text().to_string(),
        },
    )
}

/// Parses an `npm:` specifier with `NpmPackageReqReference::from_str`. The
/// result depends on the text alone; a text that does not begin with `npm:`
/// is refused, and the name is read from the start of what follows the
/// scheme. A specifier whose version has a number of more digits than
/// `MAX_DIGITS` is left out: on a number that large the parser's arithmetic
/// can overflow.
#[verifier::external_body]
fn parse_npm_req(specifier: &str) -> (r: Result<PackageReq, PackageReqReferenceParseError>)
    requires
        "npm:"@.is_prefix_of(specifier@) ==> digit_runs_fit(
            specifier@.skip("npm:"@.len() as int),
        ),
    ensures
        match r {
            Ok(req) => npm_req_parts(specifier@) == Some((req.name@, req.version_text@)),
            Err(_) => npm_req_parts(specifier@) is None,
        },
        r matches Ok(req) ==> "npm:"@.is_prefix_of(specifier@) && begins_with_name(
            specifier@.skip("npm:"@.len() as int),
            req.name@,
        ),
{
    let reference = NpmPackageReqReference::from_str(specifier)?;
    Ok(
        PackageReq {
            name: reference.req().name.to_string(),
            version_text: reference.req().version_req.version_text().to_string(),
        },
    )
}

/// Why the parser refused a specifier, by the `Display` of its error.
#[verifier::external_body]
fn refusal_reason(error: &PackageReqReferenceParseError) -> (r: String) {
    error.to_string()
}

/// Whether an identifier names the `npm:` registry.
pub open spec fn is_npm_identifier(package_name: Seq<char>) -> bool {
    "npm:"@.is_prefix_of(package_name)
}

/// An identifier without its registry's scheme.
pub open spec fn without_scheme(package_name: Seq<char>) -> Seq<char> {
    if is_npm_identifier(package_name) {
        package_name.skip("npm:"@.len() as int)
    } else {
        match strip_prefix_spec(package_name, "jsr:"@) {
            Some(rest) => rest,
            None => package_name,
        }
    }
}

/// The name of a requirement's package.
pub open spec fn name_of(req: AddPackageReqView) -> Seq<char> {
    match req {
        AddPackageReqView::Jsr { name, .. } => name,
        AddPackageReqView::Npm { name, .. } => name,
    }
}

/// The specifier as which an identifier is parsed: its registry's scheme,
/// then the identifier without the scheme. An identifier without a scheme
/// belongs to the `jsr:` registry.
pub open spec fn specifier_of(package_name: Seq<char>) -> Seq<char> {
    if is_npm_identifier(package_name) {
        "npm:"@ + without_scheme(package_name)
    } else {
        "jsr:"@ + without_scheme(package_name)
    }
}

/// The requirement that an identifier stands for, if it is one. An identifier
/// whose version has a number of more digits than `MAX_DIGITS` is none.
pub open spec fn classified(package_name: Seq<char>) -> Option<AddPackageReqView> {
    if !digit_runs_fit(without_scheme(package_name)) {
        None
    } else if is_npm_identifier(package_name) {
        match npm_req_parts(specifier_of(package_name)) {
            Some((name, version_text)) => Some(AddPackageReqView::Npm { name, version_text }),
            None => None,
        }
    } else {
        match jsr_req_parts(specifier_of(package_name)) {
            Some((name, version_text)) => Some(AddPackageReqView::Jsr { name, version_text }),
            None => None,
        }
    }
}

/// The requirement that the given parse of an identifier's specifier stands
/// for: of the `npm:` registry where the identifier names it, else of the
/// `jsr:` registry; the identifier itself where the parse failed.
pub fn requirement_from_parse(
    package_name: &str,
    parsed: Result<PackageReq, PackageReqReferenceParseError>,
) -> (r: Result<AddPackageReq, InvalidPackageReq>)
    ensures
        match r {
            Ok(req) => parsed is Ok && req == (if is_npm_identifier(package_name@) {
                AddPackageReq::Npm(parsed->Ok_0)
            } else {
                AddPackageReq::Jsr(parsed->Ok_0)
            }),
            Err(e) => parsed is Err && e.input@ == package_name@,
        },
{
    match parsed {
        Ok(req) => if starts_with(package_name, "npm:") {
            Ok(AddPackageReq::Npm(req))
        } else {
            Ok(AddPackageReq::Jsr(req))
        },
        Err(e) => Err(
            InvalidPackageReq { input: String::from_str(package_name), reason: refusal_reason(&e) },
        ),
    }
}

/// The refusal of an identifier that holds a number too long.
fn too_long_a_number(package_name: &str) -> (r: InvalidPackageReq)
    ensures
        r.input@ == package_name@,
        r.reason@ == "A number in the version is too long"@,
{
    InvalidPackageReq {
        input: String::from_str(package_name),
        reason: String::from_str("A number in the version is too long"),
    }
}

/// Classifies an identifier by its registry and parses it.
///
/// An identifier that begins with `npm:` is a requirement of that registry;
/// every other one is a requirement of the `jsr:` registry, with or without
/// that scheme in front. The name and the version text are those of the
/// specifier `specifier_of(package_name)`, which holds the scheme once; the
/// name is read from the start of the identifier behind its scheme, and so
/// holds no scheme of its own. An identifier that does not parse comes back
/// in the error, and so does one whose version has a number of more digits
/// than `MAX_DIGITS`.
pub fn classify(package_name: &str) -> (r: Result<AddPackageReq, InvalidPackageReq>)
    ensures
        match r {
            Ok(req) => classified(package_name@) == Some(req@),
            Err(e) => classified(package_name@) is None && e.input@ == package_name@,
        },
        r matches Ok(req) ==> (req is Npm <==> is_npm_identifier(package_name@))
            && begins_with_name(without_scheme(package_name@), name_of(req@)),
{
    if starts_with(package_name, "npm:") {
        let rest = match strip_prefix(package_name, "npm:") {
            Some(rest) => rest,
            None => String::from_str(package_name),
        };
        let mut specifier = String::from_str("npm:");
        specifier.append(rest.as_str());
        proof {
            assert(specifier@.skip("npm:"@.len() as int) =~= without_scheme(package_name@));
        }
        if !numbers_fit(rest.as_str()) {
            return Err(too_long_a_number(package_name));
        }
        requirement_from_parse(package_name, parse_npm_req(specifier.as_str()))
    } else {
        let rest = match strip_prefix(package_name, "jsr:") {
            Some(rest) => rest,
            None => String::from_str(package_name),
        };
        let mut specifier = String::from_str("jsr:");
        specifier.append(rest.as_str());
        proof {
            assert(specifier@.skip("jsr:"@.len() as int) =~= without_scheme(package_name@));
        }
        if !numbers_fit(rest.as_str()) {
            return Err(too_long_a_number(package_name));
        }
        requirement_from_parse(package_name, parse_jsr_req(specifier.as_str()))
    }
}

/// Classifies each identifier in turn. The first that does not parse fails
/// the whole list.
pub fn classify_all(package_names: &Vec<String>) -> (r: Result<Vec<AddPackageReq>, InvalidPackageReq>)
    ensures
        match r {
            Ok(reqs) => reqs.len() == package_names.len() && forall|i: int|
                0 <= i < reqs.len() ==> classified(#[trigger] package_names[i]@) == Some(reqs[i]@),
            Err(e) => exists|i: int|
                0 <= i < package_names.len() && classified(#[trigger] package_names[i]@) is None
                    && e.input@ == package_names[i]@ && forall|j: int|
                    0 <= j < i ==> classified(#[trigger] package_names[j]@) is Some,
        },
{
    let mut reqs: Vec<AddPackageReq> = Vec::new();
    let mut i: usize = 0;
    while i < package_names.len()
        invariant
            0 <= i <= package_names.len(),
            reqs.len() == i,
            forall|k: int| 0 <= k < i ==> classified(#[trigger] package_names[k]@) == Some(reqs[k]@),
        decreases package_names.len() - i,
    {
        match classify(package_names[i].as_str()) {
            Ok(req) => {
                reqs.push(req);
            },
            Err(e) => {
                return Err(e);
            },
        }
        i = i + 1;
    }
    Ok(reqs)
}

} // verus!
