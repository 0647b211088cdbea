//! Resolved packages, the manifest entry each becomes, and the rendered body
//! of the dependency section.

use crate::text::{push_char, replace_char, replace_char_spec, strip_prefix, strip_prefix_spec};
use std::str::Chars;
use vstd::std_specs::iter::IteratorSpec;
use vstd::prelude::*;
use vstd::string::*;

verus! {

/// A package for which a version was resolved.
#[derive(Debug, Clone)]
pub struct SelectedPackage {
    /// The name under which code imports the package.
    pub import_name: String,
    /// The package's name with its registry scheme in front.
    pub package_name: String,
    /// The range operator followed by the resolved version.
    pub version_req: String,
}

/// The three texts of a [`SelectedPackage`] as character sequences.
pub struct SelectedPackageView {
    pub import_name: Seq<char>,
    pub package_name: Seq<char>,
    pub version_req: Seq<char>,
}

impl View for SelectedPackage {
    type V = SelectedPackageView;

    open spec fn view(&self) -> SelectedPackageView {
        SelectedPackageView {
            import_name: self.import_name@,
            package_name: self.package_name@,
            version_req: self.version_req@,
        }
    }
}

impl DeepView for SelectedPackage {
    type V = SelectedPackageView;

    open spec fn deep_view(&self) -> SelectedPackageView {
        self@
    }
}

/// A name and the specifier stored under it.
pub type Entry = (Seq<char>, Seq<char>);

/// The scope and name of a package of the scoped registry as one package name
/// of the other registry: a leading `@` dropped, every `/` written `__`.
pub open spec fn scope_replaced(jsr_package: Seq<char>) -> Seq<char> {
    let bare = match strip_prefix_spec(jsr_package, "@"@) {
        Some(rest) => rest,
        None => jsr_package,
    };
    replace_char_spec(bare, '/', "__"@)
}

/// The entry that a package becomes in a `package.json`.
///
/// A package of the `npm:` registry is stored under its bare package name with
/// its version range. A package of the `jsr:` registry is stored under its
/// import name, as the `npm:@jsr/` package that stands for it. Any other
/// package name is stored as it is.
pub open spec fn package_json_entry(selected: SelectedPackageView) -> Entry {
    match strip_prefix_spec(selected.package_name, "npm:"@) {
        Some(npm_package) => (npm_package, selected.version_req),
        None => match strip_prefix_spec(selected.package_name, "jsr:"@) {
            Some(jsr_package) => (
                selected.import_name,
                "npm:@jsr/"@ + scope_replaced(jsr_package) + "@"@ + selected.version_req,
            ),
            None => (selected.package_name, selected.version_req),
        },
    }
}

/// The name and the specifier under which `selected` is stored in a `package.json`.
pub fn package_json_dependency_entry(selected: SelectedPackage) -> (r: (String, String))
    ensures
        (r.0@, r.1@) == package_json_entry(selected@),
{
    match strip_prefix(selected.package_name.as_str(), "npm:") {
        Some(npm_package) => (npm_package, selected.version_req),
        None => match strip_prefix(selected.package_name.as_str(), "jsr:") {
            Some(jsr_package) => {
                let bare = match strip_prefix(jsr_package.as_str(), "@") {
                    Some(rest) => rest,
                    None => jsr_package,
                };
                let replaced = replace_char(bare.as_str(), '/', "__");
                let mut version_req = String::from_str("npm:@jsr/");
                version_req.append(replaced.as_str());
                version_req.append("@");
                version_req.append(selected.version_req.as_str());
                (selected.import_name, version_req)
            },
            None => (selected.package_name, selected.version_req),
        },
    }
}

/// The entry that a package becomes in a `deno.json`: its import name, and its
/// package name and version range with an `@` between them.
pub open spec fn deno_json_entry(selected: SelectedPackageView) -> Entry {
    (selected.import_name, selected.package_name + "@"@ + selected.version_req)
}

/// The entry that a package becomes in a manifest of the given kind.
pub open spec fn manifest_entry(selected: SelectedPackageView, is_npm: bool) -> Entry {
    if is_npm {
        package_json_entry(selected)
    } else {
        deno_json_entry(selected)
    }
}

/// The name and the specifier under which `selected` is stored in a manifest
/// of the given kind.
pub fn manifest_dependency_entry(selected: SelectedPackage, is_npm: bool) -> (r: (String, String))
    ensures
        (r.0@, r.1@) == manifest_entry(selected@, is_npm),
{
    if is_npm {
        package_json_dependency_entry(selected)
    } else {
        let mut specifier = selected.package_name;
        specifier.append("@");
        specifier.append(selected.version_req.as_str());
        (selected.import_name, specifier)
    }
}

/// The hexadecimal digit for a number below sixteen.
pub open spec fn hex_digit(n: int) -> char {
    if n == 0 {
        '0'
    } else if n == 1 {
        '1'
    } else if n == 2 {
        '2'
    } else if n == 3 {
        '3'
    } else if n == 4 {
        '4'
    } else if n == 5 {
        '5'
    } else if n == 6 {
        '6'
    } else if n == 7 {
        '7'
    } else if n == 8 {
        '8'
    } else if n == 9 {
        '9'
    } else if n == 10 {
        'a'
    } else if n == 11 {
        'b'
    } else if n == 12 {
        'c'
    } else if n == 13 {
        'd'
    } else if n == 14 {
        'e'
    } else {
        'f'
    }
}

/// The number that a hexadecimal digit stands for, or -1 for another
/// character.
pub open spec fn hex_value(c: char) -> int {
    if '0' <= c <= '9' {
        c as int - '0' as int
    } else if 'a' <= c <= 'f' {
        c as int - 'a' as int + 10
    } else {
        -1
    }
}

/// Whether a character cannot stand for itself inside a JSON string: the
/// double quote, the backslash and the control characters.
pub open spec fn needs_escape(c: char) -> bool {
    c == '"' || c == '\\' || (c as u32) < 0x20
}

/// A character as it stands inside a JSON string: a double quote and a
/// backslash behind a backslash, a control character as `\u00` and its two
/// hexadecimal digits, every other character as itself.
pub open spec fn escaped_char(c: char) -> Seq<char> {
    if c == '"' || c == '\\' {
        seq!['\\', c]
    } else if (c as u32) < 0x20 {
        seq!['\\', 'u', '0', '0', hex_digit(c as u32 as int / 16), hex_digit(c as u32 as int % 16)]
    } else {
        seq![c]
    }
}

/// A text as it stands inside a JSON string.
pub open spec fn escaped(text: Seq<char>) -> Seq<char>
    decreases text.len(),
{
    if text.len() == 0 {
        Seq::empty()
    } else {
        escaped(text.drop_last()) + escaped_char(text.last())
    }
}

/// The text that the inside of a JSON string stands for, where it is written
/// with the escapes above, and `None` for any other text.
pub open spec fn unescaped(inside: Seq<char>) -> Option<Seq<char>>
    decreases inside.len(),
{
    if inside.len() == 0 {
        Some(Seq::empty())
    } else if inside[0] == '\\' {
        if inside.len() >= 2 && (inside[1] == '"' || inside[1] == '\\') {
            match unescaped(inside.skip(2)) {
                Some(rest) => Some(seq![inside[1]] + rest),
                None => None,
            }
        } else if inside.len() >= 6 && inside[1] == 'u' && inside[2] == '0' && inside[3] == '0'
            && 0 <= hex_value(inside[4]) < 2 && 0 <= hex_value(inside[5]) {
            match unescaped(inside.skip(6)) {
                Some(rest) => Some(
                    seq![(16 * hex_value(inside[4]) + hex_value(inside[5])) as char] + rest,
                ),
                None => None,
            }
        } else {
            None
        }
    } else if needs_escape(inside[0]) {
        None
    } else {
        match unescaped(inside.skip(1)) {
            Some(rest) => Some(seq![inside[0]] + rest),
            None => None,
        }
    }
}

/// A text as a JSON string: in double quotes, with what cannot stand for
/// itself escaped.
pub open spec fn json_string(text: Seq<char>) -> Seq<char> {
    "\""@ + escaped(text) + "\""@
}

/// Escaping goes character by character.
pub proof fn lemma_escaped_concat(a: Seq<char>, b: Seq<char>)
    ensures
        escaped(a + b) == escaped(a) + escaped(b),
    decreases b.len(),
{
    if b.len() == 0 {
        assert(a + b =~= a);
        assert(escaped(a) + escaped(b) =~= escaped(a));
    } else {
        assert((a + b).drop_last() =~= a + b.drop_last());
        assert((a + b).last() == b.last());
        lemma_escaped_concat(a, b.drop_last());
        assert(escaped(a + b) =~= escaped(a) + escaped(b));
    }
}

/// What is written of one character reads back as that character, whatever
/// follows.
pub proof fn lemma_escaped_char_reads_back(c: char, rest: Seq<char>)
    ensures
        unescaped(escaped_char(c) + rest) == (match unescaped(rest) {
            Some(text) => Some(seq![c] + text),
            None => None,
        }),
{
    let inside = escaped_char(c) + rest;
    if c == '"' || c == '\\' {
        assert(inside[0] == '\\' && inside[1] == c);
        assert(inside.skip(2) =~= rest);
    } else if (c as u32) < 0x20 {
        let n = c as u32 as int;
        assert(inside[0] == '\\' && inside[1] == 'u' && inside[2] == '0' && inside[3] == '0');
        assert(inside[4] == hex_digit(n / 16) && inside[5] == hex_digit(n % 16));
        assert(hex_value(hex_digit(n / 16)) == n / 16);
        assert(hex_value(hex_digit(n % 16)) == n % 16);
        assert(16 * (n / 16) + n % 16 == n);
        assert(n as char == c);
        assert(inside.skip(6) =~= rest);
    } else {
        assert(inside[0] == c);
        assert(inside.skip(1) =~= rest);
    }
}

/// A text that was written into a JSON string reads back as it was: a value
/// that is written again is the value that was read.
pub proof fn lemma_escaped_reads_back(text: Seq<char>)
    ensures
        unescaped(escaped(text)) == Some(text),
    decreases text.len(),
{
    if text.len() > 0 {
        let first = seq![text[0]];
        let rest = text.drop_first();
        assert(text =~= first + rest);
        lemma_escaped_concat(first, rest);
        assert(first.drop_last() =~= Seq::<char>::empty());
        assert(first.last() == text[0]);
        assert(escaped(first.drop_last()) =~= Seq::<char>::empty());
        assert(escaped(first) =~= escaped_char(text[0]));
        lemma_escaped_reads_back(rest);
        lemma_escaped_char_reads_back(text[0], escaped(rest));
    }
}

/// The hexadecimal digit for a number below sixteen.
fn hex_digit_of(n: u32) -> (r: char)
    requires
        n < 16,
    ensures
        r == hex_digit(n as int),
{
    if n == 0 {
        '0'
    } else if n == 1 {
        '1'
    } else if n == 2 {
        '2'
    } else if n == 3 {
        '3'
    } else if n == 4 {
        '4'
    } else if n == 5 {
        '5'
    } else if n == 6 {
        '6'
    } else if n == 7 {
        '7'
    } else if n == 8 {
        '8'
    } else if n == 9 {
        '9'
    } else if n == 10 {
        'a'
    } else if n == 11 {
        'b'
    } else if n == 12 {
        'c'
    } else if n == 13 {
        'd'
    } else if n == 14 {
        'e'
    } else {
        'f'
    }
}

/// Appends a text to `out` as a JSON string.
pub fn push_json_string(out: &mut String, text: &str)
    ensures
        final(out)@ == old(out)@ + json_string(text@),
{
    let ghost before = out@;
    out.append("\"");
    let mut rest: Chars<'_> = text.chars();
    let ghost mut k: int = 0;
    proof {
        assert(text@.take(0) =~= Seq::<char>::empty());
        assert(out@ =~= before + "\""@ + escaped(text@.take(0)));
    }
    loop
        invariant
            0 <= k <= text@.len(),
            rest.remaining() == text@.skip(k),
            rest.obeys_prophetic_iter_laws(),
            before == old(out)@,
            out@ == before + "\""@ + escaped(text@.take(k)),
        decreases text@.len() - k,
    {
        let ghost so_far = out@;
        match rest.next() {
            None => {
                proof {
                    assert(text@.take(k) =~= text@);
                }
                out.append("\"");
                proof {
                    assert(out@ =~= before + json_string(text@));
                }
                return ;
            },
            Some(c) => {
                proof {
                    assert(c == text@[k]);
                    assert(text@.take(k + 1).drop_last() =~= text@.take(k));
                    assert(text@.take(k + 1).last() == c);
                    assert(text@.skip(k).drop_first() =~= text@.skip(k + 1));
                }
                let n: u32 = c as u32;
                if c == '"' || c == '\\' {
                    push_char(out, '\\');
                    push_char(out, c);
                } else if n < 0x20 {
                    push_char(out, '\\');
                    push_char(out, 'u');
                    push_char(out, '0');
                    push_char(out, '0');
                    push_char(out, hex_digit_of(n / 16));
                    push_char(out, hex_digit_of(n % 16));
                } else {
                    push_char(out, c);
                }
                proof {
                    assert(out@ =~= so_far + escaped_char(c));
                    assert(out@ =~= before + "\""@ + escaped(text@.take(k + 1)));
                    k = k + 1;
                }
            },
        }
    }
}

/// One rendered entry: the name and the specifier as JSON strings, with a
/// colon and a space between them.
pub open spec fn import_line(entry: Entry) -> Seq<char> {
    json_string(entry.0) + ": "@ + json_string(entry.1)
}

/// The rendered entries in order, each two separated by a line that holds a comma.
pub open spec fn generated_imports(entries: Seq<Entry>) -> Seq<char>
    decreases entries.len(),
{
    if entries.len() == 0 {
        Seq::empty()
    } else if entries.len() == 1 {
        import_line(entries[0])
    } else {
        generated_imports(entries.drop_last()) + "\n,\n"@ + import_line(entries.last())
    }
}

/// Renders the body of the dependency section, without the braces around it:
/// each name and each specifier as a JSON string, so that a specifier reads
/// back from the manifest as the text that it is.
pub fn generate_imports(packages_to_version: Vec<(String, String)>) -> (r: String)
    ensures
        r@ == generated_imports(packages_to_version.deep_view()),
{
    let ghost entries = packages_to_version.deep_view();
    let mut contents = String::new();
    let mut index: usize = 0;
    while index < packages_to_version.len()
        invariant
            0 <= index <= packages_to_version.len(),
            entries == packages_to_version.deep_view(),
            contents@ == generated_imports(entries.take(index as int)),
        decreases packages_to_version.len() - index,
    {
        let ghost before = contents@;
        if index != 0 {
            contents.append("\n,\n");
        }
        push_json_string(&mut contents, packages_to_version[index].0.as_str());
        contents.append(": ");
        push_json_string(&mut contents, packages_to_version[index].1.as_str());
        proof {
            let done = entries.take(index as int + 1);
            assert(done.drop_last() =~= entries.take(index as int));
            assert(done.last() == entries[index as int]);
            assert(entries[index as int] == (
                packages_to_version[index as int].0@,
                packages_to_version[index as int].1@,
            ));
            if index == 0 {
                assert(before =~= Seq::<char>::empty());
                assert(contents@ =~= import_line(entries[0]));
                assert(done[0] == entries[0]);
            } else {
                assert(contents@ =~= before + "\n,\n"@ + import_line(entries[index as int]));
            }
        }
        index = index + 1;
    }
    proof {
        assert(entries.take(index as int) =~= entries);
    }
    contents
}

} // verus!
