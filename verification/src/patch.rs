//! Patching the manifest's text: the dependency section is replaced, or put
//! in where there is none, by one change to the text as it stands. Positions
//! are byte offsets into the text's UTF-8 encoding.

use crate::entries::{json_string, push_json_string};
use crate::text::same_text;
use jsonc_parser::ast::Value;
use jsonc_parser::errors::ParseError;
use std::str::Chars;
use vstd::prelude::*;
use vstd::std_specs::iter::IteratorSpec;
use vstd::string::*;
use vstd::utf8::{
    encode_utf8, encode_utf8_valid_utf8, is_char_boundary, is_char_boundary_iff_not_is_continuation_byte,
    is_char_boundary_start_end_of_seq, pop_first_scalar, valid_utf8, valid_utf8_split,
};

verus! {

/// What stands as the value of a property.
#[derive(Debug, Clone, Copy, PartialEq, Eq)]
pub enum ValueNode {
    /// An object, from its opening brace at `start` to just behind its
    /// closing brace at `end`.
    Object { start: usize, end: usize },
    /// Anything else.
    Other,
}

/// A property of the manifest's top-level object.
#[derive(Debug, Clone, PartialEq, Eq)]
pub struct PropertyNode {
    pub name: String,
    pub value: ValueNode,
}

/// The manifest's top-level object, from its opening brace at `start` to just
/// behind its closing brace at `end`, with its properties in order.
#[derive(Debug, Clone, PartialEq, Eq)]
pub struct ObjectNode {
    pub start: usize,
    pub end: usize,
    pub properties: Vec<PropertyNode>,
}

pub struct PropertyNodeView {
    pub name: Seq<char>,
    pub value: ValueNode,
}

pub struct ObjectNodeView {
    pub start: usize,
    pub end: usize,
    pub properties: Seq<PropertyNodeView>,
}

impl View for PropertyNode {
    type V = PropertyNodeView;

    open spec fn view(&self) -> PropertyNodeView {
        PropertyNodeView { name: self.name@, value: self.value }
    }
}

impl DeepView for PropertyNode {
    type V = PropertyNodeView;

    open spec fn deep_view(&self) -> PropertyNodeView {
        self@
    }
}

impl View for ObjectNode {
    type V = ObjectNodeView;

    open spec fn view(&self) -> ObjectNodeView {
        ObjectNodeView {
            start: self.start,
            end: self.end,
            properties: self.properties.deep_view(),
        }
    }
}

impl DeepView for ObjectNode {
    type V = ObjectNodeView;

    open spec fn deep_view(&self) -> ObjectNodeView {
        self@
    }
}

/// One change to a text: the bytes from `start` up to `end` give way to
/// `new_text`.
#[derive(Debug, Clone, PartialEq, Eq)]
pub struct TextChange {
    pub start: usize,
    pub end: usize,
    pub new_text: String,
}

pub struct TextChangeView {
    pub start: usize,
    pub end: usize,
    pub new_text: Seq<char>,
}

impl View for TextChange {
    type V = TextChangeView;

    open spec fn view(&self) -> TextChangeView {
        TextChangeView { start: self.start, end: self.end, new_text: self.new_text@ }
    }
}

/// Why the manifest's text was not patched.
#[derive(Debug, Clone, Copy, PartialEq, Eq)]
pub enum PatchError {
    /// A position does not lie in the text, or not between two characters.
    InvalidRange,
}

/// `jsonc_parser::errors::ParseError`, with which a text is refused. Nothing
/// is read of it.
#[verifier::external_type_specification]
#[verifier::external_body]
pub struct ExParseError(ParseError);

/// The top-level object of a manifest text: `None` where the text does not
/// parse, `Some(None)` where it parses to no object.
pub uninterp spec fn parsed_root(text: Seq<char>) -> Option<Option<ObjectNodeView>>;

/// The number of opening brackets and braces that a text may hold to be
/// parsed. The parser goes one level deeper at each of them, and its depth
/// is not bounded otherwise.
pub const MAX_OPENINGS: usize = 128;

/// Whether a character is an opening bracket or brace.
pub open spec fn is_opening(c: char) -> bool {
    c == '{' || c == '['
}

/// The number of opening brackets and braces in a text. No value in the text
/// is nested deeper than that.
pub open spec fn openings(text: Seq<char>) -> nat
    decreases text.len(),
{
    if text.len() == 0 {
        0
    } else {
        openings(text.drop_last()) + (if is_opening(text.last()) {
            1nat
        } else {
            0nat
        })
    }
}

/// Whether a text holds no more opening brackets and braces than the parser
/// is handed.
pub open spec fn nesting_fits(text: Seq<char>) -> bool {
    openings(text) <= MAX_OPENINGS
}

/// A text holds at least as many opening brackets and braces as each of its
/// beginnings.
pub proof fn lemma_openings_grow(text: Seq<char>, n: int)
    requires
        0 <= n <= text.len(),
    ensures
        openings(text.take(n)) <= openings(text),
    decreases text.len() - n,
{
    if n == text.len() {
        assert(text.take(n) =~= text);
    } else {
        assert(text.take(n + 1).drop_last() =~= text.take(n));
        lemma_openings_grow(text, n + 1);
    }
}

/// Whether a text holds no more opening brackets and braces than the parser
/// is handed.
pub fn shallow_enough(text: &str) -> (r: bool)
    ensures
        r == nesting_fits(text@),
{
    let mut rest: Chars<'_> = text.chars();
    let mut count: usize = 0;
    let ghost mut k: int = 0;
    proof {
        assert(text@.take(0) =~= Seq::<char>::empty());
    }
    loop
        invariant
            0 <= k <= text@.len(),
            rest.remaining() == text@.skip(k),
            rest.obeys_prophetic_iter_laws(),
            count == openings(text@.take(k)),
            count <= MAX_OPENINGS,
        decreases text@.len() - k,
    {
        match rest.next() {
            None => {
                proof {
                    assert(text@.take(k) =~= text@);
                }
                return true;
            },
            Some(c) => {
                proof {
                    assert(c == text@[k]);
                    assert(text@.skip(k).drop_first() =~= text@.skip(k + 1));
                    assert(text@.take(k + 1).drop_last() =~= text@.take(k));
                    assert(text@.take(k + 1).last() == c);
                }
                if c == '{' || c == '[' {
                    if count == MAX_OPENINGS {
                        proof {
                            lemma_openings_grow(text@, k + 1);
                        }
                        return false;
                    }
                    count = count + 1;
                }
                proof {
                    k = k + 1;
                }
            },
        }
    }
}

/// Whether the bytes from `start` up to `end` begin with an opening brace and
/// end with a closing brace.
pub open spec fn in_braces(text: Seq<u8>, start: int, end: int) -> bool {
    &&& 0 <= start
    &&& start + 2 <= end <= text.len()
    &&& text[start] == 0x7b
    &&& text[end - 1] == 0x7d
}

/// Whether the positions of an object and of its properties' objects are
/// those of their braces in the text.
pub open spec fn well_placed(obj: ObjectNodeView, text: Seq<char>) -> bool {
    &&& in_braces(encode_utf8(text), obj.start as int, obj.end as int)
    &&& forall|i: int|
        0 <= i < obj.properties.len() ==> match (#[trigger] obj.properties[i]).value {
            ValueNode::Object { start, end } => in_braces(
                encode_utf8(text),
                start as int,
                end as int,
            ),
            ValueNode::Other => true,
        }
}

/// Parses the text with `jsonc_parser::parse_to_ast`, comments and trailing
/// commas allowed, and gives the top-level object with the name and the kind
/// of value of each property. The result depends on the text alone. An
/// object's positions are those of its braces: it begins at its opening brace
/// and ends just behind its closing brace. A text with more opening brackets
/// and braces than `MAX_OPENINGS` is left out: the parser calls itself at
/// each of them, and deep enough it runs out of stack.
#[verifier::external_body]
pub(crate) fn parse_root(text: &str) -> (r: Result<Option<ObjectNode>, ParseError>)
    requires
        nesting_fits(text@),
    ensures
        match r {
            Ok(Some(obj)) => parsed_root(text@) == Some(Some(obj@)) && well_placed(obj@, text@),
            Ok(None) => parsed_root(text@) == Some(None::<ObjectNodeView>),
            Err(_) => parsed_root(text@) is None,
        },
{
    let ast = jsonc_parser::parse_to_ast(text, &Default::default(), &Default::default())?;
    Ok(match ast.value {
        Some(Value::Object(obj)) => Some(ObjectNode {
            start: obj.range.start,
            end: obj.range.end,
            properties: obj.properties.iter().map(|p| PropertyNode {
                name: p.name.as_str().to_string(),
                value: match &p.value {
                    Value::Object(o) => ValueNode::Object { start: o.range.start, end: o.range.end },
                    _ => ValueNode::Other,
                },
            }).collect(),
        }),
        _ => None,
    })
}

/// Why the parser refused a text, by the `Display` of its error.
#[verifier::external_body]
pub(crate) fn parse_failure_text(error: &ParseError) -> (r: String) {
    error.to_string()
}

/// The bytes of a text after a change: what stood before `start`, the new
/// bytes, and what stood from `end` on.
pub open spec fn patched(text: Seq<u8>, start: int, end: int, new_text: Seq<u8>) -> Seq<u8> {
    text.subrange(0, start) + new_text + text.subrange(end, text.len() as int)
}

/// Whether the bytes from `start` up to `end` are a stretch of the text that
/// begins and ends between two characters.
pub open spec fn change_fits(text: Seq<char>, start: int, end: int) -> bool {
    &&& 0 <= start <= end <= encode_utf8(text).len()
    &&& is_char_boundary(encode_utf8(text), start)
    &&& is_char_boundary(encode_utf8(text), end)
}

/// Applies one change to a text with `deno_ast::apply_text_changes`: the
/// result is the text before the change's start, the new text, and the text
/// from the change's end on.
#[verifier::external_body]
fn apply_text_change(source: &str, change: TextChange) -> (r: String)
    requires
        change_fits(source@, change.start as int, change.end as int),
    ensures
        encode_utf8(r@) == patched(
            encode_utf8(source@),
            change.start as int,
            change.end as int,
            encode_utf8(change.new_text@),
        ),
{
    deno_ast::apply_text_changes(
        source,
        vec![deno_ast::TextChange { range: change.start..change.end, new_text: change.new_text }],
    )
}

/// The index of the first property named `key`, or the number of properties
/// where there is none.
pub open spec fn property_index(properties: Seq<PropertyNodeView>, key: Seq<char>) -> int
    decreases properties.len(),
{
    if properties.len() == 0 {
        0
    } else if properties[0].name == key {
        0
    } else {
        1 + property_index(properties.drop_first(), key)
    }
}

/// The value of the first property named `key`, if there is one.
pub open spec fn property_value(obj: ObjectNodeView, key: Seq<char>) -> Option<ValueNode> {
    let i = property_index(obj.properties, key);
    if i < obj.properties.len() {
        Some(obj.properties[i].value)
    } else {
        None
    }
}

/// The text of a new dependency section: the key as a JSON string, a colon,
/// and the body in braces, with a line break behind the opening brace.
pub open spec fn new_section(key: Seq<char>, body: Seq<char>) -> Seq<char> {
    json_string(key) + ": {\n "@ + body + " }"@
}

/// The change that brings the rendered body into the manifest.
///
/// Where the top-level object has a property named `key` whose value is an
/// object, the body replaces what stands strictly between that object's
/// braces. Where it has no such property, a new section is put in just before
/// the top-level object's closing brace. An object too short to have braces
/// is an error. For a property of that name with another kind of value no
/// change is planned: the functions that plan one leave that input out.
pub open spec fn planned_change(obj: ObjectNodeView, body: Seq<char>, key: Seq<char>) -> Result<
    TextChangeView,
    PatchError,
> {
    match property_value(obj, key) {
        Some(ValueNode::Object { start, end }) => if start < end && start + 1 <= end - 1 {
            Ok(TextChangeView { start: (start + 1) as usize, end: (end - 1) as usize, new_text: body })
        } else {
            Err(PatchError::InvalidRange)
        },
        Some(ValueNode::Other) => Err(PatchError::InvalidRange),
        None => if obj.end >= 1 {
            Ok(
                TextChangeView {
                    start: (obj.end - 1) as usize,
                    end: (obj.end - 1) as usize,
                    new_text: new_section(key, body),
                },
            )
        } else {
            Err(PatchError::InvalidRange)
        },
    }
}

/// The value of the first property named `key`, if there is one.
pub fn find_property(obj: &ObjectNode, key: &str) -> (r: Option<ValueNode>)
    ensures
        r == property_value(obj@, key@),
{
    let ghost all = obj.properties.deep_view();
    let mut i: usize = 0;
    proof {
        assert(all.skip(0) =~= all);
    }
    while i < obj.properties.len()
        invariant
            0 <= i <= obj.properties.len(),
            all == obj.properties.deep_view(),
            all.len() == obj.properties.len(),
            property_index(all, key@) == i + property_index(all.skip(i as int), key@),
        decreases obj.properties.len() - i,
    {
        proof {
            assert(all.skip(i as int)[0] == all[i as int]);
            assert(all[i as int] == obj.properties[i as int]@);
            assert(all.skip(i as int).drop_first() =~= all.skip(i as int + 1));
        }
        if same_text(obj.properties[i].name.as_str(), key) {
            return Some(obj.properties[i].value);
        }
        i = i + 1;
    }
    None
}

/// Plans the change that brings the rendered body into the manifest. The
/// dependency section, where the object has one, is an object.
pub fn plan_change(obj: &ObjectNode, generated_imports: String, imports_key: &str) -> (r: Result<
    TextChange,
    PatchError,
>)
    requires
        property_value(obj@, imports_key@) != Some(ValueNode::Other),
    ensures
        match r {
            Ok(change) => planned_change(obj@, generated_imports@, imports_key@) == Ok::<
                TextChangeView,
                PatchError,
            >(change@),
            Err(e) => planned_change(obj@, generated_imports@, imports_key@) == Err::<
                TextChangeView,
                PatchError,
            >(e),
        },
{
    match find_property(obj, imports_key) {
        Some(ValueNode::Object { start, end }) => {
            if start < end && start + 1 <= end - 1 {
                Ok(TextChange { start: start + 1, end: end - 1, new_text: generated_imports })
            } else {
                Err(PatchError::InvalidRange)
            }
        },
        Some(ValueNode::Other) => Err(PatchError::InvalidRange),
        None => {
            if obj.end >= 1 {
                let mut new_text = String::new();
                push_json_string(&mut new_text, imports_key);
                new_text.append(": {\n ");
                new_text.append(generated_imports.as_str());
                new_text.append(" }");
                Ok(TextChange { start: obj.end - 1, end: obj.end - 1, new_text })
            } else {
                Err(PatchError::InvalidRange)
            }
        },
    }
}

/// The manifest's text with the rendered body brought in: the planned change
/// applied to the text as it stands. Nothing outside the change is touched.
///
/// The dependency section, where the object has one, is an object: that it
/// is was settled when the existing entries were read. Fails where no change
/// can be planned, and where the planned change does not fit the text.
pub fn update_config_file_content(
    obj: &ObjectNode,
    config_file_contents: &str,
    generated_imports: String,
    imports_key: &str,
) -> (r: Result<String, PatchError>)
    requires
        property_value(obj@, imports_key@) != Some(ValueNode::Other),
    ensures
        match planned_change(obj@, generated_imports@, imports_key@) {
            Err(e) => r == Err::<String, PatchError>(e),
            Ok(change) => if change_fits(
                config_file_contents@,
                change.start as int,
                change.end as int,
            ) {
                r is Ok && encode_utf8(r->Ok_0@) == patched(
                    encode_utf8(config_file_contents@),
                    change.start as int,
                    change.end as int,
                    encode_utf8(change.new_text),
                )
            } else {
                r == Err::<String, PatchError>(PatchError::InvalidRange)
            },
        },
{
    let change = match plan_change(obj, generated_imports, imports_key) {
        Ok(change) => change,
        Err(e) => {
            return Err(e);
        },
    };
    proof {
        assert(config_file_contents.spec_bytes() == encode_utf8(config_file_contents@));
    }
    if change.start <= change.end && change.end <= config_file_contents.as_bytes().len()
        && config_file_contents.is_char_boundary(change.start)
        && config_file_contents.is_char_boundary(change.end) {
        Ok(apply_text_change(config_file_contents, change))
    } else {
        Err(PatchError::InvalidRange)
    }
}

/// In a text's bytes a byte below 128 is a character of its own: the position
/// of the byte and the position behind it lie between two characters.
pub proof fn lemma_ascii_byte_is_a_character(bytes: Seq<u8>, i: int)
    requires
        valid_utf8(bytes),
        0 <= i < bytes.len(),
        bytes[i] <= 0x7f,
    ensures
        is_char_boundary(bytes, i),
        is_char_boundary(bytes, i + 1),
{
    is_char_boundary_iff_not_is_continuation_byte(bytes, i);
    if i + 1 == bytes.len() {
        is_char_boundary_start_end_of_seq(bytes);
    } else {
        valid_utf8_split(bytes, i);
        let tail = bytes.subrange(i, bytes.len() as int);
        assert(tail[0] == bytes[i]);
        let after = pop_first_scalar(tail);
        assert(after =~= bytes.subrange(i + 1, bytes.len() as int));
        assert(valid_utf8(after));
        assert(after[0] == bytes[i + 1]);
        is_char_boundary_iff_not_is_continuation_byte(bytes, i + 1);
    }
}

/// A change planned for an object whose positions are those of its braces
/// fits the text: where the dependency section is an object or is not there,
/// the text can be patched.
pub proof fn lemma_well_placed_change_fits(
    obj: ObjectNodeView,
    text: Seq<char>,
    body: Seq<char>,
    key: Seq<char>,
)
    requires
        well_placed(obj, text),
        property_value(obj, key) != Some(ValueNode::Other),
    ensures
        planned_change(obj, body, key) is Ok,
        change_fits(
            text,
            planned_change(obj, body, key)->Ok_0.start as int,
            planned_change(obj, body, key)->Ok_0.end as int,
        ),
{
    let bytes = encode_utf8(text);
    encode_utf8_valid_utf8(text);
    lemma_property_index_bounds(obj.properties, key);
    match property_value(obj, key) {
        Some(ValueNode::Object { start, end }) => {
            let i = property_index(obj.properties, key);
            assert(obj.properties[i].value == ValueNode::Object { start, end });
            lemma_ascii_byte_is_a_character(bytes, start as int);
            lemma_ascii_byte_is_a_character(bytes, end - 1);
        },
        Some(ValueNode::Other) => {},
        None => {
            lemma_ascii_byte_is_a_character(bytes, obj.end - 1);
        },
    }
}

/// `property_index` is an index of the properties or their number.
pub proof fn lemma_property_index_bounds(properties: Seq<PropertyNodeView>, key: Seq<char>)
    ensures
        0 <= property_index(properties, key) <= properties.len(),
    decreases properties.len(),
{
    if properties.len() > 0 && properties[0].name != key {
        lemma_property_index_bounds(properties.drop_first(), key);
    }
}

/// A change leaves the text before its start and from its end on as it was,
/// and puts the new text between them.
pub proof fn lemma_patch_keeps_text_outside(text: Seq<u8>, start: int, end: int, new_text: Seq<u8>)
    requires
        0 <= start <= end <= text.len(),
    ensures
        patched(text, start, end, new_text).len() == start + new_text.len() + (text.len() - end),
        patched(text, start, end, new_text).subrange(0, start) == text.subrange(0, start),
        patched(text, start, end, new_text).subrange(start, start + new_text.len()) == new_text,
        patched(text, start, end, new_text).skip(start + new_text.len()) == text.skip(end),
{
    let out = patched(text, start, end, new_text);
    assert(out.subrange(0, start) =~= text.subrange(0, start));
    assert(out.subrange(start, start + new_text.len()) =~= new_text);
    assert(out.skip(start + new_text.len()) =~= text.skip(end));
}

/// Patching a manifest that has the dependency section changes nothing
/// outside that section's braces: the text up to and with the opening brace,
/// and the text from the closing brace on, stay byte for byte.
pub proof fn lemma_section_patch_keeps_text_outside_braces(
    obj: ObjectNodeView,
    text: Seq<char>,
    body: Seq<char>,
    key: Seq<char>,
    start: usize,
    end: usize,
)
    requires
        property_value(obj, key) == Some(ValueNode::Object { start, end }),
        planned_change(obj, body, key) is Ok,
        change_fits(text, start + 1, end - 1),
    ensures
        planned_change(obj, body, key)->Ok_0.new_text == body,
        ({
            let before = encode_utf8(text);
            let after = patched(before, start + 1, end - 1, encode_utf8(body));
            &&& after.subrange(0, start + 1) == before.subrange(0, start + 1)
            &&& after.skip(start + 1 + encode_utf8(body).len()) == before.skip(end - 1)
        }),
{
    lemma_patch_keeps_text_outside(encode_utf8(text), start + 1, end - 1, encode_utf8(body));
}

/// The text to write: the formatter's where it gave one, and else the text
/// as it was patched. A formatter that fails does not fail the write.
pub fn formatted_or_patched(new_text: String, formatted: Result<Option<String>, String>) -> (r:
    String)
    ensures
        r@ == (match formatted {
            Ok(Some(text)) => text@,
            _ => new_text@,
        }),
{
    match formatted {
        Ok(Some(text)) => text,
        _ => new_text,
    }
}

} // verus!
