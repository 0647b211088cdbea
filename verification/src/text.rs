//! String helpers over the character view of `str` and `String`.

use std::str::Chars;
use vstd::prelude::*;
use vstd::std_specs::iter::IteratorSpec;
use vstd::string::*;

verus! {

broadcast use vstd::string::group_string_axioms;

/// Whether `s` begins with the characters of `prefix`.
pub fn starts_with(s: &str, prefix: &str) -> (r: bool)
    ensures
        r == prefix@.is_prefix_of(s@),
{
    let mut rest: Chars<'_> = s.chars();
    let mut want: Chars<'_> = prefix.chars();
    let ghost mut k: int = 0;
    loop
        invariant
            0 <= k <= s@.len(),
            k <= prefix@.len(),
            rest.remaining() == s@.skip(k),
            want.remaining() == prefix@.skip(k),
            s@.take(k) == prefix@.take(k),
            rest.obeys_prophetic_iter_laws(),
            want.obeys_prophetic_iter_laws(),
        decreases prefix@.len() - k,
    {
        match want.next() {
            None => {
                proof {
                    assert(k == prefix@.len());
                    assert(s@.subrange(0, prefix@.len() as int) =~= s@.take(k));
                    assert(prefix@.take(k) =~= prefix@);
                }
                return true;
            },
            Some(pc) => {
                match rest.next() {
                    None => {
                        assert(k == s@.len());
                        return false;
                    },
                    Some(sc) => {
                        if sc != pc {
                            proof {
                                assert(s@[k] != prefix@[k]);
                                if prefix@.is_prefix_of(s@) {
                                    assert(s@.subrange(0, prefix@.len() as int)[k] == prefix@[k]);
                                }
                            }
                            return false;
                        }
                        proof {
                            assert(s@.take(k + 1) =~= s@.take(k).push(s@[k]));
                            assert(prefix@.take(k + 1) =~= prefix@.take(k).push(prefix@[k]));
                            assert(s@.skip(k).drop_first() =~= s@.skip(k + 1));
                            assert(prefix@.skip(k).drop_first() =~= prefix@.skip(k + 1));
                            k = k + 1;
                        }
                    },
                }
            },
        }
    }
}

/// Whether two strings hold the same characters.
pub fn same_text(a: &str, b: &str) -> (r: bool)
    ensures
        r == (a@ == b@),
{
    let r = starts_with(a, b) && starts_with(b, a);
    proof {
        if r {
            assert(a@ =~= a@.subrange(0, b@.len() as int));
        }
        if a@ == b@ {
            assert(a@.subrange(0, b@.len() as int) =~= b@);
        }
    }
    r
}

/// Whether a character is white space: whether it has Unicode's
/// `White_Space` property.
pub open spec fn is_white_space(c: char) -> bool {
    let n = c as u32;
    ||| 0x09 <= n <= 0x0d
    ||| n == 0x20
    ||| n == 0x85
    ||| n == 0xa0
    ||| n == 0x1680
    ||| 0x2000 <= n <= 0x200a
    ||| n == 0x2028
    ||| n == 0x2029
    ||| n == 0x202f
    ||| n == 0x205f
    ||| n == 0x3000
}

/// Whether a character is white space.
pub fn white_space(c: char) -> (r: bool)
    ensures
        r == is_white_space(c),
{
    let n: u32 = c as u32;
    (0x09 <= n && n <= 0x0d) || n == 0x20 || n == 0x85 || n == 0xa0 || n == 0x1680 || (0x2000 <= n
        && n <= 0x200a) || n == 0x2028 || n == 0x2029 || n == 0x202f || n == 0x205f || n == 0x3000
}

/// Whether a text holds nothing but white space.
pub open spec fn is_blank(text: Seq<char>) -> bool {
    forall|i: int| 0 <= i < text.len() ==> is_white_space(#[trigger] text[i])
}

/// Whether a text holds nothing but white space.
pub fn blank(text: &str) -> (r: bool)
    ensures
        r == is_blank(text@),
{
    let mut rest: Chars<'_> = text.chars();
    let ghost mut k: int = 0;
    loop
        invariant
            0 <= k <= text@.len(),
            rest.remaining() == text@.skip(k),
            rest.obeys_prophetic_iter_laws(),
            is_blank(text@.take(k)),
        decreases text@.len() - k,
    {
        match rest.next() {
            None => {
                proof {
                    assert(text@.take(k) =~= text@);
                }
                return true;
            },
            Some(c) => {
                proof {
                    assert(c == text@[k]);
                    assert(text@.skip(k).drop_first() =~= text@.skip(k + 1));
                }
                if !white_space(c) {
                    return false;
                }
                proof {
                    assert forall|i: int| 0 <= i < k + 1 implies is_white_space(
                        #[trigger] text@.take(k + 1)[i],
                    ) by {
                        if i < k {
                            assert(text@.take(k + 1)[i] == text@.take(k)[i]);
                        }
                    }
                    k = k + 1;
                }
            },
        }
    }
}

/// The rest of `s` after `prefix`, where `s` begins with it.
pub open spec fn strip_prefix_spec(s: Seq<char>, prefix: Seq<char>) -> Option<Seq<char>> {
    if prefix.is_prefix_of(s) {
        Some(s.skip(prefix.len() as int))
    } else {
        None
    }
}

/// `s` with every occurrence of the character `from` replaced by the characters of `to`.
pub open spec fn replace_char_spec(s: Seq<char>, from: char, to: Seq<char>) -> Seq<char>
    decreases s.len(),
{
    if s.len() == 0 {
        Seq::empty()
    } else {
        replace_char_spec(s.drop_last(), from, to) + (if s.last() == from {
            to
        } else {
            seq![s.last()]
        })
    }
}

/// Appends one character to a string, by `String::push` of the standard library:
/// the string afterwards is the string before, followed by `c`.
#[verifier::external_body]
pub(crate) fn push_char(s: &mut String, c: char)
    ensures
        final(s)@ == old(s)@.push(c),
{
    s.push(c);
}

/// The rest of `s` after `prefix`, or `None` where `s` does not begin with `prefix`.
pub fn strip_prefix(s: &str, prefix: &str) -> (r: Option<String>)
    ensures
        r is Some <==> prefix@.is_prefix_of(s@),
        match r {
            Some(rest) => Some(rest@) == strip_prefix_spec(s@, prefix@),
            None => strip_prefix_spec(s@, prefix@) is None,
        },
{
    if starts_with(s, prefix) {
        let from = prefix.unicode_len();
        let to = s.unicode_len();
        let rest = s.substring_char(from, to);
        proof {
            assert(s@.subrange(from as int, to as int) =~= s@.skip(prefix@.len() as int));
        }
        Some(String::from_str(rest))
    } else {
        None
    }
}

/// `s` with every occurrence of the character `from` replaced by `to`.
pub fn replace_char(s: &str, from: char, to: &str) -> (r: String)
    ensures
        r@ == replace_char_spec(s@, from, to@),
{
    let mut out = String::new();
    let mut rest: Chars<'_> = s.chars();
    let ghost mut k: int = 0;
    loop
        invariant
            0 <= k <= s@.len(),
            rest.remaining() == s@.skip(k),
            rest.obeys_prophetic_iter_laws(),
            out@ == replace_char_spec(s@.take(k), from, to@),
        decreases s@.len() - k,
    {
        match rest.next() {
            None => {
                proof {
                    assert(s@.take(k) =~= s@);
                }
                return out;
            },
            Some(c) => {
                proof {
                    assert(c == s@[k]);
                    assert(s@.take(k + 1).drop_last() =~= s@.take(k));
                    assert(s@.take(k + 1).last() == s@[k]);
                    assert(s@.skip(k).drop_first() =~= s@.skip(k + 1));
                }
                if c == from {
                    out.append(to);
                } else {
                    push_char(&mut out, c);
                    proof {
                        assert(replace_char_spec(s@.take(k), from, to@).push(c)
                            =~= replace_char_spec(s@.take(k), from, to@) + seq![c]);
                    }
                }
                proof {
                    k = k + 1;
                }
            },
        }
    }
}

} // verus!
