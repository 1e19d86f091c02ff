//! What the checkers share: cutting text to a column, and reading the loosely
//! typed values that the tracker puts into an issue's fields.

use vstd::prelude::*;
use vstd::string::StringSliceAdditionalSpecFns;
use vstd::utf8::decode_utf8;
use vstd::utf8::encode_utf8;
use vstd::utf8::encode_utf8_decode_utf8;
use vstd::utf8::encode_utf8_valid_utf8;
use vstd::utf8::is_char_boundary;
use vstd::utf8::is_char_boundary_iff_not_is_continuation_byte;
use vstd::utf8::is_char_boundary_start_end_of_seq;
use itertools::Itertools;
use crate::text::joined;
use crate::text::same_text;

verus! {

/// What stands for a value that is not there.
pub const NA_STRING: &'static str = "NA";

/// A value found in an issue's fields.  Which kind it is differs from field
/// to field and from issue to issue.
pub enum Field {
    Null,
    Flag(bool),
    /// `whole` is the number where it is a whole number from 0 to `u64::MAX`.
    /// `cut` is the number cut to a `u32`: what lies behind the decimal
    /// point is dropped, what lies outside the range goes to its nearer end.
    Number { whole: Option<u64>, cut: u32 },
    Text(String),
    List(Vec<Field>),
    /// The attributes of an object, each with its name.
    Object(Vec<(String, Field)>),
}

/// The index of the first line feed in `bytes` at or after `i`; the length of
/// `bytes` where there is none.
pub open spec fn line_end(bytes: Seq<u8>, i: int) -> int
    decreases bytes.len() - i,
{
    if i >= bytes.len() {
        bytes.len() as int
    } else if bytes[i] == 10u8 {
        i
    } else {
        line_end(bytes, i + 1)
    }
}

/// The first index at or after `i` at which a character of `bytes` begins;
/// the length of `bytes` where none does.
pub open spec fn next_boundary(bytes: Seq<u8>, i: int) -> int
    decreases bytes.len() - i,
{
    if i >= bytes.len() {
        bytes.len() as int
    } else if is_char_boundary(bytes, i) {
        i
    } else {
        next_boundary(bytes, i + 1)
    }
}

/// The number of bytes that [`get_leftmost`] keeps.
pub open spec fn leftmost_len(bytes: Seq<u8>, total: int) -> int {
    if line_end(bytes, 0) > total {
        next_boundary(bytes, total)
    } else {
        line_end(bytes, 0)
    }
}

/// The text that [`get_leftmost`] keeps.
pub open spec fn leftmost(raw: Seq<char>, total: int) -> Seq<char> {
    decode_utf8(encode_utf8(raw).subrange(0, leftmost_len(encode_utf8(raw), total)))
}

/// The start of `raw`: its first line where that has at most `total` bytes,
/// else its first `total` bytes and what is left of the character that the
/// cut would fall into.
pub fn get_leftmost(raw: &str, total: usize) -> (left: &str)
    ensures
        left.spec_bytes() == raw.spec_bytes().subrange(
            0,
            leftmost_len(raw.spec_bytes(), total as int),
        ),
        0 <= leftmost_len(raw.spec_bytes(), total as int) <= raw.spec_bytes().len(),
        left@ == leftmost(raw@, total as int),
{
    let bytes = raw.as_bytes();
    proof {
        encode_utf8_valid_utf8(raw@);
        is_char_boundary_start_end_of_seq(raw.spec_bytes());
    }
    let mut max: usize = 0;
    while max < bytes.len() && bytes[max] != 10u8
        invariant
            bytes@ == raw.spec_bytes(),
            max <= bytes.len(),
            line_end(bytes@, 0) == line_end(bytes@, max as int),
        decreases bytes.len() - max,
    {
        max = max + 1;
    }
    proof {
        if max < bytes.len() {
            is_char_boundary_iff_not_is_continuation_byte(bytes@, max as int);
        }
    }
    let end = if max > total {
        let mut end: usize = total;
        while !raw.is_char_boundary(end)
            invariant
                bytes@ == raw.spec_bytes(),
                end <= bytes.len(),
                is_char_boundary(bytes@, bytes.len() as int),
                next_boundary(bytes@, total as int) == next_boundary(bytes@, end as int),
            decreases bytes.len() - end,
        {
            end = end + 1;
        }
        end
    } else {
        max
    };
    let (left, _) = raw.split_at(end);
    proof {
        encode_utf8_decode_utf8(left@);
    }
    left
}

/// The value of the attribute `name`: that of the first entry of that name.
pub open spec fn attr_from(attrs: Seq<(String, Field)>, name: Seq<char>, i: int) -> Option<Field>
    decreases attrs.len() - i,
{
    if i < 0 || i >= attrs.len() {
        None
    } else if attrs[i].0@ == name {
        Some(attrs[i].1)
    } else {
        attr_from(attrs, name, i + 1)
    }
}

/// The text held by `value`, or `na` where it holds none.
pub open spec fn text_or(value: Field, na: Seq<char>) -> Seq<char> {
    match value {
        Field::Text(some) => some@,
        _ => na,
    }
}

/// The text of the attribute `attr` of an object; empty where `value` is no
/// object, has no such attribute, or holds something else than text in it.
pub open spec fn attr_text(value: Field, attr: Seq<char>) -> Seq<char> {
    match value {
        Field::Object(attrs) => match attr_from(attrs@, attr, 0) {
            Some(Field::Text(x)) => x@,
            _ => Seq::empty(),
        },
        _ => Seq::empty(),
    }
}

/// The `value` attribute of each item, those that are empty left out.
pub open spec fn release_names(items: Seq<Field>) -> Seq<Seq<char>> {
    items.map_values(|it: Field| attr_text(it, "value"@)).filter(|name: Seq<char>| name.len() > 0)
}

/// The releases listed in `release`, separated by commas.
pub open spec fn releases_text(release: Field) -> Seq<char> {
    match release {
        Field::List(items) => joined(release_names(items@), ","@),
        _ => Seq::empty(),
    }
}

/// `Itertools::join` over strings: the items one after another, with `sep`
/// between each two neighbours, and the empty string for no item.
#[verifier::external_body]
fn join_with(items: &Vec<String>, sep: &str) -> (r: String)
    ensures
        r@ == joined(items.deep_view(), sep@),
{
    items.iter().join(sep)
}

/// The releases an issue is planned for, as one text.
pub fn get_releases_from(release: &Field) -> (r: String)
    ensures
        r@ == releases_text(*release),
{
    match release {
        Field::List(releases) => {
            let mut names: Vec<String> = Vec::new();
            let ghost keep = |name: Seq<char>| name.len() > 0;
            let ghost values = releases@.map_values(|it: Field| attr_text(it, "value"@));
            let mut i: usize = 0;
            proof {
                reveal(Seq::filter);
                assert(values.subrange(0, 0).filter(keep) =~= Seq::<Seq<char>>::empty());
                assert(names.deep_view() =~= Seq::<Seq<char>>::empty());
            }
            while i < releases.len()
                invariant
                    i <= releases.len(),
                    keep == |name: Seq<char>| name.len() > 0,
                    values == releases@.map_values(|it: Field| attr_text(it, "value"@)),
                    names.deep_view() == values.subrange(0, i as int).filter(keep),
                decreases releases.len() - i,
            {
                let name = get_wrapped_object_attr(&releases[i], "value");
                let ghost before = names.deep_view();
                proof {
                    let head = values.subrange(0, i as int);
                    head.lemma_filter_push(values[i as int], keep);
                    assert(head.push(values[i as int]) =~= values.subrange(0, i + 1));
                }
                if name.unicode_len() > 0 {
                    names.push(name.to_owned());
                    proof {
                        assert(names.deep_view() =~= before.push(name@));
                    }
                }
                i = i + 1;
            }
            proof {
                assert(values.subrange(0, releases.len() as int) =~= values);
            }
            join_with(&names, ",")
        },
        _ => String::new(),
    }
}

/// The text of the attribute `attr` of an object.
#[verifier::loop_isolation(false)]
pub fn get_wrapped_object_attr<'a>(value: &'a Field, attr: &str) -> (text: &'a str)
    ensures
        text@ == attr_text(*value, attr@),
{
    proof {
        reveal_strlit("");
    }
    match value {
        Field::Object(attrs) => {
            let mut i: usize = 0;
            while i < attrs.len()
                invariant
                    i <= attrs.len(),
                    attr_from(attrs@, attr@, 0) == attr_from(attrs@, attr@, i as int),
                decreases attrs.len() - i,
            {
                if same_text(attrs[i].0.as_str(), attr) {
                    return match &attrs[i].1 {
                        Field::Text(x) => x.as_str(),
                        _ => "",
                    };
                }
                i = i + 1;
            }
            ""
        },
        _ => "",
    }
}

/// The text held by `value`, or `"NA"`.
pub fn get_wrapped_or_na(value: &Field) -> (text: &str)
    ensures
        text@ == text_or(*value, NA_STRING@),
{
    get_wrapped_string(value, NA_STRING)
}

/// The text held by `value`, or `na` where it holds none.
pub fn get_wrapped_string<'a>(value: &'a Field, na: &'static str) -> (text: &'a str)
    ensures
        text@ == text_or(*value, na@),
{
    match value {
        Field::Text(some) => some.as_str(),
        _ => na,
    }
}

} // verus!
