//! Properties of the XML text of values.

use vstd::prelude::*;

use crate::escape::{escaped, is_xml_text, lemma_escaped_is_xml_text};
use crate::text::utf8;
use crate::value::{body_text, items_text, member_text, members_text, value_text, Value};

verus! {

/// A boolean is written as `<boolean>1</boolean>` when true and as
/// `<boolean>0</boolean>` when false, and as nothing else.
pub proof fn lemma_bool_text(b: bool)
    ensures
        value_text(Value::Bool(b)) == utf8("<value>\n") + (if b {
            utf8("<boolean>1</boolean>\n")
        } else {
            utf8("<boolean>0</boolean>\n")
        }) + utf8("</value>\n"),
{
}

/// A string is written with its bytes escaped: the body of the `<string>`
/// element is `s` with `&` replaced by `&amp;` and `<` by `&lt;`, and no raw
/// `<` or stray `&` remains in it.
pub proof fn lemma_string_text(s: Vec<u8>)
    ensures
        value_text(Value::String(s)) == utf8("<value>\n") + utf8("<string>") + escaped(s@)
            + utf8("</string>\n") + utf8("</value>\n"),
        is_xml_text(escaped(s@)),
{
    lemma_escaped_is_xml_text(s@);
}

proof fn lemma_members_flatten(members: Seq<(String, Value)>)
    ensures
        members_text(members) == Seq::new(
            members.len(),
            |i: int| member_text(members[i].0, value_text(members[i].1)),
        ).flatten_alt(),
    decreases members.len(),
{
    let blocks = Seq::new(
        members.len(),
        |i: int| member_text(members[i].0, value_text(members[i].1)),
    );
    if members.len() > 0 {
        let k = members.len() - 1;
        let init = members.subrange(0, k);
        lemma_members_flatten(init);
        assert(blocks.drop_last() =~= Seq::new(
            init.len(),
            |i: int| member_text(init[i].0, value_text(init[i].1)),
        ));
    }
}

/// A struct is written as one `<member>` block per pair, in the order of
/// the pairs, each with its own escaped name; pairs with equal names are all
/// written.
pub proof fn lemma_struct_text(members: Vec<(String, Value)>)
    ensures
        body_text(Value::Struct(members)) == utf8("<struct>\n") + Seq::new(
            members@.len(),
            |i: int| member_text(members@[i].0, value_text(members@[i].1)),
        ).flatten() + utf8("</struct>\n"),
{
    let blocks = Seq::new(
        members@.len(),
        |i: int| member_text(members@[i].0, value_text(members@[i].1)),
    );
    lemma_members_flatten(members@);
    blocks.lemma_flatten_and_flatten_alt_are_equivalent();
}

proof fn lemma_items_flatten(items: Seq<Value>)
    ensures
        items_text(items) == Seq::new(items.len(), |i: int| value_text(items[i])).flatten_alt(),
    decreases items.len(),
{
    let blocks = Seq::new(items.len(), |i: int| value_text(items[i]));
    if items.len() > 0 {
        let k = items.len() - 1;
        let init = items.subrange(0, k);
        lemma_items_flatten(init);
        assert(blocks.drop_last() =~= Seq::new(init.len(), |i: int| value_text(init[i])));
    }
}

/// An array is written as `<array>` and `<data>`, then one nested
/// `<value>` block per item, in the order of the items, each the full text
/// of that item.
pub proof fn lemma_array_text(items: Vec<Value>)
    ensures
        body_text(Value::Array(items)) == utf8("<array>\n") + utf8("<data>\n") + Seq::new(
            items@.len(),
            |i: int| value_text(items@[i]),
        ).flatten() + utf8("</data>\n") + utf8("</array>\n"),
{
    let blocks = Seq::new(items@.len(), |i: int| value_text(items@[i]));
    lemma_items_flatten(items@);
    blocks.lemma_flatten_and_flatten_alt_are_equivalent();
}

/// Nil is written as exactly three lines: `<value>`, `<nil/>`, `</value>`.
pub proof fn lemma_nil_text()
    ensures
        value_text(Value::Nil) == utf8("<value>\n") + utf8("<nil/>\n") + utf8("</value>\n"),
{
}

} // verus!
