//! The XML-RPC value model and its XML rendering.

use vstd::prelude::*;
use vstd::utf8::encode_utf8;

use crate::datetime::{format_datetime, iso8601_text, DateTime};
use crate::double::DoubleText;
use crate::escape::{escape_xml, escaped};
use crate::text::{decimal, push_decimal, push_str, utf8};

verus! {

/// The possible XML-RPC values.
#[derive(Debug, PartialEq)]
pub enum Value {
    /// `<i4>`, a 32-bit signed integer.
    Int(i32),
    /// `<i8>`, a 64-bit signed integer; not every server or client knows it.
    Int64(i64),
    /// `<boolean>`, written `1` for true and `0` for false.
    Bool(bool),
    /// `<string>`, a string of bytes that need not be valid UTF-8.
    String(Vec<u8>),
    /// `<double>`, held as the decimal text of a 64-bit float, which is
    /// written out as it is.
    Double(DoubleText),
    /// `<dateTime.iso8601>`, a calendar date-time.
    DateTime(DateTime),
    /// `<base64>`, binary data, base64-encoded on output.
    Base64(Vec<u8>),
    /// `<struct>`, named members in order. Names need not be unique: every
    /// member is kept and written.
    Struct(Vec<(String, Value)>),
    /// `<array>`, a list of values of any kind.
    Array(Vec<Value>),
    /// `<nil/>`; not every server or client knows it.
    Nil,
}

/// The standard padded base64 text of a byte string.
pub uninterp spec fn base64_text(data: Seq<u8>) -> Seq<u8>;

/// Relies on `base64::encode`, which encodes with the standard alphabet and
/// padding.
#[allow(deprecated)]
#[verifier::external_body]
fn base64_bytes(data: &[u8]) -> (r: Vec<u8>)
    ensures
        r@ == base64_text(data@),
{
    base64::encode(data).into_bytes()
}

/// The text of one value, from `<value>` to `</value>`, each element on a
/// line of its own.
pub open spec fn value_text(v: Value) -> Seq<u8>
    decreases v, 1int,
{
    utf8("<value>\n") + body_text(v) + utf8("</value>\n")
}

/// The text between `<value>` and `</value>`: the element of the value's kind.
pub open spec fn body_text(v: Value) -> Seq<u8>
    decreases v, 0int,
{
    match v {
        Value::Int(i) => utf8("<i4>") + decimal(i as int) + utf8("</i4>\n"),
        Value::Int64(i) => utf8("<i8>") + decimal(i as int) + utf8("</i8>\n"),
        Value::Bool(b) => if b {
            utf8("<boolean>1</boolean>\n")
        } else {
            utf8("<boolean>0</boolean>\n")
        },
        Value::String(s) => utf8("<string>") + escaped(s@) + utf8("</string>\n"),
        Value::Double(d) => utf8("<double>") + encode_utf8(d@) + utf8("</double>\n"),
        Value::DateTime(dt) => utf8("<dateTime.iso8601>") + iso8601_text(dt) + utf8(
            "</dateTime.iso8601>\n",
        ),
        Value::Base64(data) => utf8("<base64>") + base64_text(data@) + utf8("</base64>\n"),
        Value::Struct(members) => utf8("<struct>\n") + members_text(members@) + utf8(
            "</struct>\n",
        ),
        Value::Array(items) => utf8("<array>\n") + utf8("<data>\n") + items_text(items@) + utf8(
            "</data>\n",
        ) + utf8("</array>\n"),
        Value::Nil => utf8("<nil/>\n"),
    }
}

/// The text of one struct member: its escaped name, then its value.
pub open spec fn member_text(name: String, text: Seq<u8>) -> Seq<u8> {
    utf8("<member>\n") + utf8("<name>") + escaped(encode_utf8(name@)) + utf8("</name>\n") + text
        + utf8("</member>\n")
}

/// The text of struct members, one after another in order.
pub open spec fn members_text(members: Seq<(String, Value)>) -> Seq<u8>
    decreases members, 0int,
{
    if members.len() == 0 {
        Seq::empty()
    } else {
        let k = members.len() - 1;
        members_text(members.subrange(0, k)) + member_text(
            members[k].0,
            value_text(members[k].1),
        )
    }
}

/// The text of array items, one after another in order.
pub open spec fn items_text(items: Seq<Value>) -> Seq<u8>
    decreases items, 0int,
{
    if items.len() == 0 {
        Seq::empty()
    } else {
        let k = items.len() - 1;
        items_text(items.subrange(0, k)) + value_text(items[k])
    }
}

/// Holds where `v` is a `String` value holding exactly `bytes`.
pub open spec fn is_string_of(v: Value, bytes: Seq<u8>) -> bool {
    v matches Value::String(b) && b@ == bytes
}

impl Value {
    /// A `String` value holding the UTF-8 bytes of `s`, unescaped.
    pub fn string(s: &str) -> (r: Value)
        ensures
            is_string_of(r, utf8(s)),
    {
        Value::String(vstd::slice::slice_to_vec(s.as_bytes()))
    }

    /// A `String` value holding the UTF-8 bytes of `s`, unescaped.
    pub fn from_string(s: String) -> (r: Value)
        ensures
            is_string_of(r, encode_utf8(s@)),
    {
        Value::string(s.as_str())
    }

    /// Writes this value as XML to the end of `out`.
    pub fn format(&self, out: &mut Vec<u8>)
        ensures
            final(out)@ == old(out)@ + value_text(*self),
        decreases self, 1int,
    {
        let ghost start = old(out)@;
        push_str(out, "<value>\n");
        self.format_body(out);
        push_str(out, "</value>\n");
        assert(out@ =~= start + value_text(*self));
    }

    /// Writes the element of this value's kind to the end of `out`.
    fn format_body(&self, out: &mut Vec<u8>)
        ensures
            final(out)@ == old(out)@ + body_text(*self),
        decreases self, 0int,
    {
        let ghost start = old(out)@;
        match self {
            Value::Int(i) => {
                push_str(out, "<i4>");
                push_decimal(out, *i as i64);
                push_str(out, "</i4>\n");
                assert(out@ =~= start + body_text(*self));
            },
            Value::Int64(i) => {
                push_str(out, "<i8>");
                push_decimal(out, *i);
                push_str(out, "</i8>\n");
                assert(out@ =~= start + body_text(*self));
            },
            Value::Bool(b) => {
                if *b {
                    push_str(out, "<boolean>1</boolean>\n");
                } else {
                    push_str(out, "<boolean>0</boolean>\n");
                }
                assert(out@ =~= start + body_text(*self));
            },
            Value::String(s) => {
                push_str(out, "<string>");
                escape_xml(s.as_slice(), out);
                push_str(out, "</string>\n");
                assert(out@ =~= start + body_text(*self));
            },
            Value::Double(d) => {
                push_str(out, "<double>");
                push_str(out, d.as_str());
                push_str(out, "</double>\n");
                assert(out@ =~= start + body_text(*self));
            },
            Value::DateTime(dt) => {
                push_str(out, "<dateTime.iso8601>");
                format_datetime(dt, out);
                push_str(out, "</dateTime.iso8601>\n");
                assert(out@ =~= start + body_text(*self));
            },
            Value::Base64(data) => {
                push_str(out, "<base64>");
                let mut encoded = base64_bytes(data.as_slice());
                out.append(&mut encoded);
                push_str(out, "</base64>\n");
                assert(out@ =~= start + body_text(*self));
            },
            Value::Struct(members) => {
                push_str(out, "<struct>\n");
                assert(decreases_to!(*self => self->Struct_0));
                format_members(members, out);
                push_str(out, "</struct>\n");
                assert(out@ =~= start + body_text(*self));
            },
            Value::Array(items) => {
                push_str(out, "<array>\n");
                push_str(out, "<data>\n");
                assert(decreases_to!(*self => self->Array_0));
                format_items(items, out);
                push_str(out, "</data>\n");
                push_str(out, "</array>\n");
                assert(out@ =~= start + body_text(*self));
            },
            Value::Nil => {
                push_str(out, "<nil/>\n");
                assert(out@ =~= start + body_text(*self));
            },
        }
    }
}

/// Writes struct members as XML to the end of `out`, in order.
fn format_members(members: &Vec<(String, Value)>, out: &mut Vec<u8>)
    ensures
        final(out)@ == old(out)@ + members_text(members@),
    decreases members, 0int,
{
    let ghost head = old(out)@;
    let mut k: usize = 0;
    while k < members.len()
        invariant
            k <= members@.len(),
            out@ == head + members_text(members@.subrange(0, k as int)),
        decreases members@.len() - k,
    {
        let ghost before = out@;
        let member = &members[k];
        push_str(out, "<member>\n");
        push_str(out, "<name>");
        escape_xml(member.0.as_str().as_bytes(), out);
        push_str(out, "</name>\n");
        assert(decreases_to!(*members => members@));
        assert(decreases_to!(members@ => members@[k as int]));
        assert(decreases_to!(members@[k as int] => members@[k as int].1));
        member.1.format(out);
        push_str(out, "</member>\n");
        proof {
            let next = members@.subrange(0, k as int + 1);
            assert(next.subrange(0, k as int) =~= members@.subrange(0, k as int));
            assert(out@ =~= before + member_text(member.0, value_text(member.1)));
            assert(out@ =~= head + members_text(next));
        }
        k = k + 1;
    }
    assert(members@.subrange(0, members@.len() as int) =~= members@);
}

/// Writes array items as XML to the end of `out`, in order.
fn format_items(items: &Vec<Value>, out: &mut Vec<u8>)
    ensures
        final(out)@ == old(out)@ + items_text(items@),
    decreases items, 0int,
{
    let ghost head = old(out)@;
    let mut k: usize = 0;
    while k < items.len()
        invariant
            k <= items@.len(),
            out@ == head + items_text(items@.subrange(0, k as int)),
        decreases items@.len() - k,
    {
        assert(decreases_to!(*items => items@));
        assert(decreases_to!(items@ => items@[k as int]));
        items[k].format(out);
        proof {
            let next = items@.subrange(0, k as int + 1);
            assert(next.subrange(0, k as int) =~= items@.subrange(0, k as int));
            assert(out@ =~= head + items_text(next));
        }
        k = k + 1;
    }
    assert(items@.subrange(0, items@.len() as int) =~= items@);
}

impl Clone for Value {
    /// A deep copy, holding the same text.
    fn clone(&self) -> (r: Value)
        ensures
            value_text(r) == value_text(*self),
        decreases self,
    {
        match self {
            Value::Int(i) => Value::Int(*i),
            Value::Int64(i) => Value::Int64(*i),
            Value::Bool(b) => Value::Bool(*b),
            Value::String(s) => Value::String(vstd::slice::slice_to_vec(s.as_slice())),
            Value::Double(d) => Value::Double(d.clone()),
            Value::DateTime(dt) => Value::DateTime(*dt),
            Value::Base64(data) => Value::Base64(vstd::slice::slice_to_vec(data.as_slice())),
            Value::Struct(members) => {
                let mut copy: Vec<(String, Value)> = Vec::new();
                let mut k: usize = 0;
                while k < members.len()
                    invariant
                        *self == Value::Struct(*members),
                        k <= members@.len(),
                        copy@.len() == k,
                        forall|j: int|
                            0 <= j < k ==> #[trigger] copy@[j].0@ == members@[j].0@
                                && value_text(copy@[j].1) == value_text(members@[j].1),
                    decreases members@.len() - k,
                {
                    assert(decreases_to!(*self => self->Struct_0));
                    assert(decreases_to!(*members => members@));
                    assert(decreases_to!(members@ => members@[k as int]));
                    assert(decreases_to!(members@[k as int] => members@[k as int].1));
                    assert(decreases_to!(*self => members@[k as int].1));
                    let value = members[k].1.clone();
                    copy.push((members[k].0.clone(), value));
                    k = k + 1;
                }
                proof {
                    lemma_members_text_same(copy@, members@);
                }
                Value::Struct(copy)
            },
            Value::Array(items) => {
                let mut copy: Vec<Value> = Vec::new();
                let mut k: usize = 0;
                while k < items.len()
                    invariant
                        *self == Value::Array(*items),
                        k <= items@.len(),
                        copy@.len() == k,
                        forall|j: int|
                            0 <= j < k ==> #[trigger] value_text(copy@[j]) == value_text(items@[j]),
                    decreases items@.len() - k,
                {
                    assert(decreases_to!(*self => self->Array_0));
                    assert(decreases_to!(*items => items@));
                    assert(decreases_to!(items@ => items@[k as int]));
                    assert(decreases_to!(*self => items@[k as int]));
                    copy.push(items[k].clone());
                    k = k + 1;
                }
                proof {
                    lemma_items_text_same(copy@, items@);
                }
                Value::Array(copy)
            },
            Value::Nil => Value::Nil,
        }
    }
}

proof fn lemma_members_text_same(a: Seq<(String, Value)>, b: Seq<(String, Value)>)
    requires
        a.len() == b.len(),
        forall|j: int|
            0 <= j < a.len() ==> #[trigger] a[j].0@ == b[j].0@ && value_text(a[j].1) == value_text(
                b[j].1,
            ),
    ensures
        members_text(a) == members_text(b),
    decreases a.len(),
{
    if a.len() > 0 {
        let k = a.len() - 1;
        lemma_members_text_same(a.subrange(0, k), b.subrange(0, k));
        assert(a[k].0@ == b[k].0@ && value_text(a[k].1) == value_text(b[k].1));
    }
}

proof fn lemma_items_text_same(a: Seq<Value>, b: Seq<Value>)
    requires
        a.len() == b.len(),
        forall|j: int| 0 <= j < a.len() ==> #[trigger] value_text(a[j]) == value_text(b[j]),
    ensures
        items_text(a) == items_text(b),
    decreases a.len(),
{
    if a.len() > 0 {
        let k = a.len() - 1;
        lemma_items_text_same(a.subrange(0, k), b.subrange(0, k));
        assert(value_text(a[k]) == value_text(b[k]));
    }
}

impl From<i32> for Value {
    fn from(other: i32) -> (r: Value) {
        Value::Int(other)
    }
}

impl vstd::std_specs::convert::FromSpecImpl<i32> for Value {
    open spec fn obeys_from_spec() -> bool {
        true
    }

    open spec fn from_spec(v: i32) -> Value {
        Value::Int(v)
    }
}

impl From<bool> for Value {
    fn from(other: bool) -> (r: Value) {
        Value::Bool(other)
    }
}

impl vstd::std_specs::convert::FromSpecImpl<bool> for Value {
    open spec fn obeys_from_spec() -> bool {
        true
    }

    open spec fn from_spec(v: bool) -> Value {
        Value::Bool(v)
    }
}

impl From<DateTime> for Value {
    fn from(other: DateTime) -> (r: Value) {
        Value::DateTime(other)
    }
}

impl vstd::std_specs::convert::FromSpecImpl<DateTime> for Value {
    open spec fn obeys_from_spec() -> bool {
        true
    }

    open spec fn from_spec(v: DateTime) -> Value {
        Value::DateTime(v)
    }
}

/// A `String` value holding the UTF-8 bytes of the text, unescaped.
impl From<String> for Value {
    fn from(other: String) -> (r: Value)
        ensures
            is_string_of(r, encode_utf8(other@)),
    {
        Value::from_string(other)
    }
}

impl vstd::std_specs::convert::FromSpecImpl<String> for Value {
    open spec fn obeys_from_spec() -> bool {
        false
    }

    open spec fn from_spec(v: String) -> Value {
        choose|r: Value| is_string_of(r, encode_utf8(v@))
    }
}

/// A `String` value holding the UTF-8 bytes of the text, unescaped.
impl<'a> From<&'a str> for Value {
    fn from(other: &'a str) -> (r: Value)
        ensures
            is_string_of(r, utf8(other)),
    {
        Value::string(other)
    }
}

impl<'a> vstd::std_specs::convert::FromSpecImpl<&'a str> for Value {
    open spec fn obeys_from_spec() -> bool {
        false
    }

    open spec fn from_spec(v: &'a str) -> Value {
        choose|r: Value| is_string_of(r, utf8(v))
    }
}

} // verus!
