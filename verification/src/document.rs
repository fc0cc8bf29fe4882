use vstd::prelude::*;

use crate::errors::ParseError;
use crate::nesting::{is_shallow, shallow};

verus! {

/// `toml::Value`, a parsed TOML value. Nothing inside it is visible here.
#[verifier::external_type_specification]
#[verifier::external_body]
pub struct ExTomlValue(toml::Value);

/// `toml::de::Error`, the parser's error. Nothing inside it is visible here.
#[verifier::external_type_specification]
#[verifier::external_body]
pub struct ExTomlError(toml::de::Error);

/// A value of a configuration document: what a TOML value holds, but for
/// the number of a float and the moment of a datetime, which no rule reads.
/// A table lists its entries in the order in which the parser's table
/// yields them, which is the order of the keys.
#[derive(Debug)]
pub enum Item {
    Str(String),
    Int(i64),
    Bool(bool),
    Real,
    Datetime,
    Array(Vec<Item>),
    Table(Vec<(String, Item)>),
}

/// The mathematical content of an [`Item`].
pub enum Node {
    Str(Seq<char>),
    Int(int),
    Bool(bool),
    Real,
    Datetime,
    Array(Seq<Node>),
    Table(Seq<(Seq<char>, Node)>),
}

/// The content of a value, and of everything below it.
pub open spec fn content(item: Item) -> Node
    decreases item,
{
    match item {
        Item::Str(s) => Node::Str(s@),
        Item::Int(i) => Node::Int(i as int),
        Item::Bool(b) => Node::Bool(b),
        Item::Real => Node::Real,
        Item::Datetime => Node::Datetime,
        Item::Array(items) => Node::Array(
            Seq::new(
                items@.len(),
                |i: int|
                    if 0 <= i < items@.len() {
                        content(items@[i])
                    } else {
                        Node::Real
                    },
            ),
        ),
        Item::Table(entries) => Node::Table(
            Seq::new(
                entries@.len(),
                |i: int|
                    if 0 <= i < entries@.len() {
                        (entries@[i].0@, content(entries@[i].1))
                    } else {
                        (Seq::empty(), Node::Real)
                    },
            ),
        ),
    }
}

impl View for Item {
    type V = Node;

    open spec fn view(&self) -> Node {
        content(*self)
    }
}

/// The content of an array lists the contents of its items.
pub proof fn lemma_array_view(item: Item)
    requires
        item is Array,
    ensures
        item@ is Array,
        item@->Array_0.len() == item->Array_0@.len(),
        forall|i: int|
            0 <= i < item->Array_0@.len() ==> item@->Array_0[i] == (#[trigger] item->Array_0@[i])@,
{
}

/// The content of a table lists its keys, each with the content of its value.
pub proof fn lemma_table_view(item: Item)
    requires
        item is Table,
    ensures
        item@ is Table,
        item@->Table_0.len() == item->Table_0@.len(),
        forall|i: int|
            0 <= i < item->Table_0@.len() ==> item@->Table_0[i] == (
                (#[trigger] item->Table_0@[i]).0@,
                item->Table_0@[i].1@,
            ),
{
}

/// The document that the text stands for in TOML, if it is one.
pub uninterp spec fn toml_document(text: Seq<char>) -> Option<Node>;

/// What a TOML value holds.
pub uninterp spec fn toml_content(value: toml::Value) -> Node;

/// Calls `toml::from_str` for a `toml::Value`. The contract only names the
/// outcome: a value whose content is the document of the text where the
/// text is TOML, an error where it is not. The parser follows nested
/// arrays and inline tables, and the parts of a dotted key or of a table
/// header, by recursion without a limit of its own, so only a shallow text
/// may be handed to it. That the scan behind `shallow` passes over comments
/// and strings where the parser's tokenizer does, and so counts no less
/// nesting than the parser meets, is taken on trust here.
#[verifier::external_body]
fn toml_from_str(text: &str) -> (r: Result<toml::Value, toml::de::Error>)
    requires
        shallow(text@),
    ensures
        match r {
            Ok(value) => toml_document(text@) == Some(toml_content(value)),
            Err(_) => toml_document(text@) is None,
        },
{
    toml::from_str::<toml::Value>(text)
}

/// Takes a `toml::Value` apart, variant by variant, into an [`Item`] of
/// the same content. The entries of a `toml::value::Table` come in the
/// order in which its iterator yields them.
#[verifier::external_body]
fn item_of(value: toml::Value) -> (r: Item)
    ensures
        r@ == toml_content(value),
{
    match value {
        toml::Value::String(s) => Item::Str(s),
        toml::Value::Integer(i) => Item::Int(i),
        toml::Value::Float(_) => Item::Real,
        toml::Value::Boolean(b) => Item::Bool(b),
        toml::Value::Datetime(_) => Item::Datetime,
        toml::Value::Array(a) => Item::Array(a.into_iter().map(item_of).collect()),
        toml::Value::Table(t) => Item::Table(t.into_iter().map(|(k, v)| (k, item_of(v))).collect()),
    }
}

/// The document that a text stands for: none where the text is not
/// shallow, and none where it is not TOML.
pub open spec fn document_of(text: Seq<char>) -> Result<Node, ParseError> {
    if !shallow(text) {
        Err(ParseError::TooNested)
    } else {
        match toml_document(text) {
            Some(doc) => Ok(doc),
            None => Err(ParseError::Syntax),
        }
    }
}

/// Reads a text as a TOML document. A text that is not shallow is refused
/// unread.
pub fn parse_document(text: &str) -> (r: Result<Item, ParseError>)
    ensures
        match r {
            Ok(doc) => document_of(text@) == Ok::<Node, ParseError>(doc@),
            Err(e) => document_of(text@) == Err::<Node, ParseError>(e),
        },
{
    if !is_shallow(text) {
        return Err(ParseError::TooNested);
    }
    match toml_from_str(text) {
        Ok(value) => Ok(item_of(value)),
        Err(_) => Err(ParseError::Syntax),
    }
}

} // verus!
