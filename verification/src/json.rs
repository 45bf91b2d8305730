//! JSON values, and the calls into `serde_json` that build, print and split them.

use serde_json::Error as JsonError;
use smallvec::SmallVec;
use vstd::prelude::*;

verus! {

/// A JSON value in the abstract: what the contracts of this crate say that a reply holds.
///
/// An object is a sequence of fields, since their order is part of what is printed.
pub enum Tree {
    Null,
    Bool(bool),
    Number(int),
    Text(Seq<char>),
    List(Seq<Tree>),
    Object(Seq<(Seq<char>, Tree)>),
}

/// `serde_json::Value`, a JSON value that `serde_json` can print.
#[verifier::external_type_specification]
#[verifier::external_body]
pub struct ExValue(serde_json::Value);

/// `serde_json::Error`, what `serde_json` reports of a text that it cannot read.
#[verifier::external_type_specification]
#[verifier::external_body]
pub struct ExJsonError(JsonError);

/// What a `serde_json::Value` holds.
pub uninterp spec fn value_tree(value: serde_json::Value) -> Tree;

/// The text that `serde_json::to_vec` prints for a JSON value.
pub uninterp spec fn json_text(tree: Tree) -> Seq<u8>;

/// The elements of a JSON array, each as the text it was written as, or, for a text that is
/// not an array, whether it is JSON of the wrong kind (`true`) or no JSON at all (`false`).
pub uninterp spec fn json_elements(text: Seq<char>) -> Result<Seq<Seq<char>>, bool>;

/// Whether `serde_json::Error::is_data` holds of an error.
pub uninterp spec fn error_is_data(error: JsonError) -> bool;

/// `serde_json::Error::is_data`: whether the text was JSON, but not of the expected kind.
pub assume_specification[ JsonError::is_data ](error: &JsonError) -> (r: bool)
    ensures
        r == error_is_data(*error),
;

/// The fields of an object, each with what its value holds.
pub open spec fn field_trees(fields: Seq<(&str, serde_json::Value)>) -> Seq<(Seq<char>, Tree)> {
    fields.map_values(|f: (&str, serde_json::Value)| (f.0@, value_tree(f.1)))
}

/// What each item of a list holds.
pub open spec fn item_trees(items: Seq<serde_json::Value>) -> Seq<Tree> {
    items.map_values(|v: serde_json::Value| value_tree(v))
}

/// `serde_json::Value::Null`.
#[verifier::external_body]
pub(crate) fn null_value() -> (r: serde_json::Value)
    ensures
        value_tree(r) == Tree::Null,
{
    serde_json::Value::Null
}

/// `serde_json::Value::from` on a `bool`: the value holds it.
#[verifier::external_body]
pub(crate) fn bool_value(b: bool) -> (r: serde_json::Value)
    ensures
        value_tree(r) == Tree::Bool(b),
{
    serde_json::Value::from(b)
}

/// `serde_json::Value::from` on a `u64`: the value holds that number.
#[verifier::external_body]
pub(crate) fn unsigned_value(n: u64) -> (r: serde_json::Value)
    ensures
        value_tree(r) == Tree::Number(n as int),
{
    serde_json::Value::from(n)
}

/// `serde_json::Value::from` on an `i64`: the value holds that number.
#[verifier::external_body]
pub(crate) fn signed_value(n: i64) -> (r: serde_json::Value)
    ensures
        value_tree(r) == Tree::Number(n as int),
{
    serde_json::Value::from(n)
}

/// `serde_json::Value::from` on a `&str`: the value holds that text.
#[verifier::external_body]
pub(crate) fn text_value(s: &str) -> (r: serde_json::Value)
    ensures
        value_tree(r) == Tree::Text(s@),
{
    serde_json::Value::from(s)
}

/// `serde_json::Value::from` on a `Vec` of values: an array of them, in their order.
#[verifier::external_body]
pub(crate) fn list_value(items: Vec<serde_json::Value>) -> (r: serde_json::Value)
    ensures
        value_tree(r) == Tree::List(item_trees(items@)),
{
    serde_json::Value::from(items)
}

/// `serde_json::Value::from_iter` on pairs of a name and a value: an object with those
/// fields, in their order (`serde_json` is built to preserve it). A name given twice would be
/// kept once.
#[verifier::external_body]
pub(crate) fn object_value(fields: Vec<(&str, serde_json::Value)>) -> (r: serde_json::Value)
    requires
        forall|i: int, j: int|
            0 <= i < j < fields@.len() ==> (#[trigger] fields@[i]).0@ != (#[trigger] fields@[j]).0@,
    ensures
        value_tree(r) == Tree::Object(field_trees(fields@)),
{
    serde_json::Value::from_iter(fields)
}

/// `serde_json::to_vec` on a `Value`, whose printing into memory does not fail: the text
/// depends on what the value holds, and on nothing else.
#[verifier::external_body]
pub(crate) fn to_vec(value: &serde_json::Value) -> (r: Vec<u8>)
    ensures
        r@ == json_text(value_tree(*value)),
{
    serde_json::to_vec(value).unwrap()
}

/// `serde_json::from_str` into a `SmallVec` of `RawValue`s: the elements of an array, each as
/// the text it was written as. What comes back depends on the text alone.
#[verifier::external_body]
pub(crate) fn split_array(text: &str) -> (r: Result<Vec<String>, JsonError>)
    ensures
        match r {
            Ok(items) => json_elements(text@) == Ok::<Seq<Seq<char>>, bool>(
                items@.map_values(|s: String| s@),
            ),
            Err(e) => json_elements(text@) == Err::<Seq<Seq<char>>, bool>(error_is_data(e)),
        },
{
    let items: SmallVec<[&serde_json::value::RawValue; 2]> = serde_json::from_str(text)?;
    Ok(items.iter().map(|raw| raw.get().to_string()).collect())
}

/// `serde::ser::Error::custom` for `serde_json::Error`: an error with a message of the
/// caller's, which `serde_json` counts among those of the data.
#[verifier::external_body]
pub(crate) fn custom_error(message: &str) -> (r: JsonError)
    ensures
        error_is_data(r),
{
    serde::ser::Error::custom(message)
}

} // verus!
