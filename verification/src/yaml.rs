//! YAML values: the node type that the metadata logic works on, and its
//! mathematical model.

use serde_yaml::Value;
use vstd::prelude::*;

verus! {

/// The mathematical value of a YAML node.
pub enum YamlValue {
    /// The null value.
    Null,
    /// A boolean.
    Bool(bool),
    /// A number, as `serde_yaml` prints it: in decimal digits (`0x10` is
    /// held as `16`), or `.inf`, `-.inf`, `.nan`.
    Number(Seq<char>),
    /// A string.
    Text(Seq<char>),
    /// A sequence of values.
    Sequence(Seq<YamlValue>),
    /// A mapping: its key-value pairs, in document order.
    Mapping(Seq<(YamlValue, YamlValue)>),
    /// A value with a `!tag`.
    Tagged(Seq<char>, Box<YamlValue>),
}

/// A YAML node.
#[derive(Debug, PartialEq, Eq)]
pub enum YamlNode {
    /// The null value.
    Null,
    /// A boolean.
    Bool(bool),
    /// A number, as `serde_yaml` prints it: in decimal digits (`0x10` is
    /// held as `16`), or `.inf`, `-.inf`, `.nan`.
    Number(String),
    /// A string.
    Text(String),
    /// A sequence of nodes.
    Sequence(Vec<YamlNode>),
    /// A mapping: its key-value pairs, in document order.
    Mapping(Vec<(YamlNode, YamlNode)>),
    /// A node with a `!tag`.
    Tagged(String, Box<YamlNode>),
}

impl YamlNode {
    /// The value that the node stands for.
    pub open spec fn model(&self) -> YamlValue
        decreases self,
    {
        match self {
            YamlNode::Null => YamlValue::Null,
            YamlNode::Bool(b) => YamlValue::Bool(*b),
            YamlNode::Number(text) => YamlValue::Number(text@),
            YamlNode::Text(text) => YamlValue::Text(text@),
            YamlNode::Sequence(items) => YamlValue::Sequence(
                Seq::new(
                    items@.len(),
                    |i: int|
                        if 0 <= i < items@.len() {
                            items@[i].model()
                        } else {
                            YamlValue::Null
                        },
                ),
            ),
            YamlNode::Mapping(pairs) => YamlValue::Mapping(
                Seq::new(
                    pairs@.len(),
                    |i: int|
                        if 0 <= i < pairs@.len() {
                            (pairs@[i].0.model(), pairs@[i].1.model())
                        } else {
                            (YamlValue::Null, YamlValue::Null)
                        },
                ),
            ),
            YamlNode::Tagged(tag, inner) => YamlValue::Tagged(tag@, Box::new((**inner).model())),
        }
    }
}

impl View for YamlNode {
    type V = YamlValue;

    open spec fn view(&self) -> YamlValue {
        self.model()
    }
}

impl Clone for YamlNode {
    /// A deep copy of the node.
    fn clone(&self) -> (copy: Self)
        ensures
            copy@ == self@,
        decreases self,
    {
        match self {
            YamlNode::Null => YamlNode::Null,
            YamlNode::Bool(b) => YamlNode::Bool(*b),
            YamlNode::Number(text) => YamlNode::Number(text.clone()),
            YamlNode::Text(text) => YamlNode::Text(text.clone()),
            YamlNode::Sequence(items) => {
                let mut copies: Vec<YamlNode> = Vec::new();
                let mut i: usize = 0;
                while i < items.len()
                    invariant
                        i <= items.len(),
                        copies.len() == i,
                        forall|j: int| 0 <= j < items.len() ==> decreases_to!(self => items@[j]),
                        forall|j: int| 0 <= j < i ==> copies@[j]@ == items@[j]@,
                    decreases items.len() - i,
                {
                    let copy = items[i].clone();
                    copies.push(copy);
                    i = i + 1;
                }
                let result = YamlNode::Sequence(copies);
                assert(result@->Sequence_0 =~= self@->Sequence_0);
                result
            },
            YamlNode::Mapping(pairs) => {
                let mut copies: Vec<(YamlNode, YamlNode)> = Vec::new();
                let mut i: usize = 0;
                while i < pairs.len()
                    invariant
                        i <= pairs.len(),
                        copies.len() == i,
                        forall|j: int| 0 <= j < pairs.len() ==> decreases_to!(self => pairs@[j]),
                        forall|j: int|
                            0 <= j < i ==> copies@[j].0@ == pairs@[j].0@ && copies@[j].1@
                                == pairs@[j].1@,
                    decreases pairs.len() - i,
                {
                    let key = pairs[i].0.clone();
                    let value = pairs[i].1.clone();
                    copies.push((key, value));
                    i = i + 1;
                }
                let result = YamlNode::Mapping(copies);
                assert(result@->Mapping_0 =~= self@->Mapping_0);
                result
            },
            YamlNode::Tagged(tag, inner) => {
                let copy = (**inner).clone();
                YamlNode::Tagged(tag.clone(), Box::new(copy))
            },
        }
    }
}

/// A YAML value as `serde_yaml` holds it.
#[verifier::external_type_specification]
#[verifier::external_body]
pub struct ExValue(Value);

/// The error that `serde_yaml` reports for a text it cannot read.
#[verifier::external_type_specification]
#[verifier::external_body]
pub struct ExError(serde_yaml::Error);

/// The value that `serde_yaml::from_str` reads from `text`, or `None` where
/// it reports an error.
pub uninterp spec fn yaml_document(text: Seq<char>) -> Option<YamlValue>;

/// What a `serde_yaml::Value` holds.
pub uninterp spec fn value_model(value: Value) -> YamlValue;

/// Calls `serde_yaml::from_str` to read one YAML document into a
/// `serde_yaml::Value`. The call depends on the text alone; the contract
/// gives its outcome the name `yaml_document` and says nothing of what the
/// value is.
#[verifier::external_body]
fn read_value(text: &str) -> (outcome: Result<Value, serde_yaml::Error>)
    ensures
        match outcome {
            Ok(value) => yaml_document(text@) == Some(value_model(value)),
            Err(_) => yaml_document(text@) is None,
        },
{
    serde_yaml::from_str::<Value>(text)
}

/// Copies a `serde_yaml::Value` into a `YamlNode`, variant by variant: a
/// number as `serde_yaml` prints it, a tag as `serde_yaml` prints it (with
/// its leading `!`), the pairs of a mapping in the order in which
/// `serde_yaml` walks them.
#[verifier::external_body]
fn node_of_value(value: &Value) -> (node: YamlNode)
    ensures
        node@ == value_model(*value),
{
    match value {
        Value::Null => YamlNode::Null,
        Value::Bool(b) => YamlNode::Bool(*b),
        Value::Number(n) => YamlNode::Number(n.to_string()),
        Value::String(s) => YamlNode::Text(s.clone()),
        Value::Sequence(items) => YamlNode::Sequence(items.iter().map(node_of_value).collect()),
        Value::Mapping(pairs) => YamlNode::Mapping(
            pairs.iter().map(|(k, v)| (node_of_value(k), node_of_value(v))).collect(),
        ),
        Value::Tagged(t) => YamlNode::Tagged(t.tag.to_string(), Box::new(node_of_value(&t.value))),
    }
}

/// Reads a YAML document.
///
/// Returns the root node of the document, or `None` where the text is no
/// well-formed YAML.
pub fn parse_yaml(text: &str) -> (root: Option<YamlNode>)
    ensures
        match root {
            Some(node) => yaml_document(text@) == Some(node@),
            None => yaml_document(text@) is None,
        },
{
    match read_value(text) {
        Ok(value) => Some(node_of_value(&value)),
        Err(_) => None,
    }
}

} // verus!
