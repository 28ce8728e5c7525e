//! JSON documents as trees of plain values.

use vstd::prelude::*;

verus! {

/// A JSON document.
///
/// A number is kept as text, so that no digit is lost; an object keeps its
/// members as a list of key and value.
#[derive(Debug, PartialEq, Eq)]
pub enum Json {
    Null,
    Bool(bool),
    Number(String),
    Text(String),
    Array(Vec<Json>),
    Object(Vec<(String, Json)>),
}

/// The mathematical value of a [`Json`] document.
pub enum JsonModel {
    Null,
    Bool(bool),
    Number(Seq<char>),
    Text(Seq<char>),
    Array(Seq<JsonModel>),
    Object(Seq<(Seq<char>, JsonModel)>),
}

impl Json {
    /// The value of the document.
    pub open spec fn model(&self) -> JsonModel
        decreases self,
    {
        match self {
            Json::Null => JsonModel::Null,
            Json::Bool(b) => JsonModel::Bool(*b),
            Json::Number(t) => JsonModel::Number(t@),
            Json::Text(t) => JsonModel::Text(t@),
            Json::Array(items) => JsonModel::Array(
                Seq::new(
                    items@.len(),
                    |i: int|
                        if 0 <= i < items@.len() {
                            items@[i].model()
                        } else {
                            JsonModel::Null
                        },
                ),
            ),
            Json::Object(members) => JsonModel::Object(
                Seq::new(
                    members@.len(),
                    |i: int|
                        if 0 <= i < members@.len() {
                            (members@[i].0@, members@[i].1.model())
                        } else {
                            (Seq::empty(), JsonModel::Null)
                        },
                ),
            ),
        }
    }
}

impl View for Json {
    type V = JsonModel;

    open spec fn view(&self) -> JsonModel {
        self.model()
    }
}

impl Clone for Json {
    fn clone(&self) -> (r: Json)
        ensures
            r@ == self@,
    {
        self.duplicate()
    }
}

/// `serde_json::Value`, the tree that `serde_json` parses a document into.
#[verifier::external_type_specification]
#[verifier::external_body]
pub struct ExValue(serde_json::Value);

/// The document that a `serde_json::Value` holds: its numbers by their text,
/// the members of its objects in the order in which the value hands them out.
pub uninterp spec fn value_model(v: serde_json::Value) -> JsonModel;

/// The document that `serde_json::from_str` reads from `text` as a
/// `serde_json::Value`, or `None` where it refuses the text.
pub uninterp spec fn parsed_json(text: Seq<char>) -> Option<JsonModel>;

/// The outermost layer of a `serde_json::Value`: its variant, with the plain
/// values of a leaf copied out and the children of a node still as they are.
enum Layer<'a> {
    Null,
    Bool(bool),
    Number(String),
    Text(String),
    Array(&'a Vec<serde_json::Value>),
    Object(Vec<(String, &'a serde_json::Value)>),
}

/// The document that a layer stands for.
spec fn layer_model(layer: Layer) -> JsonModel {
    match layer {
        Layer::Null => JsonModel::Null,
        Layer::Bool(b) => JsonModel::Bool(b),
        Layer::Number(t) => JsonModel::Number(t@),
        Layer::Text(t) => JsonModel::Text(t@),
        Layer::Array(items) => JsonModel::Array(
            Seq::new(items@.len(), |i: int| value_model(items@[i])),
        ),
        Layer::Object(members) => JsonModel::Object(
            Seq::new(members@.len(), |i: int| (members@[i].0@, value_model(*members@[i].1))),
        ),
    }
}

/// Calls `serde_json::from_str` for a `serde_json::Value`. Nothing is proved of
/// it: the contract only gives the parsed document its name, and says that
/// `None` comes exactly when the parser refuses the text.
#[verifier::external_body]
fn read_value(text: &str) -> (r: Option<serde_json::Value>)
    ensures
        match r {
            Some(v) => parsed_json(text@) == Some(value_model(v)),
            None => parsed_json(text@) is None,
        },
{
    match serde_json::from_str::<serde_json::Value>(text) {
        Ok(v) => Some(v),
        Err(_) => None,
    }
}

/// Tells the variants of a `serde_json::Value` apart and hands out what the
/// variant holds: a number by `Number::as_str`, the members of an object in the
/// order of `Map::iter`. Nothing is proved of it: the contract says that the
/// layer stands for the document that the value holds, which is what gives
/// `value_model` its meaning.
#[verifier::external_body]
fn top_layer(v: &serde_json::Value) -> (r: Layer<'_>)
    ensures
        layer_model(r) == value_model(*v),
{
    match v {
        serde_json::Value::Null => Layer::Null,
        serde_json::Value::Bool(b) => Layer::Bool(*b),
        serde_json::Value::Number(n) => Layer::Number(n.as_str().to_owned()),
        serde_json::Value::String(t) => Layer::Text(t.clone()),
        serde_json::Value::Array(items) => Layer::Array(items),
        serde_json::Value::Object(members) => Layer::Object(
            members.iter().map(|(k, x)| (k.clone(), x)).collect(),
        ),
    }
}

/// Copies a parsed value into a [`Json`] tree.
fn lift(v: &serde_json::Value) -> (j: Json)
    ensures
        j@ == value_model(*v),
    decreases value_model(*v),
{
    match top_layer(v) {
        Layer::Null => Json::Null,
        Layer::Bool(b) => Json::Bool(b),
        Layer::Number(t) => Json::Number(t),
        Layer::Text(t) => Json::Text(t),
        Layer::Array(items) => {
            let ghost children = Seq::new(items@.len(), |i: int| value_model(items@[i]));
            let mut out: Vec<Json> = Vec::new();
            let mut i: usize = 0;
            while i < items.len()
                invariant
                    0 <= i <= items@.len(),
                    out@.len() == i,
                    value_model(*v) == JsonModel::Array(children),
                    children == Seq::new(items@.len(), |i: int| value_model(items@[i])),
                    forall|k: int| 0 <= k < i ==> (#[trigger] out@[k])@ == value_model(items@[k]),
                decreases items@.len() - i,
            {
                proof {
                    let whole = value_model(*v);
                    assert(whole->Array_0[i as int] == value_model(items@[i as int]));
                    assert(decreases_to!(whole => whole->Array_0));
                    assert(decreases_to!(whole->Array_0 => whole->Array_0[i as int]));
                }
                let child = lift(&items[i]);
                out.push(child);
                i = i + 1;
            }
            let j = Json::Array(out);
            assert(j@->Array_0 =~= children);
            j
        },
        Layer::Object(members) => {
            let ghost children = Seq::new(
                members@.len(),
                |i: int| (members@[i].0@, value_model(*members@[i].1)),
            );
            let mut out: Vec<(String, Json)> = Vec::new();
            let mut i: usize = 0;
            while i < members.len()
                invariant
                    0 <= i <= members@.len(),
                    out@.len() == i,
                    value_model(*v) == JsonModel::Object(children),
                    children == Seq::new(
                        members@.len(),
                        |i: int| (members@[i].0@, value_model(*members@[i].1)),
                    ),
                    forall|k: int|
                        0 <= k < i ==> (#[trigger] out@[k]).0@ == members@[k].0@ && out@[k].1@
                            == value_model(*members@[k].1),
                decreases members@.len() - i,
            {
                proof {
                    let whole = value_model(*v);
                    assert(whole->Object_0[i as int] == (
                        members@[i as int].0@,
                        value_model(*members@[i as int].1),
                    ));
                    assert(decreases_to!(whole => whole->Object_0));
                    assert(decreases_to!(whole->Object_0 => whole->Object_0[i as int]));
                    assert(decreases_to!(whole->Object_0[i as int] => whole->Object_0[i as int].1));
                }
                let key = members[i].0.clone();
                let child = lift(members[i].1);
                out.push((key, child));
                i = i + 1;
            }
            let j = Json::Object(out);
            assert(j@->Object_0 =~= children);
            j
        },
    }
}

impl Json {
    /// The value of an array: the values of its items, in order.
    pub proof fn lemma_array_view(self)
        requires
            self is Array,
        ensures
            self@ is Array,
            self@->Array_0.len() == self->Array_0@.len(),
            forall|k: int|
                0 <= k < self->Array_0@.len() ==> #[trigger] self@->Array_0[k]
                    == self->Array_0@[k]@,
    {
    }

    /// The value of an object: the keys and the values of its members, in
    /// order.
    pub proof fn lemma_object_view(self)
        requires
            self is Object,
        ensures
            self@ is Object,
            self@->Object_0.len() == self->Object_0@.len(),
            forall|k: int|
                0 <= k < self->Object_0@.len() ==> #[trigger] self@->Object_0[k] == (
                    self->Object_0@[k].0@,
                    self->Object_0@[k].1@,
                ),
    {
    }

    /// A copy of the document.
    pub fn duplicate(&self) -> (r: Json)
        ensures
            r@ == self@,
        decreases self,
    {
        match self {
            Json::Null => Json::Null,
            Json::Bool(b) => Json::Bool(*b),
            Json::Number(t) => Json::Number(t.clone()),
            Json::Text(t) => Json::Text(t.clone()),
            Json::Array(items) => {
                let mut out: Vec<Json> = Vec::new();
                let mut i: usize = 0;
                while i < items.len()
                    invariant
                        0 <= i <= items@.len(),
                        out@.len() == i,
                        self == Json::Array(*items),
                        forall|k: int| 0 <= k < i ==> (#[trigger] out@[k])@ == items@[k]@,
                    decreases items@.len() - i,
                {
                    proof {
                        assert(decreases_to!(self => self->Array_0));
                        assert(decreases_to!(self->Array_0 => self->Array_0@));
                        assert(decreases_to!(self->Array_0@ => self->Array_0@[i as int]));
                    }
                    out.push(items[i].duplicate());
                    i = i + 1;
                }
                let r = Json::Array(out);
                proof {
                    r.lemma_array_view();
                    self.lemma_array_view();
                    assert(r@->Array_0 =~= self@->Array_0);
                }
                r
            },
            Json::Object(members) => {
                let mut out: Vec<(String, Json)> = Vec::new();
                let mut i: usize = 0;
                while i < members.len()
                    invariant
                        0 <= i <= members@.len(),
                        out@.len() == i,
                        self == Json::Object(*members),
                        forall|k: int|
                            0 <= k < i ==> (#[trigger] out@[k]).0@ == members@[k].0@ && out@[k].1@
                                == members@[k].1@,
                    decreases members@.len() - i,
                {
                    proof {
                        assert(decreases_to!(self => self->Object_0));
                        assert(decreases_to!(self->Object_0 => self->Object_0@));
                        assert(decreases_to!(self->Object_0@ => self->Object_0@[i as int]));
                        assert(decreases_to!(self->Object_0@[i as int] => self->Object_0@[i as int].1));
                    }
                    out.push((members[i].0.clone(), members[i].1.duplicate()));
                    i = i + 1;
                }
                let r = Json::Object(out);
                proof {
                    r.lemma_object_view();
                    self.lemma_object_view();
                    assert(r@->Object_0 =~= self@->Object_0);
                }
                r
            },
        }
    }

    /// Reads a JSON document. `None` is returned exactly where the text is not
    /// valid JSON.
    pub fn parse(text: &str) -> (r: Option<Json>)
        ensures
            match r {
                Some(j) => parsed_json(text@) == Some(j@),
                None => parsed_json(text@) is None,
            },
    {
        match read_value(text) {
            Some(v) => Some(lift(&v)),
            None => None,
        }
    }
}

} // verus!
