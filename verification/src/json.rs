//! A JSON document as plain values, and the trusted boundary that parses
//! one.
//!
//! serde_json parses the bytes; the trusted wrapper converts the parsed
//! value, variant by variant, into the crate's own [`Json`] type, which
//! verification can see through.  What the parse returns is named by the
//! uninterpreted [`json_doc`]: for well-formed bytes the document is a
//! function of the bytes alone, so every later contract over a payload can
//! be stated over `json_doc` of its bytes.
//!
//! Numbers the protocol never reads (negative or fractional) are kept only
//! as a marker.

use vstd::prelude::*;

use vstd::string::StringSliceAdditionalSpecFns;

verus! {

broadcast use vstd::std_specs::vec::group_vec_axioms;

/// A JSON document, as plain values.
#[derive(Debug, PartialEq, Eq)]
pub enum Json {
    /// `null`.
    Null,
    /// A boolean.
    Bool(bool),
    /// A number with a `u64` value.
    UInt(u64),
    /// A number with no `u64` value (negative or fractional).
    InexactNumber,
    /// A string, as UTF-8 bytes.
    Text(Vec<u8>),
    /// An array.
    Array(Vec<Json>),
    /// An object: its fields in the order the parser yields them
    /// (serde_json keeps object keys sorted).
    Object(Vec<(Vec<u8>, Json)>),
}

/// Mathematical image of a JSON document.
#[verifier::ext_equal]
pub ghost enum JsonModel {
    Null,
    Bool(bool),
    UInt(u64),
    InexactNumber,
    Text(Seq<u8>),
    Array(Seq<JsonModel>),
    Object(Seq<(Seq<u8>, JsonModel)>),
}

/// The images of an array's elements, in order.
pub open spec fn models_of_seq(s: Seq<Json>) -> Seq<JsonModel>
    decreases s,
{
    if s.len() == 0 {
        Seq::empty()
    } else {
        seq![s.first().model()] + models_of_seq(s.drop_first())
    }
}

/// The images of an object's fields, in order.
pub open spec fn pair_models_of_seq(s: Seq<(Vec<u8>, Json)>) -> Seq<(Seq<u8>, JsonModel)>
    decreases s,
    via pair_models_decreases
{
    if s.len() == 0 {
        Seq::empty()
    } else {
        seq![(s.first().0@, s.first().1.model())] + pair_models_of_seq(s.drop_first())
    }
}

#[via_fn]
proof fn pair_models_decreases(s: Seq<(Vec<u8>, Json)>) {
    if s.len() > 0 {
        assert(decreases_to!(s => s[0]));
        assert(decreases_to!(s[0] => s[0].1));
        assert(s.first() == s[0]);
    }
}

/// Element by element: the image sequence has the element images.
pub proof fn lemma_models_of_seq(s: Seq<Json>)
    ensures
        models_of_seq(s).len() == s.len(),
        forall|i: int| 0 <= i < s.len() ==> models_of_seq(s)[i] == s[i].model(),
    decreases s.len(),
{
    if s.len() > 0 {
        lemma_models_of_seq(s.drop_first());
        assert forall|i: int| 0 <= i < s.len() implies models_of_seq(s)[i] == s[i].model() by {
            if i > 0 {
                assert(models_of_seq(s)[i] == models_of_seq(s.drop_first())[i - 1]);
                assert(s.drop_first()[i - 1] == s[i]);
            }
        }
    }
}

/// Field by field: the image sequence has the field images.
pub proof fn lemma_pair_models_of_seq(s: Seq<(Vec<u8>, Json)>)
    ensures
        pair_models_of_seq(s).len() == s.len(),
        forall|i: int| 0 <= i < s.len() ==> pair_models_of_seq(s)[i] == (s[i].0@, s[i].1.model()),
    decreases s.len(),
{
    if s.len() > 0 {
        lemma_pair_models_of_seq(s.drop_first());
        assert forall|i: int| 0 <= i < s.len() implies pair_models_of_seq(s)[i] == (
            s[i].0@,
            s[i].1.model(),
        ) by {
            if i > 0 {
                assert(pair_models_of_seq(s)[i] == pair_models_of_seq(s.drop_first())[i - 1]);
                assert(s.drop_first()[i - 1] == s[i]);
            }
        }
    }
}

impl Json {
    /// The mathematical image of this document.
    pub open spec fn model(&self) -> JsonModel
        decreases self,
        via Self::model_decreases
    {
        match self {
            Json::Null => JsonModel::Null,
            Json::Bool(b) => JsonModel::Bool(*b),
            Json::UInt(u) => JsonModel::UInt(*u),
            Json::InexactNumber => JsonModel::InexactNumber,
            Json::Text(s) => JsonModel::Text(s@),
            Json::Array(items) => JsonModel::Array(models_of_seq(items@)),
            Json::Object(fields) => JsonModel::Object(pair_models_of_seq(fields@)),
        }
    }

    #[via_fn]
    proof fn model_decreases(&self) {
        match self {
            Json::Array(items) => {
                assert(decreases_to!(*self => *items));
                assert(decreases_to!(*items => items@));
            },
            Json::Object(fields) => {
                assert(decreases_to!(*self => *fields));
                assert(decreases_to!(*fields => fields@));
            },
            _ => {},
        }
    }
}

/// Copy an array's elements; the copies have the same images.
fn clone_json_vec(v: &Vec<Json>) -> (r: Vec<Json>)
    ensures
        r@.len() == v@.len(),
        forall|k: int| 0 <= k < v@.len() ==> #[trigger] r@[k].model() == v@[k].model(),
    decreases v@,
{
    let mut out: Vec<Json> = Vec::new();
    let mut i: usize = 0;
    while i < v.len()
        invariant
            i <= v@.len(),
            out@.len() == i,
            forall|k: int| 0 <= k < i ==> #[trigger] out@[k].model() == v@[k].model(),
        decreases v@.len() - i,
    {
        proof {
            assert(decreases_to!(v@ => v@[i as int]));
        }
        out.push(v[i].clone());
        i += 1;
    }
    out
}

/// Copy an object's fields; the copies have the same keys and images.
fn clone_json_pairs(ps: &Vec<(Vec<u8>, Json)>) -> (r: Vec<(Vec<u8>, Json)>)
    ensures
        r@.len() == ps@.len(),
        forall|k: int| 0 <= k < ps@.len() ==> #[trigger] r@[k].0@ == ps@[k].0@ && r@[k].1.model()
            == ps@[k].1.model(),
    decreases ps@,
{
    let mut out: Vec<(Vec<u8>, Json)> = Vec::new();
    let mut i: usize = 0;
    while i < ps.len()
        invariant
            i <= ps@.len(),
            out@.len() == i,
            forall|k: int| 0 <= k < i ==> #[trigger] out@[k].0@ == ps@[k].0@ && out@[k].1.model()
                == ps@[k].1.model(),
        decreases ps@.len() - i,
    {
        let key = crate::events::clone_bytes(&ps[i].0);
        proof {
            assert(decreases_to!(ps@ => ps@[i as int]));
            assert(decreases_to!(ps@[i as int] => ps@[i as int].1));
        }
        let value = ps[i].1.clone();
        out.push((key, value));
        i += 1;
    }
    out
}

impl Clone for Json {
    /// The copy has the same image.
    fn clone(&self) -> (r: Self)
        ensures
            r.model() == self.model(),
        decreases self,
    {
        match self {
            Json::Null => Json::Null,
            Json::Bool(b) => Json::Bool(*b),
            Json::UInt(u) => Json::UInt(*u),
            Json::InexactNumber => Json::InexactNumber,
            Json::Text(s) => Json::Text(crate::events::clone_bytes(s)),
            Json::Array(items) => {
                proof {
                    assert(decreases_to!(*self => *items));
                    assert(decreases_to!(*items => items@));
                }
                let out = clone_json_vec(items);
                let r = Json::Array(out);
                proof {
                    lemma_models_of_seq(out@);
                    lemma_models_of_seq(items@);
                    assert(models_of_seq(out@) =~= models_of_seq(items@));
                }
                r
            },
            Json::Object(fields) => {
                proof {
                    assert(decreases_to!(*self => *fields));
                    assert(decreases_to!(*fields => fields@));
                }
                let out = clone_json_pairs(fields);
                let r = Json::Object(out);
                proof {
                    lemma_pair_models_of_seq(out@);
                    lemma_pair_models_of_seq(fields@);
                    assert(pair_models_of_seq(out@) =~= pair_models_of_seq(fields@));
                }
                r
            },
        }
    }
}

/// serde_json's document value, opaque to verification.
#[verifier::external_type_specification]
#[verifier::external_body]
pub struct ExValue(serde_json::Value);

/// serde_json's error, opaque to verification.
#[verifier::external_type_specification]
#[verifier::external_body]
pub struct ExJsonError(serde_json::Error);

/// Whether the bytes are a well-formed JSON document.  Named, not defined:
/// serde_json decides it, and it depends on the bytes alone.
pub uninterp spec fn json_wf(b: Seq<u8>) -> bool;

/// The document that well-formed bytes denote.  Named, not defined: what
/// serde_json parses out of the bytes depends on the bytes alone.
pub uninterp spec fn json_doc(b: Seq<u8>) -> JsonModel;

/// Relies on `serde_json::Value`'s variant accessors: convert the parsed
/// value into the crate's document type, one arm per variant, moving
/// values only.
#[verifier::external_body]
fn convert_value(v: &serde_json::Value) -> Json {
    match v {
        serde_json::Value::Null => Json::Null,
        serde_json::Value::Bool(b) => Json::Bool(*b),
        serde_json::Value::Number(n) => match n.as_u64() {
            Some(u) => Json::UInt(u),
            None => Json::InexactNumber,
        },
        serde_json::Value::String(s) => Json::Text(s.as_bytes().to_vec()),
        serde_json::Value::Array(items) => Json::Array(items.iter().map(convert_value).collect()),
        serde_json::Value::Object(map) => Json::Object(
            map.iter().map(|(k, v)| (k.as_bytes().to_vec(), convert_value(v))).collect(),
        ),
    }
}

/// Relies on `serde_json::from_slice::<Value>`: whether the bytes parse,
/// and which document they denote, depend on the bytes alone.
#[verifier::external_body]
pub fn parse_json_doc(b: &Vec<u8>) -> (r: Result<Json, serde_json::Error>)
    ensures
        (r is Ok) == json_wf(b@),
        (r matches Ok(v) ==> v.model() == json_doc(b@)),
{
    serde_json::from_slice::<serde_json::Value>(b).map(|v| convert_value(&v))
}

/// Relies on `serde_json::Error`'s `Display` impl for a human-readable
/// decode message.
#[verifier::external_body]
pub(crate) fn json_error_message(e: &serde_json::Error) -> (r: Vec<u8>) {
    format!("{}", e).into_bytes()
}

/// The value at `key` among an object's fields: the first match, in
/// field order.
pub open spec fn lookup_pairs(ps: Seq<(Seq<u8>, JsonModel)>, key: Seq<u8>) -> Option<JsonModel>
    decreases ps.len(),
{
    if ps.len() == 0 {
        Option::None
    } else if ps.first().0 == key {
        Option::Some(ps.first().1)
    } else {
        lookup_pairs(ps.drop_first(), key)
    }
}

/// The value of an object's field: nothing when the document is not an
/// object or has no such field.
pub open spec fn obj_field(m: JsonModel, key: Seq<u8>) -> Option<JsonModel> {
    match m {
        JsonModel::Object(ps) => lookup_pairs(ps, key),
        _ => Option::None,
    }
}

/// The string content of an object's field, when it is a string.
pub open spec fn str_field(m: JsonModel, key: Seq<u8>) -> Option<Seq<u8>> {
    match obj_field(m, key) {
        Option::Some(JsonModel::Text(s)) => Option::Some(s),
        _ => Option::None,
    }
}

/// The value of an object's field, when it is an unsigned integer.
pub open spec fn u64_field(m: JsonModel, key: Seq<u8>) -> Option<u64> {
    match obj_field(m, key) {
        Option::Some(JsonModel::UInt(u)) => Option::Some(u),
        _ => Option::None,
    }
}

/// The elements of an object's field, when it is an array.
pub open spec fn arr_field(m: JsonModel, key: Seq<u8>) -> Option<Seq<JsonModel>> {
    match obj_field(m, key) {
        Option::Some(JsonModel::Array(items)) => Option::Some(items),
        _ => Option::None,
    }
}

/// Look up an object's field, exactly as [`obj_field`] says.
pub fn get_field<'a>(doc: &'a Json, key: &str) -> (r: Option<&'a Json>)
    ensures
        ({
            match r {
                Option::Some(v) => obj_field(doc.model(), key.spec_bytes()) == Option::Some(
                    v.model(),
                ),
                Option::None => (obj_field(doc.model(), key.spec_bytes()) is None),
            }
        }),
{
    match doc {
        Json::Object(fields) => {
            let ghost pairs = pair_models_of_seq(fields@);
            proof {
                lemma_pair_models_of_seq(fields@);
                assert(doc.model() == JsonModel::Object(pairs));
                assert(pairs.skip(0int) =~= pairs);
            }
            let mut i: usize = 0;
            while i < fields.len()
                invariant
                    i <= fields@.len(),
                    pairs.len() == fields@.len(),
                    forall|k: int| 0 <= k < fields@.len() ==> #[trigger] pairs[k] == (
                        fields@[k].0@,
                        fields@[k].1.model(),
                    ),
                    doc.model() == JsonModel::Object(pairs),
                    lookup_pairs(pairs, key.spec_bytes()) == lookup_pairs(
                        pairs.skip(i as int),
                        key.spec_bytes(),
                    ),
                decreases fields@.len() - i,
            {
                proof {
                    assert(pairs.skip(i as int).first() == pairs[i as int]);
                    assert(pairs.skip(i as int).drop_first() =~= pairs.skip(i + 1));
                }
                if crate::parse::bytes_eq_str(&fields[i].0, key) {
                    return Some(&fields[i].1);
                }
                i += 1;
            }
            proof {
                assert(pairs.skip(fields@.len() as int) =~= Seq::<(Seq<u8>, JsonModel)>::empty());
            }
            None
        },
        _ => None,
    }
}

/// Read a string field of an object, exactly as [`str_field`] says.
pub fn get_str(doc: &Json, key: &str) -> (r: Option<Vec<u8>>)
    ensures
        crate::events::opt_bytes(r) == str_field(doc.model(), key.spec_bytes()),
{
    match get_field(doc, key) {
        Some(Json::Text(s)) => Some(crate::events::clone_bytes(s)),
        _ => None,
    }
}

/// Read an unsigned-integer field of an object, exactly as [`u64_field`]
/// says.
pub fn get_u64(doc: &Json, key: &str) -> (r: Option<u64>)
    ensures
        r == u64_field(doc.model(), key.spec_bytes()),
{
    match get_field(doc, key) {
        Some(Json::UInt(u)) => Some(*u),
        _ => None,
    }
}

} // verus!
