use vstd::prelude::*;
use crate::decode::{decode_document, spec_decode_document};
use crate::json::Json;
use crate::model::Document;
use crate::render::{push_document, render_document};
use crate::scalar::Scalar;
use crate::text::string_of_chars;
use crate::Error;

verus! {

#[verifier::external_type_specification]
#[verifier::external_body]
pub struct ExValue(serde_json::Value);

/// The structured value tree that well-formed JSON text parses to, if any:
/// what `serde_json::from_str::<serde_json::Value>` makes of the text,
/// carried over into the library's own tree.
pub uninterp spec fn json_text_tree(s: Seq<char>) -> Option<Json>;

/// The contents of a parsed `serde_json::Value`, as the library's own
/// tree.
pub uninterp spec fn value_tree(v: serde_json::Value) -> Json;

/// Relies on `serde_json::from_str::<serde_json::Value>`: it returns `Ok`
/// exactly on well-formed JSON text, and what it parses is a function of
/// the text alone. An error is carried over as its message.
#[verifier::external_body]
fn parse_value(s: &str) -> (r: Result<serde_json::Value, String>)
    ensures
        r is Ok <==> json_text_tree(s@) is Some,
        r matches Ok(v) ==> value_tree(v) == json_text_tree(s@)->0,
{
    serde_json::from_str::<serde_json::Value>(s).map_err(|e| e.to_string())
}

/// Relies on the variants of `serde_json::Value`, told apart one arm each
/// and moved into the library's own tree; a number is told apart by
/// `serde_json::Number::as_u64` and otherwise keeps its `Display` text.
#[verifier::external_body]
fn tree_of_value(v: serde_json::Value) -> (r: Json)
    ensures
        r == value_tree(v),
{
    match v {
        serde_json::Value::Null => Json::Scalar(Scalar::Null),
        serde_json::Value::Bool(b) => Json::Scalar(Scalar::Bool(b)),
        serde_json::Value::Number(n) => match n.as_u64() {
            Option::Some(u) => Json::Scalar(Scalar::UInt(u)),
            Option::None => Json::Scalar(Scalar::Num(n.to_string())),
        },
        serde_json::Value::String(s) => Json::Scalar(Scalar::Str(s)),
        serde_json::Value::Array(a) => Json::Arr(a.into_iter().map(tree_of_value).collect()),
        serde_json::Value::Object(m) => Json::Obj(
            m.into_iter().map(|(k, x)| (k, tree_of_value(x))).collect(),
        ),
    }
}

/// The output text owed for `text`: present exactly when the text parses
/// as JSON and the parsed tree decodes as a document.
pub open spec fn spec_process(text: Seq<char>) -> Option<Seq<char>> {
    match json_text_tree(text) {
        Option::Some(t) => match spec_decode_document(t) {
            Option::Some(d) => Option::Some(render_document(d)),
            Option::None => Option::None,
        },
        Option::None => Option::None,
    }
}

/// Parses the input text and decodes it into a typed document.
///
/// Fails with the parse error exactly when the text is not well-formed
/// JSON, and with the shape error exactly when the parsed tree does not
/// decode as a document.
pub fn load_document(text: &str) -> (r: Result<Document, Error>)
    ensures
        match r {
            Ok(d) => json_text_tree(text@) matches Some(t) && spec_decode_document(t) == Some(d@),
            Err(e) => match e {
                Error::Parse(_) => json_text_tree(text@) is None,
                Error::MissingField => json_text_tree(text@) matches Some(t)
                    && spec_decode_document(t) is None,
            },
        },
{
    let v = match parse_value(text) {
        Ok(v) => v,
        Err(m) => {
            return Err(Error::Parse(m));
        },
    };
    let j = tree_of_value(v);
    decode_document(&j)
}

/// Renders a typed document as its whole output text.
pub fn format_document(d: &Document) -> (r: String)
    ensures
        r@ == render_document(d@),
{
    let mut out: Vec<char> = Vec::new();
    push_document(&mut out, d);
    proof {
        assert(out@ =~= render_document(d@));
    }
    string_of_chars(&out)
}

/// Runs the whole pipeline over one input text: parse, decode, render.
/// Either the whole document renders, or an error comes back and no text
/// does.
pub fn process_log(text: &str) -> (r: Result<String, Error>)
    ensures
        match r {
            Ok(out) => spec_process(text@) == Some(out@),
            Err(e) => match e {
                Error::Parse(_) => json_text_tree(text@) is None,
                Error::MissingField => json_text_tree(text@) matches Some(t)
                    && spec_decode_document(t) is None,
            },
        },
{
    match load_document(text) {
        Ok(d) => Ok(format_document(&d)),
        Err(e) => Err(e),
    }
}

/// One input determines one output: the text owed for an input is a
/// function of that input alone, so running the pipeline twice over the
/// same text yields byte-identical results.
pub proof fn lemma_process_deterministic(t1: Seq<char>, t2: Seq<char>)
    requires
        t1 == t2,
    ensures
        spec_process(t1) == spec_process(t2),
{
}

} // verus!
