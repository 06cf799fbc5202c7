use vstd::prelude::*;

verus! {

// The structured codecs: a JSON codec between body bytes and a flat object of
// string fields, and an XML reader for a document's root text.  The byte
// formats themselves are serde_json's and serde-xml-rs's work; the library
// states what those crates return and keeps the surrounding logic verified.
/// The map denoted by a list of string fields; a repeated key keeps its last
/// value, as inserting the pairs in order would.
pub open spec fn pairs_map(s: Seq<(String, String)>) -> Map<Seq<char>, Seq<char>>
    decreases s.len(),
{
    if s.len() == 0 {
        Map::empty()
    } else {
        pairs_map(s.drop_last()).insert(s.last().0@, s.last().1@)
    }
}

/// The bytes serde_json serializes a string-keyed object to.  They are a
/// function of the object's entries alone.
pub uninterp spec fn json_bytes_of(m: Map<Seq<char>, Seq<char>>) -> Seq<u8>;

/// The string-keyed object serde_json parses a byte sequence into, absent
/// when the bytes are not such an object.  A function of the bytes alone.
pub uninterp spec fn json_object_of(b: Seq<u8>) -> Option<Map<Seq<char>, Seq<char>>>;

/// Relies on `serde_json::to_vec` on a map with string keys: serialization of
/// such a map always succeeds, and its bytes depend only on the map's entries
/// (later duplicates replace earlier ones when the map is built).
#[verifier::external_body]
pub(crate) fn json_encode_map(fields: &Vec<(String, String)>) -> (r: Vec<u8>)
    ensures
        r@ == json_bytes_of(pairs_map(fields@)),
{
    let m: std::collections::BTreeMap<&str, &str> = fields.iter().map(
        |p| (p.0.as_str(), p.1.as_str()),
    ).collect();
    serde_json::to_vec(&m).expect("maps with string keys always serialize")
}

/// Relies on `serde_json::from_slice` for a map with string keys: parsing is
/// a function of the bytes alone, never a fault, and parsing the bytes that
/// `serde_json::to_vec` produced for a string-keyed map yields exactly that
/// map's entries.
#[verifier::external_body]
pub(crate) fn json_decode_map(b: &[u8]) -> (r: Option<Vec<(String, String)>>)
    ensures
        r is Some <==> json_object_of(b@) is Some,
        r matches Some(p) ==> Some(pairs_map(p@)) == json_object_of(b@),
        r is None ==> forall|s: Seq<(String, String)>|
            b@ != #[trigger] json_bytes_of(pairs_map(s)),
        r matches Some(p) ==> forall|s: Seq<(String, String)>|
            b@ == #[trigger] json_bytes_of(pairs_map(s)) ==> pairs_map(p@) == pairs_map(s),
{
    match serde_json::from_slice::<std::collections::BTreeMap<String, String>>(b) {
        Ok(m) => Some(m.into_iter().collect()),
        Err(_) => None,
    }
}

/// The text held by the root element of an XML document, as serde-xml-rs
/// reads it, absent when the bytes are not such a document.  A function of
/// the bytes alone.
pub uninterp spec fn xml_text_of(b: Seq<u8>) -> Option<Seq<char>>;

/// Relies on `serde_xml_rs::from_reader` deserializing a `String`: it yields
/// the root element's text content, a function of the bytes alone, and an
/// error — never a fault — on bytes that are not such a document.
#[verifier::external_body]
pub(crate) fn xml_decode_text(b: &[u8]) -> (r: Option<String>)
    ensures
        r is Some <==> xml_text_of(b@) is Some,
        r matches Some(s) ==> Some(s@) == xml_text_of(b@),
{
    serde_xml_rs::from_reader::<String, _>(b).ok()
}

} // verus!
