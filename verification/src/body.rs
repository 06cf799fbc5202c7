use crate::codec;
use crate::structured;
use vstd::prelude::*;
use vstd::utf8::decode_utf8;
use vstd::utf8::encode_utf8;
use vstd::utf8::valid_utf8;

verus! {

/// A shared, immutable body payload: a reference-counted block of bytes.
///
/// Every holder of a `BoxBody` (or of a `share` of one) sees a fixed byte
/// sequence.  Replacement never edits in place: `close` installs a freshly
/// allocated block, so a reader holding an earlier share keeps observing the
/// full prior bytes, never a mixture of old and new.
pub struct BoxBody {
    inner: std::sync::Arc<Vec<u8>>,
}

impl View for BoxBody {
    type V = Seq<u8>;

    closed spec fn view(&self) -> Seq<u8> {
        self.inner@
    }
}

impl BoxBody {
    /// Constructs a new body owning a private copy of the given bytes.
    pub fn new(inner: Vec<u8>) -> (r: BoxBody)
        ensures
            r@ == inner@,
    {
        BoxBody { inner: std::sync::Arc::new(inner) }
    }

    /// Borrows the current bytes of this body.  Never blocks, never fails.
    pub fn raw_bytes(&self) -> (r: &[u8])
        ensures
            r@ == self@,
    {
        self.inner.as_slice()
    }

    /// Takes a new reference to the current block of bytes.  The share keeps
    /// observing exactly these bytes even if the original is later `close`d.
    pub fn share(&self) -> (r: BoxBody)
        ensures
            r@ == self@,
    {
        BoxBody { inner: self.inner.clone() }
    }

    /// Replaces the whole body by the given bytes in one atomic swap of the
    /// internal block.  Always succeeds for raw bytes.
    pub fn close(&mut self, body: Vec<u8>) -> (r: Option<()>)
        ensures
            r is Some,
            final (self)@ == body@,
    {
        self.inner = std::sync::Arc::new(body);
        Some(())
    }

    /// Attempts to open this body under the text codec.  Succeeds exactly
    /// when the bytes are valid UTF-8; a mismatch is an absent result, never
    /// a fault.
    pub fn open(&self) -> (r: Option<String>)
        ensures
            r matches Some(s) ==> valid_utf8(self@) && s@ == decode_utf8(self@),
            r is None ==> !valid_utf8(self@),
    {
        codec::decode_text(self.raw_bytes())
    }

    /// Opens this body as text assuming the bytes are valid.  The caller must
    /// hold outside proof of validity: the assumption is a precondition, so a
    /// chain that breaks it is rejected at verification time instead of
    /// faulting at run time.
    pub fn open_unchecked(&self) -> (r: String)
        requires
            valid_utf8(self@),
        ensures
            r@ == decode_utf8(self@),
    {
        match codec::decode_text(self.raw_bytes()) {
            Some(s) => s,
            None => vstd::pervasive::unreached(),
        }
    }

    /// Replaces the body by the encoding of the given text, atomically.
    /// Encoding text is total, so this always succeeds.
    pub fn close_text(&mut self, body: &str) -> (r: Option<()>)
        ensures
            r is Some,
            final (self)@ == encode_utf8(body@),
    {
        let bytes = codec::encode_text(body);
        self.close(bytes)
    }

    /// Attempts to open this body under the strict decimal codec.  Succeeds
    /// exactly when the bytes are a canonical decimal number.
    pub fn open_u64(&self) -> (r: Option<u64>)
        ensures
            r matches Some(n) ==> codec::valid_dec_u64(self@) && n as nat == codec::dec_value(
                self@,
            ),
            r is None ==> !codec::valid_dec_u64(self@),
    {
        codec::decode_u64(self.raw_bytes())
    }

    /// Replaces the body by the canonical decimal encoding of the given
    /// number, atomically.  Encoding a number is total, so this always
    /// succeeds.
    pub fn close_u64(&mut self, n: u64) -> (r: Option<()>)
        ensures
            r is Some,
            codec::valid_dec_u64(final (self)@),
            codec::dec_value(final (self)@) == n as nat,
    {
        let bytes = codec::encode_u64(n);
        self.close(bytes)
    }

    /// Attempts to open this body as a JSON object of string fields.
    /// Succeeds exactly when serde_json parses the bytes as such an object,
    /// and then returns its fields; in particular, a body that `close_json`
    /// wrote opens to the fields it was written from.
    pub fn open_json(&self) -> (r: Option<Vec<(String, String)>>)
        ensures
            r is Some <==> structured::json_object_of(self@) is Some,
            r matches Some(p) ==> Some(structured::pairs_map(p@)) == structured::json_object_of(
                self@,
            ),
            r is None ==> forall|s: Seq<(String, String)>|
                self@ != #[trigger] structured::json_bytes_of(structured::pairs_map(s)),
            r matches Some(p) ==> forall|s: Seq<(String, String)>|
                self@ == #[trigger] structured::json_bytes_of(structured::pairs_map(s))
                    ==> structured::pairs_map(p@) == structured::pairs_map(s),
    {
        structured::json_decode_map(self.raw_bytes())
    }

    /// Replaces the body by the JSON serialization of the given string
    /// fields, atomically.  Serializing a string-keyed object is total, so
    /// this always succeeds.
    pub fn close_json(&mut self, fields: &Vec<(String, String)>) -> (r: Option<()>)
        ensures
            r is Some,
            final (self)@ == structured::json_bytes_of(structured::pairs_map(fields@)),
    {
        let bytes = structured::json_encode_map(fields);
        self.close(bytes)
    }

    /// Attempts to open this body as an XML document, yielding the text of
    /// its root element.  Succeeds exactly when serde-xml-rs reads the bytes
    /// as such a document.
    pub fn open_xml(&self) -> (r: Option<String>)
        ensures
            r is Some <==> structured::xml_text_of(self@) is Some,
            r matches Some(s) ==> Some(s@) == structured::xml_text_of(self@),
    {
        structured::xml_decode_text(self.raw_bytes())
    }
}

} // verus!


