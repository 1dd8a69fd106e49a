//! The candidate serialization formats: for each one, a name used in
//! diagnostics and a decode operation from bytes to a [`Record`].
//!
//! Each decode operation is pure: its outcome depends on the byte
//! buffer alone, so every outcome is given a name by an
//! uninterpreted spec function, and the trusted wrapper around the
//! outside call promises exactly that name's value.

use vstd::prelude::*;
use vstd::string::StringExecFns;
use crate::record::Record;

verus! {

/// A decode strategy the dispatch engine may try. Formats are
/// stateless: a `FormatKind` value carries no data beyond its
/// identity.
#[derive(Clone, Copy, Debug, PartialEq, Eq, Structural)]
pub enum FormatKind {
    Json,
    Postcard,
    Cbor,
    Yaml,
    MessagePack,
    Toml,
    Ron,
    Bson,
    UrlEncoded,
}

/// The human-readable name of a format, used only for diagnostics.
pub open spec fn kind_name(kind: FormatKind) -> Seq<char> {
    match kind {
        FormatKind::Json => "JSON"@,
        FormatKind::Postcard => "Postcard"@,
        FormatKind::Cbor => "CBOR"@,
        FormatKind::Yaml => "YAML"@,
        FormatKind::MessagePack => "MessagePack"@,
        FormatKind::Toml => "TOML"@,
        FormatKind::Ron => "RON"@,
        FormatKind::Bson => "BSON"@,
        FormatKind::UrlEncoded => "URL"@,
    }
}

impl FormatKind {
    /// The format's diagnostic name.
    pub fn name(self) -> (r: &'static str)
        ensures
            r@ == kind_name(self),
    {
        match self {
            FormatKind::Json => "JSON",
            FormatKind::Postcard => "Postcard",
            FormatKind::Cbor => "CBOR",
            FormatKind::Yaml => "YAML",
            FormatKind::MessagePack => "MessagePack",
            FormatKind::Toml => "TOML",
            FormatKind::Ron => "RON",
            FormatKind::Bson => "BSON",
            FormatKind::UrlEncoded => "URL",
        }
    }
}

/// A decode outcome at the specification level: the decoded fields,
/// or the failure detail for the diagnostic line.
pub open spec fn decode_view(r: Result<Record, String>) -> Result<
    Seq<(Seq<char>, i64)>,
    Seq<char>,
> {
    match r {
        Ok(rec) => Ok(rec@),
        Err(e) => Err(e@),
    }
}

pub uninterp spec fn json_decoding(buf: Seq<u8>) -> Result<Seq<(Seq<char>, i64)>, Seq<char>>;

pub uninterp spec fn postcard_decoding(buf: Seq<u8>) -> Result<Seq<(Seq<char>, i64)>, Seq<char>>;

pub uninterp spec fn cbor_decoding(buf: Seq<u8>) -> Result<Seq<(Seq<char>, i64)>, Seq<char>>;

pub uninterp spec fn yaml_decoding(buf: Seq<u8>) -> Result<Seq<(Seq<char>, i64)>, Seq<char>>;

pub uninterp spec fn msgpack_decoding(buf: Seq<u8>) -> Result<Seq<(Seq<char>, i64)>, Seq<char>>;

pub uninterp spec fn toml_decoding(buf: Seq<u8>) -> Result<Seq<(Seq<char>, i64)>, Seq<char>>;

pub uninterp spec fn ron_decoding(buf: Seq<u8>) -> Result<Seq<(Seq<char>, i64)>, Seq<char>>;

pub uninterp spec fn bson_decoding(buf: Seq<u8>) -> Result<Seq<(Seq<char>, i64)>, Seq<char>>;

pub uninterp spec fn url_decoding(buf: Seq<u8>) -> Result<Seq<(Seq<char>, i64)>, Seq<char>>;

/// The TOML parser recurses once for every inline array or table it
/// opens and once for every dotted-key segment, so a buffer is
/// decoded as TOML only while its structural bytes stay under this
/// limit; beyond it the attempt is rejected outright.
pub const TOML_NESTING_LIMIT: usize = 1000;

pub const OPEN_SQUARE: u8 = 91;

pub const OPEN_CURLY: u8 = 123;

pub const DOT: u8 = 46;

/// How many bytes of the buffer can open a TOML nesting level: an
/// inline array or table bracket, or a dotted-key separator. The
/// parser's recursion depth is bounded by this count.
pub open spec fn toml_nesting_bytes(buf: Seq<u8>) -> nat
    decreases buf.len(),
{
    if buf.len() == 0 {
        0
    } else {
        (if buf[0] == OPEN_SQUARE || buf[0] == OPEN_CURLY || buf[0] == DOT {
            1nat
        } else {
            0nat
        }) + toml_nesting_bytes(buf.drop_first())
    }
}

proof fn lemma_toml_nesting_bytes_push(buf: Seq<u8>, byte: u8)
    ensures
        toml_nesting_bytes(buf.push(byte)) == toml_nesting_bytes(buf) + (
        if byte == OPEN_SQUARE || byte == OPEN_CURLY || byte == DOT {
            1nat
        } else {
            0nat
        }),
    decreases buf.len(),
{
    if buf.len() == 0 {
        assert(buf.push(byte).drop_first() =~= Seq::<u8>::empty());
        assert(toml_nesting_bytes(Seq::<u8>::empty()) == 0);
    } else {
        assert(buf.push(byte)[0] == buf[0]);
        assert(buf.push(byte).drop_first() =~= buf.drop_first().push(byte));
        lemma_toml_nesting_bytes_push(buf.drop_first(), byte);
    }
}

/// Counts the buffer's TOML structural bytes.
fn count_toml_nesting_bytes(buf: &[u8]) -> (r: usize)
    ensures
        r == toml_nesting_bytes(buf@),
{
    let n = buf.len();
    let mut count: usize = 0;
    let mut i: usize = 0;
    proof {
        assert(buf@.take(0) =~= Seq::<u8>::empty());
    }
    while i < n
        invariant
            n == buf@.len(),
            0 <= i <= n,
            count <= i,
            count == toml_nesting_bytes(buf@.take(i as int)),
        decreases n - i,
    {
        let byte = buf[i];
        proof {
            assert(buf@.take(i as int + 1) =~= buf@.take(i as int).push(buf@[i as int]));
            lemma_toml_nesting_bytes_push(buf@.take(i as int), buf@[i as int]);
        }
        if byte == OPEN_SQUARE || byte == OPEN_CURLY || byte == DOT {
            count += 1;
        }
        i += 1;
    }
    proof {
        assert(buf@.take(n as int) =~= buf@);
    }
    count
}

/// The failure detail reported when a buffer's TOML nesting is over
/// the limit and the decode is not attempted.
pub open spec fn toml_depth_detail() -> Seq<char> {
    "nesting depth above the accepted limit"@
}

/// What decoding a buffer under a given format yields. Every format's
/// decode is a pure function of the bytes, so this is total and
/// deterministic. A buffer whose structural bytes pass the TOML
/// nesting limit is rejected as TOML without the parser running.
pub open spec fn decoding(kind: FormatKind, buf: Seq<u8>) -> Result<
    Seq<(Seq<char>, i64)>,
    Seq<char>,
> {
    match kind {
        FormatKind::Json => json_decoding(buf),
        FormatKind::Postcard => postcard_decoding(buf),
        FormatKind::Cbor => cbor_decoding(buf),
        FormatKind::Yaml => yaml_decoding(buf),
        FormatKind::MessagePack => msgpack_decoding(buf),
        FormatKind::Toml => if toml_nesting_bytes(buf) <= TOML_NESTING_LIMIT {
            toml_decoding(buf)
        } else {
            Err(toml_depth_detail())
        },
        FormatKind::Ron => ron_decoding(buf),
        FormatKind::Bson => bson_decoding(buf),
        FormatKind::UrlEncoded => url_decoding(buf),
    }
}

/// Relies on `serde_json::from_slice`: decodes a JSON document into a
/// string-to-integer map; the outcome depends on the bytes alone.
#[verifier::external_body]
fn decode_json(buf: &[u8]) -> (r: Result<Record, String>)
    ensures
        decode_view(r) == json_decoding(buf@),
{
    match serde_json::from_slice::<std::collections::BTreeMap<String, i64>>(buf) {
        Ok(m) => Ok(Record { fields: m.into_iter().collect() }),
        Err(e) => Err(e.to_string()),
    }
}

/// Relies on `postcard::from_bytes`: decodes postcard wire bytes into
/// a string-to-integer map; the outcome depends on the bytes alone.
#[verifier::external_body]
fn decode_postcard(buf: &[u8]) -> (r: Result<Record, String>)
    ensures
        decode_view(r) == postcard_decoding(buf@),
{
    match postcard::from_bytes::<std::collections::BTreeMap<String, i64>>(buf) {
        Ok(m) => Ok(Record { fields: m.into_iter().collect() }),
        Err(e) => Err(e.to_string()),
    }
}

/// Relies on `ciborium::de::from_reader`: decodes a CBOR item into a
/// string-to-integer map; the outcome depends on the bytes alone.
#[verifier::external_body]
fn decode_cbor(buf: &[u8]) -> (r: Result<Record, String>)
    ensures
        decode_view(r) == cbor_decoding(buf@),
{
    match ciborium::de::from_reader::<std::collections::BTreeMap<String, i64>, _>(buf) {
        Ok(m) => Ok(Record { fields: m.into_iter().collect() }),
        Err(e) => Err(e.to_string()),
    }
}

/// Relies on `serde_yaml::from_slice`: decodes a YAML document into a
/// string-to-integer map; the outcome depends on the bytes alone.
#[verifier::external_body]
fn decode_yaml(buf: &[u8]) -> (r: Result<Record, String>)
    ensures
        decode_view(r) == yaml_decoding(buf@),
{
    match serde_yaml::from_slice::<std::collections::BTreeMap<String, i64>>(buf) {
        Ok(m) => Ok(Record { fields: m.into_iter().collect() }),
        Err(e) => Err(e.to_string()),
    }
}

/// Relies on `rmp_serde::from_slice`: decodes a MessagePack value
/// into a string-to-integer map; the outcome depends on the bytes
/// alone.
#[verifier::external_body]
fn decode_msgpack(buf: &[u8]) -> (r: Result<Record, String>)
    ensures
        decode_view(r) == msgpack_decoding(buf@),
{
    match rmp_serde::from_slice::<std::collections::BTreeMap<String, i64>>(buf) {
        Ok(m) => Ok(Record { fields: m.into_iter().collect() }),
        Err(e) => Err(e.to_string()),
    }
}

/// Relies on `toml::from_slice`: decodes a TOML document into a
/// string-to-integer map; the outcome depends on the bytes alone.
/// The parser recurses once per inline `[`/`{` and once per
/// dotted-key `.` with no depth limit of its own, so only buffers
/// whose count of those bytes is under the nesting limit are
/// admitted; within it the recursion stays shallow and the call
/// returns normally.
#[verifier::external_body]
fn decode_toml(buf: &[u8]) -> (r: Result<Record, String>)
    requires
        toml_nesting_bytes(buf@) <= TOML_NESTING_LIMIT,
    ensures
        decode_view(r) == toml_decoding(buf@),
{
    match toml::from_slice::<std::collections::BTreeMap<String, i64>>(buf) {
        Ok(m) => Ok(Record { fields: m.into_iter().collect() }),
        Err(e) => Err(e.to_string()),
    }
}

/// Relies on `ron::de::from_bytes`: decodes a RON document into a
/// string-to-integer map; the outcome depends on the bytes alone.
#[verifier::external_body]
fn decode_ron(buf: &[u8]) -> (r: Result<Record, String>)
    ensures
        decode_view(r) == ron_decoding(buf@),
{
    match ron::de::from_bytes::<std::collections::BTreeMap<String, i64>>(buf) {
        Ok(m) => Ok(Record { fields: m.into_iter().collect() }),
        Err(e) => Err(e.to_string()),
    }
}

/// Relies on `bson::from_slice`: decodes a BSON document into a
/// string-to-integer map; the outcome depends on the bytes alone.
#[verifier::external_body]
fn decode_bson(buf: &[u8]) -> (r: Result<Record, String>)
    ensures
        decode_view(r) == bson_decoding(buf@),
{
    match bson::from_slice::<std::collections::BTreeMap<String, i64>>(buf) {
        Ok(m) => Ok(Record { fields: m.into_iter().collect() }),
        Err(e) => Err(e.to_string()),
    }
}

/// Relies on `serde_qs::from_bytes`: decodes a URL-encoded query
/// string into a string-to-integer map; the outcome depends on the
/// bytes alone.
#[verifier::external_body]
fn decode_url(buf: &[u8]) -> (r: Result<Record, String>)
    ensures
        decode_view(r) == url_decoding(buf@),
{
    match serde_qs::from_bytes::<std::collections::BTreeMap<String, i64>>(buf) {
        Ok(m) => Ok(Record { fields: m.into_iter().collect() }),
        Err(e) => Err(e.to_string()),
    }
}

impl FormatKind {
    /// Attempts to decode the whole buffer under this format.
    pub fn decode(self, buf: &[u8]) -> (r: Result<Record, String>)
        ensures
            decode_view(r) == decoding(self, buf@),
    {
        match self {
            FormatKind::Json => decode_json(buf),
            FormatKind::Postcard => decode_postcard(buf),
            FormatKind::Cbor => decode_cbor(buf),
            FormatKind::Yaml => decode_yaml(buf),
            FormatKind::MessagePack => decode_msgpack(buf),
            FormatKind::Toml => {
                if count_toml_nesting_bytes(buf) <= TOML_NESTING_LIMIT {
                    decode_toml(buf)
                } else {
                    Err(String::from_str("nesting depth above the accepted limit"))
                }
            },
            FormatKind::Ron => decode_ron(buf),
            FormatKind::Bson => decode_bson(buf),
            FormatKind::UrlEncoded => decode_url(buf),
        }
    }
}

} // verus!
