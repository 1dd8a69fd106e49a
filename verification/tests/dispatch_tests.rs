use multiparse::FormatKind;
use multiparse::Record;
use multiparse::Registry;
use multiparse::parse;

use std::collections::BTreeMap;

fn registry_of(kinds: &[FormatKind]) -> Registry {
    let mut r = Registry::new();
    for &k in kinds {
        r.register(k);
    }
    r
}

fn sample_map() -> BTreeMap<String, i64> {
    let mut m = BTreeMap::new();
    m.insert("x".to_string(), 1);
    m
}

#[test]
fn scenario_json_first() {
    let registry = registry_of(&[FormatKind::Json, FormatKind::Yaml, FormatKind::Toml]);
    let rec = parse(&registry, b"{\"x\":1}").unwrap();
    assert_eq!(rec.get("x"), Some(1));
}

#[test]
fn scenario_toml_fallback() {
    // JSON alone rejects the buffer; with TOML behind it the
    // dispatch falls through to the TOML decoding.
    let json_only = registry_of(&[FormatKind::Json]);
    assert!(parse(&json_only, b"x = 1").is_err());
    let registry = registry_of(&[FormatKind::Json, FormatKind::Toml]);
    let rec = parse(&registry, b"x = 1").unwrap();
    assert_eq!(rec.get("x"), Some(1));
}

#[test]
fn scenario_invalid_json() {
    let registry = registry_of(&[FormatKind::Json]);
    let err = parse(&registry, b"not valid json").unwrap_err();
    let text = err.render();
    assert!(text.starts_with("as JSON: "));
    assert!(!text.contains('\n'));
    assert!(text.len() > "as JSON: ".len());
}

#[test]
fn scenario_empty_buffer() {
    // Under this library's target shape an empty document is a valid
    // YAML record with no fields, so YAML accepts the empty buffer
    // and any field a caller needs is simply absent.
    let registry = registry_of(&[FormatKind::Json, FormatKind::Yaml]);
    let rec = parse(&registry, b"").unwrap();
    assert_eq!(rec.fields.len(), 0);
    assert_eq!(rec.get("x"), None);
}

#[test]
fn scenario_empty_buffer_rejections_reported() {
    // Formats that do reject an empty buffer each contribute their
    // own line, in registry order.
    let registry = registry_of(&[FormatKind::Json, FormatKind::Bson]);
    let text = parse(&registry, b"").unwrap_err().render();
    let lines: Vec<&str> = text.split('\n').collect();
    assert_eq!(lines.len(), 2);
    assert!(lines[0].starts_with("as JSON: "));
    assert!(lines[1].starts_with("as BSON: "));
}

#[test]
fn empty_registry_always_fails() {
    let registry = Registry::new();
    let err = parse(&registry, b"{\"x\":1}").unwrap_err();
    assert_eq!(err.attempts.len(), 0);
    assert_eq!(err.render(), "");
}

#[test]
fn determinism_success() {
    let registry = registry_of(&[FormatKind::Json, FormatKind::Yaml]);
    let first = parse(&registry, b"{\"x\":1}").unwrap();
    let second = parse(&registry, b"{\"x\":1}").unwrap();
    assert_eq!(first.fields, second.fields);
}

#[test]
fn determinism_failure() {
    let registry = registry_of(&[FormatKind::Json, FormatKind::Toml]);
    let first = parse(&registry, b"not valid anywhere {{{").unwrap_err();
    let second = parse(&registry, b"not valid anywhere {{{").unwrap_err();
    assert_eq!(first.render(), second.render());
}

#[test]
fn first_match_precedence_yaml_before_json() {
    // The buffer is valid under both YAML and JSON; the first
    // registered format wins either way round.
    let registry = registry_of(&[FormatKind::Yaml, FormatKind::Json]);
    let rec = parse(&registry, b"{\"x\":1}").unwrap();
    assert_eq!(rec.get("x"), Some(1));
    let registry = registry_of(&[FormatKind::Json, FormatKind::Yaml]);
    let rec = parse(&registry, b"{\"x\":1}").unwrap();
    assert_eq!(rec.get("x"), Some(1));
}

#[test]
fn failure_lines_follow_registry_order() {
    let buf = b"not valid anywhere {{{";
    let registry = registry_of(&[FormatKind::Json, FormatKind::Toml]);
    let text = parse(&registry, buf).unwrap_err().render();
    let lines: Vec<&str> = text.split('\n').collect();
    assert_eq!(lines.len(), 2);
    assert!(lines[0].starts_with("as JSON: "));
    assert!(lines[1].starts_with("as TOML: "));

    let registry = registry_of(&[FormatKind::Toml, FormatKind::Json]);
    let text = parse(&registry, buf).unwrap_err().render();
    let lines: Vec<&str> = text.split('\n').collect();
    assert_eq!(lines.len(), 2);
    assert!(lines[0].starts_with("as TOML: "));
    assert!(lines[1].starts_with("as JSON: "));
}

#[test]
fn round_trip_json() {
    let mut m = BTreeMap::new();
    m.insert("x".to_string(), 1i64);
    m.insert("y".to_string(), -2i64);
    let buf = serde_json::to_vec(&m).unwrap();
    let registry = registry_of(&[FormatKind::Json]);
    let rec = parse(&registry, &buf).unwrap();
    assert_eq!(rec.fields, vec![("x".to_string(), 1), ("y".to_string(), -2)]);
}

#[test]
fn round_trip_postcard() {
    let buf = postcard::to_allocvec(&sample_map()).unwrap();
    let rec = parse(&registry_of(&[FormatKind::Postcard]), &buf).unwrap();
    assert_eq!(rec.fields, vec![("x".to_string(), 1)]);
}

#[test]
fn round_trip_cbor() {
    let mut buf: Vec<u8> = Vec::new();
    ciborium::ser::into_writer(&sample_map(), &mut buf).unwrap();
    let rec = parse(&registry_of(&[FormatKind::Cbor]), &buf).unwrap();
    assert_eq!(rec.fields, vec![("x".to_string(), 1)]);
}

#[test]
fn round_trip_yaml() {
    let buf = serde_yaml::to_string(&sample_map()).unwrap().into_bytes();
    let rec = parse(&registry_of(&[FormatKind::Yaml]), &buf).unwrap();
    assert_eq!(rec.fields, vec![("x".to_string(), 1)]);
}

#[test]
fn round_trip_msgpack() {
    let buf = rmp_serde::to_vec(&sample_map()).unwrap();
    let rec = parse(&registry_of(&[FormatKind::MessagePack]), &buf).unwrap();
    assert_eq!(rec.fields, vec![("x".to_string(), 1)]);
}

#[test]
fn round_trip_toml() {
    let buf = toml::to_string(&sample_map()).unwrap().into_bytes();
    let rec = parse(&registry_of(&[FormatKind::Toml]), &buf).unwrap();
    assert_eq!(rec.fields, vec![("x".to_string(), 1)]);
}

#[test]
fn round_trip_ron() {
    let buf = ron::ser::to_string(&sample_map()).unwrap().into_bytes();
    let rec = parse(&registry_of(&[FormatKind::Ron]), &buf).unwrap();
    assert_eq!(rec.fields, vec![("x".to_string(), 1)]);
}

#[test]
fn round_trip_bson() {
    let buf = bson::to_vec(&sample_map()).unwrap();
    let rec = parse(&registry_of(&[FormatKind::Bson]), &buf).unwrap();
    assert_eq!(rec.fields, vec![("x".to_string(), 1)]);
}

#[test]
fn round_trip_url() {
    let buf = serde_qs::to_string(&sample_map()).unwrap().into_bytes();
    let rec = parse(&registry_of(&[FormatKind::UrlEncoded]), &buf).unwrap();
    assert_eq!(rec.fields, vec![("x".to_string(), 1)]);
}

#[test]
fn all_formats_registry() {
    let registry = Registry::with_all_formats();
    assert_eq!(registry.len(), 9);
    let rec = parse(&registry, b"{\"x\":1}").unwrap();
    assert_eq!(rec.get("x"), Some(1));
}

#[test]
fn all_formats_failure_lists_every_name() {
    let registry = Registry::with_all_formats();
    let err = parse(&registry, b"\xff\xfe\xfd garbage \xff").unwrap_err();
    assert_eq!(err.attempts.len(), 9);
    let text = err.render();
    let lines: Vec<&str> = text.split('\n').collect();
    assert_eq!(lines.len(), 9);
    let names = [
        "JSON",
        "Postcard",
        "CBOR",
        "YAML",
        "MessagePack",
        "TOML",
        "RON",
        "BSON",
        "URL",
    ];
    for (line, name) in lines.iter().zip(names.iter()) {
        assert!(line.starts_with(&format!("as {name}: ")));
    }
}

#[test]
fn record_get_missing_field() {
    let registry = registry_of(&[FormatKind::Json]);
    let rec = parse(&registry, b"{\"x\":1}").unwrap();
    assert_eq!(rec.get("y"), None);
}

#[test]
fn record_get_first_of_repeated_name() {
    let rec = Record {
        fields: vec![("x".to_string(), 1), ("x".to_string(), 2), ("y".to_string(), 3)],
    };
    assert_eq!(rec.get("x"), Some(1));
    assert_eq!(rec.get("y"), Some(3));
}

#[test]
fn record_new_is_empty() {
    let rec = Record::new();
    assert_eq!(rec.fields.len(), 0);
    assert_eq!(rec.get("x"), None);
}

#[test]
fn format_names() {
    assert_eq!(FormatKind::Json.name(), "JSON");
    assert_eq!(FormatKind::UrlEncoded.name(), "URL");
    assert_eq!(FormatKind::MessagePack.name(), "MessagePack");
}

#[test]
fn decode_single_format_directly() {
    let r = FormatKind::Json.decode(b"{\"x\":7}").unwrap();
    assert_eq!(r.get("x"), Some(7));
    assert!(FormatKind::Json.decode(b"x = 1").is_err());
}

#[test]
fn toml_nesting_limit_rejected() {
    // A buffer whose structural bytes pass the TOML nesting limit is
    // rejected as TOML outright, with its own failure detail, instead
    // of being handed to the recursive parser.
    let mut buf: Vec<u8> = b"x = ".to_vec();
    buf.extend(std::iter::repeat(b'[').take(50_000));
    let registry = registry_of(&[FormatKind::Toml]);
    let text = parse(&registry, &buf).unwrap_err().render();
    assert_eq!(text, "as TOML: nesting depth above the accepted limit");
}

#[test]
fn toml_nesting_within_limit_decodes() {
    let registry = registry_of(&[FormatKind::Toml]);
    let rec = parse(&registry, b"x = 1").unwrap();
    assert_eq!(rec.get("x"), Some(1));
}

#[test]
fn sanitize_detail_replaces_newlines() {
    assert_eq!(multiparse::error::sanitize_detail("a\nb\n"), "a b ");
    assert_eq!(multiparse::error::sanitize_detail(""), "");
    assert_eq!(multiparse::error::sanitize_detail("plain"), "plain");
}
