//! The dispatch engine: tries each format of an ordered registry
//! against the buffer, returns the first successful decode, and on
//! total failure aggregates every attempt's failure reason.

use vstd::prelude::*;
use vstd::string::StringExecFns;
use crate::error::ParseError;
use crate::formats::FormatKind;
use crate::formats::decoding;
use crate::formats::kind_name;
use crate::record::Record;

verus! {

/// An ordered list of decode strategies. Order is part of the
/// contract: it is the trial precedence, and the tie-break when a
/// buffer is valid under several formats.
#[derive(Debug, Clone)]
pub struct Registry {
    pub kinds: Vec<FormatKind>,
}

impl View for Registry {
    type V = Seq<FormatKind>;

    open spec fn view(&self) -> Seq<FormatKind> {
        self.kinds@
    }
}

/// The order the default registry tries formats in.
pub open spec fn default_order() -> Seq<FormatKind> {
    seq![
        FormatKind::Json,
        FormatKind::Postcard,
        FormatKind::Cbor,
        FormatKind::Yaml,
        FormatKind::MessagePack,
        FormatKind::Toml,
        FormatKind::Ron,
        FormatKind::Bson,
        FormatKind::UrlEncoded,
    ]
}

impl Registry {
    /// An empty registry: nothing will be tried.
    pub fn new() -> (r: Registry)
        ensures
            r@ == Seq::<FormatKind>::empty(),
    {
        let r = Registry { kinds: Vec::new() };
        proof {
            assert(r@ =~= Seq::<FormatKind>::empty());
        }
        r
    }

    /// Appends a format at the end of the trial order.
    pub fn register(&mut self, kind: FormatKind)
        ensures
            final(self)@ == old(self)@.push(kind),
    {
        self.kinds.push(kind);
    }

    /// The registry with every known format, in the fixed default
    /// order.
    pub fn with_all_formats() -> (r: Registry)
        ensures
            r@ == default_order(),
    {
        let mut r = Registry::new();
        r.register(FormatKind::Json);
        r.register(FormatKind::Postcard);
        r.register(FormatKind::Cbor);
        r.register(FormatKind::Yaml);
        r.register(FormatKind::MessagePack);
        r.register(FormatKind::Toml);
        r.register(FormatKind::Ron);
        r.register(FormatKind::Bson);
        r.register(FormatKind::UrlEncoded);
        proof {
            assert(r@ =~= default_order());
        }
        r
    }

    /// How many formats the registry will try.
    pub fn len(&self) -> (r: usize)
        ensures
            r == self@.len(),
    {
        self.kinds.len()
    }
}

/// One `(format name, failure detail)` pair per format, in order:
/// the attempts seq a total failure reports, assuming each format
/// fails.
pub open spec fn attempts_of(kinds: Seq<FormatKind>, buf: Seq<u8>) -> Seq<
    (Seq<char>, Seq<char>),
> {
    kinds.map_values(|k: FormatKind| (kind_name(k), crate::error::sanitized(decoding(k, buf)->Err_0)))
}

/// Appending a format appends its attempt pair.
proof fn lemma_attempts_of_push(kinds: Seq<FormatKind>, buf: Seq<u8>, kind: FormatKind)
    ensures
        attempts_of(kinds.push(kind), buf) == attempts_of(kinds, buf).push(
            (kind_name(kind), crate::error::sanitized(decoding(kind, buf)->Err_0)),
        ),
{
    assert(attempts_of(kinds.push(kind), buf) =~= attempts_of(kinds, buf).push(
        (kind_name(kind), crate::error::sanitized(decoding(kind, buf)->Err_0)),
    ));
}

/// What `parse` returns, at the specification level: the first
/// format in order whose decode succeeds wins; when every format
/// fails, every attempt is reported, in order.
pub open spec fn parse_spec(kinds: Seq<FormatKind>, buf: Seq<u8>) -> Result<
    Seq<(Seq<char>, i64)>,
    Seq<(Seq<char>, Seq<char>)>,
>
    decreases kinds.len(),
{
    if kinds.len() == 0 {
        Err(Seq::empty())
    } else {
        match decoding(kinds[0], buf) {
            Ok(v) => Ok(v),
            Err(d) => match parse_spec(kinds.drop_first(), buf) {
                Ok(v) => Ok(v),
                Err(rest) => Err(seq![(kind_name(kinds[0]), crate::error::sanitized(d))] + rest),
            },
        }
    }
}

/// A parse outcome at the specification level: the decoded fields,
/// or the aggregated attempts.
pub open spec fn parse_view(r: Result<Record, ParseError>) -> Result<
    Seq<(Seq<char>, i64)>,
    Seq<(Seq<char>, Seq<char>)>,
> {
    match r {
        Ok(rec) => Ok(rec@),
        Err(e) => Err(e@),
    }
}

/// When the formats before position `i` all fail and the format at
/// `i` succeeds, the parse outcome is that format's decoding.
pub proof fn lemma_parse_spec_first_ok(kinds: Seq<FormatKind>, buf: Seq<u8>, i: int)
    requires
        0 <= i < kinds.len(),
        forall|j: int| 0 <= j < i ==> decoding(kinds[j], buf) is Err,
        decoding(kinds[i], buf) is Ok,
    ensures
        parse_spec(kinds, buf) == Ok::<_, Seq<(Seq<char>, Seq<char>)>>(
            decoding(kinds[i], buf)->Ok_0,
        ),
    decreases i,
{
    if i == 0 {
    } else {
        let rest = kinds.drop_first();
        assert(decoding(kinds[0], buf) is Err);
        assert forall|j: int| 0 <= j < i - 1 implies decoding(rest[j], buf) is Err by {
            assert(rest[j] == kinds[j + 1]);
        }
        assert(rest[i - 1] == kinds[i]);
        lemma_parse_spec_first_ok(rest, buf, i - 1);
    }
}

/// When every format fails, the parse outcome reports every attempt,
/// in registry order.
pub proof fn lemma_parse_spec_all_err(kinds: Seq<FormatKind>, buf: Seq<u8>)
    requires
        forall|j: int| 0 <= j < kinds.len() ==> decoding(kinds[j], buf) is Err,
    ensures
        parse_spec(kinds, buf) == Err::<Seq<(Seq<char>, i64)>, _>(attempts_of(kinds, buf)),
    decreases kinds.len(),
{
    if kinds.len() == 0 {
        assert(attempts_of(kinds, buf) =~= Seq::<(Seq<char>, Seq<char>)>::empty());
    } else {
        let rest = kinds.drop_first();
        assert forall|j: int| 0 <= j < rest.len() implies decoding(rest[j], buf) is Err by {
            assert(rest[j] == kinds[j + 1]);
        }
        lemma_parse_spec_all_err(rest, buf);
        assert(attempts_of(kinds, buf) =~= seq![
            (kind_name(kinds[0]), crate::error::sanitized(decoding(kinds[0], buf)->Err_0)),
        ] + attempts_of(rest, buf));
    }
}

/// Tries every format of the registry, in order, on the whole
/// buffer. The first format that decodes the buffer wins and no
/// later format is tried; when all fail, the error aggregates every
/// attempt's `(format name, failure detail)` pair, in registry
/// order, each detail sanitized of newlines so that the rendered
/// report keeps one line per attempt.
pub fn parse(registry: &Registry, buf: &[u8]) -> (r: Result<Record, ParseError>)
    ensures
        parse_view(r) == parse_spec(registry@, buf@),
        r is Err <==> (forall|j: int|
            0 <= j < registry@.len() ==> decoding(registry@[j], buf@) is Err),
{
    let n = registry.kinds.len();
    let mut attempts: Vec<(String, String)> = Vec::new();
    let mut i: usize = 0;
    while i < n
        invariant
            n == registry.kinds.len(),
            0 <= i <= n,
            forall|j: int| 0 <= j < i ==> decoding(registry@[j], buf@) is Err,
            crate::error::attempts_view(attempts@) == attempts_of(registry@.take(i as int), buf@),
        decreases n - i,
    {
        let kind = registry.kinds[i];
        match kind.decode(buf) {
            Ok(rec) => {
                proof {
                    lemma_parse_spec_first_ok(registry@, buf@, i as int);
                    assert(decoding(registry@[i as int], buf@) is Ok);
                }
                return Ok(rec);
            },
            Err(detail) => {
                let name = String::from_str(kind.name());
                let detail = crate::error::sanitize_detail(detail.as_str());
                let ghost prev = attempts@;
                let ghost pair = (name, detail);
                attempts.push((name, detail));
                proof {
                    assert(registry@.take(i as int + 1) =~= registry@.take(i as int).push(kind));
                    crate::error::lemma_attempts_view_push(prev, pair);
                    lemma_attempts_of_push(registry@.take(i as int), buf@, kind);
                }
            },
        }
        i += 1;
    }
    proof {
        assert(registry@.take(n as int) =~= registry@);
        lemma_parse_spec_all_err(registry@, buf@);
    }
    Err(ParseError { attempts })
}

/// Law: dispatch is deterministic. For a fixed registry and a fixed
/// buffer, any two outcomes that `parse`'s contract admits are the
/// same outcome: the specification is a function of the registry and
/// the buffer alone, with no hidden source of variation.
pub proof fn lemma_parse_deterministic(
    kinds: Seq<FormatKind>,
    buf: Seq<u8>,
    r1: Result<Record, ParseError>,
    r2: Result<Record, ParseError>,
)
    requires
        parse_view(r1) == parse_spec(kinds, buf),
        parse_view(r2) == parse_spec(kinds, buf),
    ensures
        parse_view(r1) == parse_view(r2),
{
}

/// Law: first match wins. When the buffer is valid under the formats
/// at positions `i` and `j` with `i < j`, and no format before `i`
/// accepts it, the parse outcome is the decoding produced at
/// position `i`; the later success at `j` is never consulted.
pub proof fn lemma_first_match_precedence(kinds: Seq<FormatKind>, buf: Seq<u8>, i: int, j: int)
    requires
        0 <= i < j < kinds.len(),
        forall|k: int| 0 <= k < i ==> decoding(kinds[k], buf) is Err,
        decoding(kinds[i], buf) is Ok,
        decoding(kinds[j], buf) is Ok,
    ensures
        parse_spec(kinds, buf) == Ok::<_, Seq<(Seq<char>, Seq<char>)>>(
            decoding(kinds[i], buf)->Ok_0,
        ),
{
    lemma_parse_spec_first_ok(kinds, buf, i);
}

/// A failed parse means every format failed.
pub proof fn lemma_parse_err_means_all_err(kinds: Seq<FormatKind>, buf: Seq<u8>)
    requires
        parse_spec(kinds, buf) is Err,
    ensures
        forall|j: int| 0 <= j < kinds.len() ==> decoding(kinds[j], buf) is Err,
    decreases kinds.len(),
{
    if kinds.len() == 0 {
    } else {
        let rest = kinds.drop_first();
        lemma_parse_err_means_all_err(rest, buf);
        assert forall|j: int| 0 <= j < kinds.len() implies decoding(kinds[j], buf) is Err by {
            if j > 0 {
                assert(rest[j - 1] == kinds[j]);
            }
        }
    }
}

/// Law: exhaustiveness on failure. When `parse` fails, the error
/// reports exactly one attempt per registered format, in registry
/// order; the attempt at position `i` carries the name of the format
/// at registry position `i` and its specific failure detail, so each
/// rendered line reads `"as {name}: {detail}"`.
pub proof fn lemma_exhaustive_on_failure(kinds: Seq<FormatKind>, buf: Seq<u8>)
    requires
        parse_spec(kinds, buf) is Err,
    ensures
        parse_spec(kinds, buf)->Err_0.len() == kinds.len(),
        forall|i: int|
            0 <= i < kinds.len() ==> #[trigger] parse_spec(kinds, buf)->Err_0[i] == (
                kind_name(kinds[i]),
                crate::error::sanitized(decoding(kinds[i], buf)->Err_0),
            ),
        forall|i: int| 0 <= i < kinds.len() ==> decoding(kinds[i], buf) is Err,
{
    lemma_parse_err_means_all_err(kinds, buf);
    lemma_parse_spec_all_err(kinds, buf);
}

/// Every format's diagnostic name is free of newlines, so a name
/// never spills a report line.
pub proof fn lemma_kind_name_newline_free(kind: FormatKind)
    ensures
        crate::error::newline_free(kind_name(kind)),
{
    reveal_strlit("JSON");
    reveal_strlit("Postcard");
    reveal_strlit("CBOR");
    reveal_strlit("YAML");
    reveal_strlit("MessagePack");
    reveal_strlit("TOML");
    reveal_strlit("RON");
    reveal_strlit("BSON");
    reveal_strlit("URL");
}

/// Law: exhaustiveness of the rendered report. When `parse` fails,
/// splitting the rendered text at newlines yields exactly one line
/// per registered format, in registry order, the line at position
/// `i` reading `"as {name of the format at i}: {its failure
/// detail}"` (the detail sanitized of newlines).
pub proof fn lemma_failure_report_lines(kinds: Seq<FormatKind>, buf: Seq<u8>)
    requires
        parse_spec(kinds, buf) is Err,
        kinds.len() > 0,
    ensures
        crate::error::split_lines(crate::error::rendered(parse_spec(kinds, buf)->Err_0)).len()
            == kinds.len(),
        forall|i: int|
            0 <= i < kinds.len() ==> #[trigger] crate::error::split_lines(
                crate::error::rendered(parse_spec(kinds, buf)->Err_0),
            )[i] == crate::error::line_of(
                (kind_name(kinds[i]), crate::error::sanitized(decoding(kinds[i], buf)->Err_0)),
            ),
{
    lemma_exhaustive_on_failure(kinds, buf);
    let attempts = parse_spec(kinds, buf)->Err_0;
    assert forall|i: int|
        0 <= i < attempts.len() implies crate::error::newline_free(#[trigger] attempts[i].0)
        && crate::error::newline_free(attempts[i].1) by {
        lemma_kind_name_newline_free(kinds[i]);
        crate::error::lemma_sanitized_newline_free(decoding(kinds[i], buf)->Err_0);
    }
    crate::error::lemma_rendered_splits_into_lines(attempts);
}

/// Law: a one-format registry that rejects the buffer fails with a
/// report of exactly that rejection, whose whole rendered text is
/// the single line `"as {name}: {detail}"`.
pub proof fn lemma_single_format_failure(kind: FormatKind, buf: Seq<u8>)
    requires
        decoding(kind, buf) is Err,
    ensures
        parse_spec(seq![kind], buf) is Err,
        parse_spec(seq![kind], buf)->Err_0 == seq![
            (kind_name(kind), crate::error::sanitized(decoding(kind, buf)->Err_0)),
        ],
        crate::error::rendered(parse_spec(seq![kind], buf)->Err_0) == crate::error::line_of(
            (kind_name(kind), crate::error::sanitized(decoding(kind, buf)->Err_0)),
        ),
{
    let kinds = seq![kind];
    let pair = (kind_name(kind), crate::error::sanitized(decoding(kind, buf)->Err_0));
    lemma_parse_spec_all_err(kinds, buf);
    assert(attempts_of(kinds, buf) =~= seq![pair]);
    assert(seq![pair].drop_first() =~= Seq::<(Seq<char>, Seq<char>)>::empty());
    assert(crate::error::rendered(seq![pair]) =~= crate::error::line_of(pair));
}

/// Law: a two-format registry where both formats reject the buffer
/// fails with a report of both rejections, rendered as the first
/// format's line, a newline, then the second's: both decoders were
/// attempted on the unmodified buffer, in registry order.
pub proof fn lemma_two_format_failure(first: FormatKind, second: FormatKind, buf: Seq<u8>)
    requires
        decoding(first, buf) is Err,
        decoding(second, buf) is Err,
    ensures
        parse_spec(seq![first, second], buf) is Err,
        parse_spec(seq![first, second], buf)->Err_0 == seq![
            (kind_name(first), crate::error::sanitized(decoding(first, buf)->Err_0)),
            (kind_name(second), crate::error::sanitized(decoding(second, buf)->Err_0)),
        ],
        crate::error::rendered(parse_spec(seq![first, second], buf)->Err_0)
            == crate::error::line_of(
            (kind_name(first), crate::error::sanitized(decoding(first, buf)->Err_0)),
        ) + "\n"@ + crate::error::line_of(
            (kind_name(second), crate::error::sanitized(decoding(second, buf)->Err_0)),
        ),
{
    let kinds = seq![first, second];
    let pair1 = (kind_name(first), crate::error::sanitized(decoding(first, buf)->Err_0));
    let pair2 = (kind_name(second), crate::error::sanitized(decoding(second, buf)->Err_0));
    lemma_parse_spec_all_err(kinds, buf);
    assert(attempts_of(kinds, buf) =~= seq![pair1, pair2]);
    assert(seq![pair1, pair2].drop_first() =~= seq![pair2]);
    assert(seq![pair2].drop_first() =~= Seq::<(Seq<char>, Seq<char>)>::empty());
    assert(crate::error::rendered_tail(Seq::<(Seq<char>, Seq<char>)>::empty()) == Seq::<
        char,
    >::empty());
    assert(crate::error::rendered_tail(seq![pair2]) =~= "\n"@ + crate::error::line_of(pair2));
    assert(crate::error::rendered(seq![pair1, pair2]) =~= crate::error::line_of(pair1) + "\n"@
        + crate::error::line_of(pair2));
}

/// Law: an empty registry always fails, and the failure's rendered
/// body is empty.
pub proof fn lemma_empty_registry(buf: Seq<u8>)
    ensures
        parse_spec(Seq::<FormatKind>::empty(), buf) is Err,
        parse_spec(Seq::<FormatKind>::empty(), buf)->Err_0 == Seq::<(
            Seq<char>,
            Seq<char>,
        )>::empty(),
        crate::error::rendered(parse_spec(Seq::<FormatKind>::empty(), buf)->Err_0) == Seq::<
            char,
        >::empty(),
{
}

} // verus!

