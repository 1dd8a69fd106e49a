//! The aggregated failure report: one `(format name, failure detail)`
//! pair per attempted format, in registry order, rendered as one
//! `"as {name}: {detail}"` line per attempt.

use vstd::prelude::*;
use vstd::string::StrSliceExecFns;
use vstd::string::StringExecFns;

verus! {

/// The error `parse` returns when every registered format rejected
/// the buffer: every attempt's format name paired with its specific
/// failure detail, in registry order.
#[derive(Debug, Clone)]
pub struct ParseError {
    pub attempts: Vec<(String, String)>,
}

/// The attempts as pairs of character sequences.
pub open spec fn attempts_view(attempts: Seq<(String, String)>) -> Seq<(Seq<char>, Seq<char>)> {
    attempts.map_values(|p: (String, String)| (p.0@, p.1@))
}

/// Appending an attempt appends its view.
pub proof fn lemma_attempts_view_push(attempts: Seq<(String, String)>, attempt: (String, String))
    ensures
        attempts_view(attempts.push(attempt)) == attempts_view(attempts).push(
            (attempt.0@, attempt.1@),
        ),
{
    assert(attempts_view(attempts.push(attempt)) =~= attempts_view(attempts).push(
        (attempt.0@, attempt.1@),
    ));
}

impl View for ParseError {
    type V = Seq<(Seq<char>, Seq<char>)>;

    open spec fn view(&self) -> Seq<(Seq<char>, Seq<char>)> {
        attempts_view(self.attempts@)
    }
}

/// The diagnostic line for one attempt: `"as {name}: {detail}"`.
pub open spec fn line_of(attempt: (Seq<char>, Seq<char>)) -> Seq<char> {
    "as "@ + attempt.0 + ": "@ + attempt.1
}

/// The lines after the first, each preceded by a newline.
pub open spec fn rendered_tail(attempts: Seq<(Seq<char>, Seq<char>)>) -> Seq<char>
    decreases attempts.len(),
{
    if attempts.len() == 0 {
        Seq::empty()
    } else {
        "\n"@ + line_of(attempts[0]) + rendered_tail(attempts.drop_first())
    }
}

/// The full report text: the attempts' diagnostic lines joined by
/// newlines; empty when there was no attempt.
pub open spec fn rendered(attempts: Seq<(Seq<char>, Seq<char>)>) -> Seq<char> {
    if attempts.len() == 0 {
        Seq::empty()
    } else {
        line_of(attempts[0]) + rendered_tail(attempts.drop_first())
    }
}

proof fn lemma_rendered_tail_push(
    attempts: Seq<(Seq<char>, Seq<char>)>,
    attempt: (Seq<char>, Seq<char>),
)
    ensures
        rendered_tail(attempts.push(attempt)) == rendered_tail(attempts) + "\n"@ + line_of(
            attempt,
        ),
    decreases attempts.len(),
{
    if attempts.len() == 0 {
        assert(attempts.push(attempt).drop_first() =~= Seq::<(Seq<char>, Seq<char>)>::empty());
        assert(attempts.push(attempt)[0] == attempt);
        assert(rendered_tail(attempts.push(attempt)) == "\n"@ + line_of(attempt) + rendered_tail(
            attempts.push(attempt).drop_first(),
        ));
        assert(rendered_tail(attempts.push(attempt)) =~= rendered_tail(attempts) + "\n"@ + line_of(
            attempt,
        ));
    } else {
        assert(attempts.push(attempt).drop_first() =~= attempts.drop_first().push(attempt));
        lemma_rendered_tail_push(attempts.drop_first(), attempt);
        assert(rendered_tail(attempts.push(attempt)) =~= rendered_tail(attempts) + "\n"@ + line_of(
            attempt,
        ));
    }
}

/// Appending one more attempt appends one more line, after a newline
/// unless it is the first.
proof fn lemma_rendered_push(
    attempts: Seq<(Seq<char>, Seq<char>)>,
    attempt: (Seq<char>, Seq<char>),
)
    ensures
        attempts.len() == 0 ==> rendered(attempts.push(attempt)) == line_of(attempt),
        attempts.len() > 0 ==> rendered(attempts.push(attempt)) == rendered(attempts) + "\n"@
            + line_of(attempt),
{
    if attempts.len() == 0 {
        assert(attempts.push(attempt).drop_first() =~= Seq::<(Seq<char>, Seq<char>)>::empty());
        assert(rendered(attempts.push(attempt)) =~= line_of(attempt));
    } else {
        assert(attempts.push(attempt).drop_first() =~= attempts.drop_first().push(attempt));
        lemma_rendered_tail_push(attempts.drop_first(), attempt);
        assert(rendered(attempts.push(attempt)) =~= rendered(attempts) + "\n"@ + line_of(attempt));
    }
}

/// Holds when no character of `s` is a newline.
pub open spec fn newline_free(s: Seq<char>) -> bool {
    forall|i: int| 0 <= i < s.len() ==> s[i] != '\n'
}

/// A failure detail with every newline made a space: what a report
/// records, so that one attempt can never span report lines.
pub open spec fn sanitized(s: Seq<char>) -> Seq<char> {
    s.map_values(
        |c: char|
            if c == '\n' {
                ' '
            } else {
                c
            },
    )
}

/// A sanitized text is newline-free.
pub proof fn lemma_sanitized_newline_free(s: Seq<char>)
    ensures
        newline_free(sanitized(s)),
{
    assert forall|i: int| 0 <= i < sanitized(s).len() implies sanitized(s)[i] != '\n' by {
        assert(sanitized(s)[i] == if s[i] == '\n' {
            ' '
        } else {
            s[i]
        });
    }
}

/// Relies on `String::push`: appends the given character to the end
/// of the string.
#[verifier::external_body]
fn push_char(s: &mut String, c: char)
    ensures
        final(s)@ == old(s)@.push(c),
{
    s.push(c);
}

/// Replaces every newline of the text by a space.
pub fn sanitize_detail(s: &str) -> (r: String)
    ensures
        r@ == sanitized(s@),
{
    let mut out = String::new();
    let n = s.unicode_len();
    let mut i: usize = 0;
    proof {
        assert(sanitized(s@.take(0)) =~= Seq::<char>::empty());
    }
    while i < n
        invariant
            n == s@.len(),
            0 <= i <= n,
            out@ == sanitized(s@.take(i as int)),
        decreases n - i,
    {
        let c = s.get_char(i);
        if c == '\n' {
            push_char(&mut out, ' ');
        } else {
            push_char(&mut out, c);
        }
        proof {
            assert(s@.take(i as int + 1) =~= s@.take(i as int).push(s@[i as int]));
            assert(sanitized(s@.take(i as int + 1)) =~= sanitized(s@.take(i as int)).push(
                if s@[i as int] == '\n' {
                    ' '
                } else {
                    s@[i as int]
                },
            ));
        }
        i += 1;
    }
    proof {
        assert(s@.take(n as int) =~= s@);
    }
    out
}

/// A diagnostic line for a newline-free name and detail is itself
/// newline-free.
proof fn lemma_newline_free_line_of(attempt: (Seq<char>, Seq<char>))
    requires
        newline_free(attempt.0),
        newline_free(attempt.1),
    ensures
        newline_free(line_of(attempt)),
{
    reveal_strlit("as ");
    reveal_strlit(": ");
    let line = line_of(attempt);
    assert forall|i: int| 0 <= i < line.len() implies line[i] != '\n' by {
        assert(line[i] == ("as "@ + attempt.0 + ": "@ + attempt.1)[i]);
    }
}

/// The text split at every newline: the lines of `s`, in order,
/// without their separators. Text without a newline is a single
/// line, so even empty text has one (empty) line.
pub open spec fn split_lines(s: Seq<char>) -> Seq<Seq<char>>
    decreases s.len(),
{
    if s.len() == 0 {
        seq![Seq::<char>::empty()]
    } else if s[0] == '\n' {
        seq![Seq::<char>::empty()] + split_lines(s.drop_first())
    } else {
        let rest = split_lines(s.drop_first());
        seq![seq![s[0]] + rest[0]] + rest.drop_first()
    }
}

/// Splitting never yields an empty line list.
proof fn lemma_split_lines_nonempty(s: Seq<char>)
    ensures
        split_lines(s).len() > 0,
    decreases s.len(),
{
    if s.len() > 0 {
        lemma_split_lines_nonempty(s.drop_first());
    }
}

/// A newline-free text is a single line.
proof fn lemma_split_lines_free(s: Seq<char>)
    requires
        newline_free(s),
    ensures
        split_lines(s) == seq![s],
    decreases s.len(),
{
    if s.len() == 0 {
        assert(split_lines(s) =~~= seq![s]);
    } else {
        let rest = s.drop_first();
        assert(newline_free(rest));
        assert(s[0] != '\n');
        lemma_split_lines_free(rest);
        assert(split_lines(s) == seq![seq![s[0]] + split_lines(rest)[0]] + split_lines(
            rest,
        ).drop_first());
        assert(split_lines(rest)[0] == rest);
        assert(seq![s[0]] + rest =~= s);
        assert(split_lines(rest).drop_first() =~= Seq::<Seq<char>>::empty());
        assert(split_lines(s) =~~= seq![s]);
    }
}

/// A newline after a newline-free prefix is where the first split
/// falls: the prefix is the first line, and the rest splits on its
/// own.
proof fn lemma_split_lines_at_newline(a: Seq<char>, c: Seq<char>)
    requires
        newline_free(a),
    ensures
        split_lines(a + "\n"@ + c) == seq![a] + split_lines(c),
    decreases a.len(),
{
    reveal_strlit("\n");
    if a.len() == 0 {
        assert(a + "\n"@ + c =~= "\n"@ + c);
        assert(("\n"@ + c)[0] == '\n');
        assert(("\n"@ + c).drop_first() =~= c);
        assert(split_lines(a + "\n"@ + c) =~~= seq![a] + split_lines(c));
    } else {
        let s = a + "\n"@ + c;
        assert(s[0] == a[0]);
        assert(s[0] != '\n');
        assert(s.drop_first() =~= a.drop_first() + "\n"@ + c);
        lemma_split_lines_at_newline(a.drop_first(), c);
        let rest = split_lines(s.drop_first());
        assert(rest == seq![a.drop_first()] + split_lines(c));
        lemma_split_lines_nonempty(c);
        assert(rest[0] == a.drop_first());
        assert(split_lines(s) == seq![seq![s[0]] + rest[0]] + rest.drop_first());
        assert(seq![s[0]] + rest[0] =~= a);
        assert(rest.drop_first() =~= split_lines(c));
        assert(split_lines(s) =~~= seq![a] + split_lines(c));
    }
}

/// After the first attempt, the tail is a newline and then a full
/// report of the remaining attempts.
proof fn lemma_rendered_tail_as_rendered(attempts: Seq<(Seq<char>, Seq<char>)>)
    requires
        attempts.len() > 0,
    ensures
        rendered_tail(attempts) == "\n"@ + rendered(attempts),
{
    assert(rendered_tail(attempts) =~= "\n"@ + rendered(attempts));
}

/// Law: the rendered report splits back into its lines. When every
/// name and detail is newline-free, splitting the rendered text at
/// newlines yields exactly one `"as {name}: {detail}"` line per
/// attempt, in order.
pub proof fn lemma_rendered_splits_into_lines(attempts: Seq<(Seq<char>, Seq<char>)>)
    requires
        attempts.len() > 0,
        forall|i: int|
            0 <= i < attempts.len() ==> newline_free(#[trigger] attempts[i].0) && newline_free(
                attempts[i].1,
            ),
    ensures
        split_lines(rendered(attempts)) == attempts.map_values(
            |attempt: (Seq<char>, Seq<char>)| line_of(attempt),
        ),
    decreases attempts.len(),
{
    let lines = attempts.map_values(|attempt: (Seq<char>, Seq<char>)| line_of(attempt));
    lemma_newline_free_line_of(attempts[0]);
    if attempts.len() == 1 {
        assert(rendered_tail(attempts.drop_first()) == Seq::<char>::empty());
        assert(rendered(attempts) =~= line_of(attempts[0]));
        lemma_split_lines_free(line_of(attempts[0]));
        assert(split_lines(rendered(attempts)) =~= lines);
    } else {
        let rest = attempts.drop_first();
        assert forall|i: int|
            0 <= i < rest.len() implies newline_free(#[trigger] rest[i].0) && newline_free(
            rest[i].1,
        ) by {
            assert(rest[i] == attempts[i + 1]);
        }
        lemma_rendered_tail_as_rendered(rest);
        lemma_rendered_splits_into_lines(rest);
        assert(rendered(attempts) =~= line_of(attempts[0]) + "\n"@ + rendered(rest));
        lemma_split_lines_at_newline(line_of(attempts[0]), rendered(rest));
        assert(split_lines(rendered(attempts)) =~= lines);
    }
}

impl ParseError {
    /// The report's text: one `"as {name}: {detail}"` line per
    /// attempted format, in registry order, joined by newlines.
    pub fn render(&self) -> (r: String)
        ensures
            r@ == rendered(self@),
    {
        let mut out = String::new();
        let n = self.attempts.len();
        let mut i: usize = 0;
        while i < n
            invariant
                n == self.attempts.len(),
                0 <= i <= n,
                out@ == rendered(self@.take(i as int)),
            decreases n - i,
        {
            if i > 0 {
                out.append("\n");
            }
            out.append("as ");
            out.append(self.attempts[i].0.as_str());
            out.append(": ");
            out.append(self.attempts[i].1.as_str());
            proof {
                let prefix = self@.take(i as int);
                let attempt = self@[i as int];
                assert(self@.take(i as int + 1) =~= prefix.push(attempt));
                lemma_rendered_push(prefix, attempt);
                if i == 0 {
                    assert(out@ =~= line_of(attempt));
                } else {
                    assert(out@ =~= rendered(prefix) + "\n"@ + line_of(attempt));
                }
            }
            i += 1;
        }
        proof {
            assert(self@.take(n as int) =~= self@);
        }
        out
    }
}

} // verus!
