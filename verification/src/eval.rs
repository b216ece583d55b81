//! Evaluation of `script` and `format` options.
//!
//! A template replaces each `{key}` with the text of the value at `key` in a
//! value context; `{{` and `}}` stand for literal braces. `{key:spec}` formats
//! the value at `key` by the format specification `spec`, which a
//! [`ValueFormatter`] interprets. A script is a template whose filled text is
//! then evaluated as an expression.

use vstd::prelude::*;
use evalexpr::{ContextWithMutableFunctions, EvalexprError, Function, HashMapContext, Value};
use crate::context::DataValueMap;
use crate::text::{chars_of, push_chars, string_between, string_of};
use crate::value::{DataValue, SbrdBool, SbrdInt, SbrdString, nat_text, nat_to_string, value_text};

verus! {

#[verifier::external_type_specification]
#[verifier::external_body]
pub struct ExEvalexprError(EvalexprError);

#[verifier::external_type_specification]
#[verifier::external_body]
pub struct ExEvalexprValue(Value);

#[verifier::external_type_specification]
#[verifier::external_body]
pub struct ExHashMapContext(HashMapContext);

/// Text as the specifications of formatters speak of it.
pub type FormatText = Seq<char>;

/// Formats a value by a format specification such as `{:>8}`.
///
/// Implementations decide which specifications they accept; `None` means
/// the specification does not suit the value.
pub trait ValueFormatter {
    /// The text of `value` formatted by `format`, or `None` when `format`
    /// does not suit `value`. A member for the specification alone: it is
    /// never run.
    spec fn format_spec(value: DataValue, format: FormatText) -> Option<FormatText>;

    /// The text of `value` formatted by `format`, a format string holding one
    /// replacement field, or `None` when `format` does not suit `value`.
    fn format(value: &DataValue, format: &str) -> (r: Option<String>)
        ensures
            match r {
                Some(s) => Self::format_spec(*value, format@) == Some(s@),
                None => Self::format_spec(*value, format@) is None,
            },
    ;
}

/// A piece of a template.
pub ghost enum TemplatePart {
    /// Literal text.
    Text(Seq<char>),
    /// A key to replace, with its format specification if it has one.
    Key(Seq<char>),
}

/// Whether `c` is a curly brace.
pub open spec fn is_brace(c: char) -> bool {
    c == '{' || c == '}'
}

/// The position of the first brace in `t` at or after `i`, or the length of
/// `t` when there is none.
pub open spec fn next_brace(t: Seq<char>, i: int) -> int
    decreases t.len() - i,
{
    if i >= t.len() {
        t.len() as int
    } else if is_brace(t[i]) {
        i
    } else {
        next_brace(t, i + 1)
    }
}

/// The number of bytes of `c` in UTF-8.
pub open spec fn char_bytes(c: char) -> nat {
    if (c as u32) < 0x80 {
        1
    } else if (c as u32) < 0x800 {
        2
    } else if (c as u32) < 0x10000 {
        3
    } else {
        4
    }
}

/// The number of bytes of `s` in UTF-8.
pub open spec fn text_bytes(s: Seq<char>) -> nat
    decreases s.len(),
{
    if s.len() == 0 {
        0
    } else {
        text_bytes(s.drop_last()) + char_bytes(s.last())
    }
}

/// Message for a `{` that no `}` closes; `rest` is the template from that `{`.
pub open spec fn unclosed_message(rest: Seq<char>) -> Seq<char> {
    "Unclosed template region at \""@ + rest + "\""@
}

/// Message for a lone `}` at byte index `index`.
pub open spec fn closing_message(index: nat) -> Seq<char> {
    "Unexpected closing brace at index "@ + nat_text(index)
}

/// Message for a `{` inside a replacement field, at byte index `index`.
pub open spec fn opening_message(index: nat) -> Seq<char> {
    "Unexpected curly brace within template region at index "@ + nat_text(index)
}

/// Message for a key that could not be replaced.
pub open spec fn replacement_message(key: Seq<char>, reason: Seq<char>) -> Seq<char> {
    "Error in template string at \"{"@ + key + "}\": "@ + reason
}

/// Reason given for a key that the context lacks.
pub open spec fn not_found_message(key: Seq<char>) -> Seq<char> {
    "Not found key \""@ + key + "\" at the value context."@
}

/// Reason given for a value that its format specification does not suit.
pub open spec fn fail_apply_message(key: Seq<char>) -> Seq<char> {
    "Fail apply key \""@ + key + "\"."@
}

/// Puts `part` in front of the parts of a scan.
pub open spec fn prepend(part: TemplatePart, scan: (Seq<TemplatePart>, Option<Seq<char>>)) -> (
    Seq<TemplatePart>,
    Option<Seq<char>>,
) {
    (seq![part] + scan.0, scan.1)
}

/// Splits the template `t` from position `i` into its parts, up to the
/// first syntax error, whose message comes second.
pub open spec fn scan_at(t: Seq<char>, i: int) -> (Seq<TemplatePart>, Option<Seq<char>>)
    decreases t.len() - i,
{
    if i < 0 || i >= t.len() {
        (Seq::empty(), None)
    } else {
        let b = next_brace(t, i);
        proof {
            lemma_next_brace_bounds(t, i);
        }
        if b >= t.len() {
            (seq![TemplatePart::Text(t.subrange(i, t.len() as int))], None)
        } else if b + 1 < t.len() && t[b + 1] == t[b] {
            prepend(TemplatePart::Text(t.subrange(i, b + 1)), scan_at(t, b + 2))
        } else if t[b] == '}' {
            (Seq::empty(), Some(closing_message(text_bytes(t.take(b)))))
        } else {
            let k = next_brace(t, b + 1);
            proof {
                lemma_next_brace_bounds(t, b + 1);
            }
            if k >= t.len() {
                (
                    seq![TemplatePart::Text(t.subrange(i, b))],
                    Some(unclosed_message(t.subrange(b, t.len() as int))),
                )
            } else if t[k] == '}' {
                prepend(
                    TemplatePart::Text(t.subrange(i, b)),
                    prepend(TemplatePart::Key(t.subrange(b + 1, k)), scan_at(t, k + 1)),
                )
            } else {
                (
                    seq![TemplatePart::Text(t.subrange(i, b))],
                    Some(opening_message(text_bytes(t.take(k)))),
                )
            }
        }
    }
}

/// The position of the last `c` in `s`, or -1 when there is none.
pub open spec fn last_index_of(s: Seq<char>, c: char) -> int
    decreases s.len(),
{
    if s.len() == 0 {
        -1
    } else if s.last() == c {
        s.len() - 1
    } else {
        last_index_of(s.drop_last(), c)
    }
}

/// Whether replacing `key` asks a formatter: the context lacks `key`, and
/// has the part of `key` before its last `:`.
pub open spec fn needs_format(ctx: Map<Seq<char>, DataValue>, key: Seq<char>) -> bool {
    &&& !ctx.contains_key(key)
    &&& last_index_of(key, ':') >= 0
    &&& ctx.contains_key(key.take(last_index_of(key, ':')))
}

/// What the formatter `F` answers when replacing `key` in `ctx` asks it:
/// the value at the part of `key` before its last `:`, formatted by the rest
/// of `key` between braces; `None` when no formatter is asked.
pub open spec fn key_answer<F: ValueFormatter>(ctx: Map<Seq<char>, DataValue>, key: Seq<char>) -> Option<Seq<char>> {
    if needs_format(ctx, key) {
        let p = last_index_of(key, ':');
        F::format_spec(ctx[key.take(p)], "{"@ + key.skip(p) + "}"@)
    } else {
        None
    }
}

/// The answers of `F` for each part of a template.
pub open spec fn part_answers<F: ValueFormatter>(parts: Seq<TemplatePart>, ctx: Map<Seq<char>, DataValue>) -> Seq<
    Option<Seq<char>>,
> {
    Seq::new(
        parts.len(),
        |i: int|
            match parts[i] {
                TemplatePart::Text(_) => None,
                TemplatePart::Key(k) => key_answer::<F>(ctx, k),
            },
    )
}

/// The text template `t` fills to in `ctx` with the formatter `F`, or the
/// message of its first failure.
pub open spec fn template_fill<F: ValueFormatter>(t: Seq<char>, ctx: Map<Seq<char>, DataValue>) -> Result<
    Seq<char>,
    Seq<char>,
> {
    template_outcome(t, ctx, part_answers::<F>(scan_at(t, 0).0, ctx))
}

/// The text that replaces `key`, or why it cannot be replaced. `answer` is
/// what the formatter gave when [`needs_format`] holds, and is ignored
/// otherwise.
pub open spec fn key_outcome(ctx: Map<Seq<char>, DataValue>, key: Seq<char>, answer: Option<Seq<char>>) -> Result<
    Seq<char>,
    Seq<char>,
> {
    if ctx.contains_key(key) {
        Ok(value_text(ctx[key]))
    } else {
        let p = last_index_of(key, ':');
        if p < 0 {
            Err(not_found_message(key))
        } else if !ctx.contains_key(key.take(p)) {
            Err(not_found_message(key.take(p)))
        } else {
            match answer {
                Some(s) => Ok(s),
                None => Err(fail_apply_message(key.take(p))),
            }
        }
    }
}

/// The text a part contributes, or the message of its failure.
pub open spec fn part_outcome(part: TemplatePart, ctx: Map<Seq<char>, DataValue>, answer: Option<Seq<char>>) -> Result<
    Seq<char>,
    Seq<char>,
> {
    match part {
        TemplatePart::Text(s) => Ok(s),
        TemplatePart::Key(k) => match key_outcome(ctx, k, answer) {
            Ok(s) => Ok(s),
            Err(m) => Err(replacement_message(k, m)),
        },
    }
}

/// Renders `parts` from position `i` onto `acc`, stopping at the first
/// failure; `answers[j]` is the formatter's answer for part `j`.
pub open spec fn render_from(
    parts: Seq<TemplatePart>,
    i: int,
    ctx: Map<Seq<char>, DataValue>,
    answers: Seq<Option<Seq<char>>>,
    acc: Seq<char>,
) -> Result<Seq<char>, Seq<char>>
    decreases parts.len() - i,
{
    if i < 0 || i >= parts.len() {
        Ok(acc)
    } else {
        match part_outcome(parts[i], ctx, answers[i]) {
            Ok(s) => render_from(parts, i + 1, ctx, answers, acc + s),
            Err(m) => Err(m),
        }
    }
}

/// The text a template fills to in a context, or the message of its first
/// failure, given the formatter's answers.
pub open spec fn template_outcome(
    t: Seq<char>,
    ctx: Map<Seq<char>, DataValue>,
    answers: Seq<Option<Seq<char>>>,
) -> Result<Seq<char>, Seq<char>> {
    let scan = scan_at(t, 0);
    match render_from(scan.0, 0, ctx, answers, Seq::empty()) {
        Err(m) => Err(m),
        Ok(s) => match scan.1 {
            Some(f) => Err(f),
            None => Ok(s),
        },
    }
}

/// Whether `t` can fill to `outcome` in `ctx`, for some answers of the formatter.
pub open spec fn fills_to(t: Seq<char>, ctx: Map<Seq<char>, DataValue>, outcome: Result<Seq<char>, Seq<char>>) -> bool {
    exists|answers: Seq<Option<Seq<char>>>|
        answers.len() == scan_at(t, 0).0.len() && #[trigger] template_outcome(t, ctx, answers) == outcome
}

/// The parts and error of a scan as views.
pub open spec fn result_view(r: Result<String, String>) -> Result<Seq<char>, Seq<char>> {
    match r {
        Ok(s) => Ok(s@),
        Err(m) => Err(m@),
    }
}

/// A piece of a template.
pub enum TemplatePiece {
    /// Literal text.
    Text(String),
    /// A key to replace.
    Key(String),
}

impl TemplatePiece {
    /// The part this piece stands for.
    pub open spec fn part(&self) -> TemplatePart {
        match self {
            TemplatePiece::Text(s) => TemplatePart::Text(s@),
            TemplatePiece::Key(k) => TemplatePart::Key(k@),
        }
    }
}

/// The parts that pieces stand for.
pub open spec fn parts_of(pieces: Seq<TemplatePiece>) -> Seq<TemplatePart> {
    pieces.map_values(|p: TemplatePiece| p.part())
}

/// The view of an optional string.
pub open spec fn option_view(o: Option<String>) -> Option<Seq<char>> {
    match o {
        Some(s) => Some(s@),
        None => None,
    }
}

proof fn lemma_text_bytes_push(s: Seq<char>, c: char)
    ensures
        text_bytes(s.push(c)) == text_bytes(s) + char_bytes(c),
{
    assert(s.push(c).drop_last() =~= s);
}

proof fn lemma_text_bytes_bound(s: Seq<char>)
    ensures
        text_bytes(s) <= 4 * s.len(),
    decreases s.len(),
{
    if s.len() > 0 {
        lemma_text_bytes_bound(s.drop_last());
    }
}

/// Where the next brace from `i` lies, and that none comes before it.
pub proof fn lemma_next_brace_bounds(t: Seq<char>, i: int)
    requires
        0 <= i,
    ensures
        i <= next_brace(t, i) || i > t.len(),
        next_brace(t, i) <= t.len(),
        next_brace(t, i) < t.len() ==> is_brace(t[next_brace(t, i)]),
        forall|j: int| i <= j < next_brace(t, i) ==> !is_brace(#[trigger] t[j]),
    decreases t.len() - i,
{
    if i < t.len() && !is_brace(t[i]) {
        lemma_next_brace_bounds(t, i + 1);
    }
}

/// The position of the first brace in `t` at or after `i`.
fn find_brace(t: &Vec<char>, i: usize) -> (r: usize)
    requires
        i <= t@.len(),
    ensures
        r == next_brace(t@, i as int),
        i <= r <= t@.len(),
{
    proof {
        lemma_next_brace_bounds(t@, i as int);
    }
    let mut j: usize = i;
    while j < t.len()
        invariant
            i <= j <= t@.len(),
            next_brace(t@, i as int) == next_brace(t@, j as int),
        decreases t@.len() - j,
    {
        if t[j] == '{' || t[j] == '}' {
            return j;
        }
        j = j + 1;
    }
    j
}

/// The number of UTF-8 bytes of the first `n` characters of `t`.
fn bytes_before(t: &Vec<char>, n: usize) -> (r: u128)
    requires
        n <= t@.len(),
    ensures
        r == text_bytes(t@.take(n as int)),
{
    let mut total: u128 = 0;
    let mut i: usize = 0;
    while i < n
        invariant
            i <= n <= t@.len(),
            total == text_bytes(t@.take(i as int)),
        decreases n - i,
    {
        let c = t[i];
        let code = c as u32;
        let w: u128 = if code < 0x80 {
            1
        } else if code < 0x800 {
            2
        } else if code < 0x10000 {
            3
        } else {
            4
        };
        proof {
            lemma_text_bytes_bound(t@.take(i as int));
            lemma_text_bytes_push(t@.take(i as int), c);
            assert(t@.take(i as int).push(c) =~= t@.take(i + 1));
        }
        total = total + w;
        i = i + 1;
    }
    total
}

/// Builds the message `prefix` followed by the decimal text of `n`.
fn message_with_index(prefix: &str, n: u128) -> (r: String)
    ensures
        r@ == prefix@ + nat_text(n as nat),
{
    let mut out: Vec<char> = Vec::new();
    push_chars(&mut out, prefix);
    let digits = nat_to_string(n);
    push_chars(&mut out, digits.as_str());
    string_of(out.as_slice())
}

/// Splits the template `t` into its pieces, up to the first syntax error,
/// whose message comes second.
pub fn scan_template(t: &Vec<char>) -> (r: (Vec<TemplatePiece>, Option<String>))
    ensures
        parts_of(r.0@) == scan_at(t@, 0).0,
        option_view(r.1) == scan_at(t@, 0).1,
{
    let mut pieces: Vec<TemplatePiece> = Vec::new();
    let mut i: usize = 0;
    loop
        invariant
            i <= t@.len(),
            scan_at(t@, 0) == (parts_of(pieces@) + scan_at(t@, i as int).0, scan_at(t@, i as int).1),
        decreases t@.len() - i,
    {
        let ghost before = pieces@;
        if i >= t.len() {
            assert(parts_of(pieces@) + scan_at(t@, i as int).0 =~= parts_of(pieces@));
            return (pieces, None);
        }
        let b = find_brace(t, i);
        proof {
            lemma_next_brace_bounds(t@, i as int);
        }
        if b >= t.len() {
            pieces.push(TemplatePiece::Text(string_between(t, i, t.len())));
            assert(parts_of(pieces@) =~= parts_of(before) + scan_at(t@, i as int).0);
            return (pieces, None);
        }
        if b + 1 < t.len() && t[b + 1] == t[b] {
            pieces.push(TemplatePiece::Text(string_between(t, i, b + 1)));
            assert(parts_of(pieces@) + scan_at(t@, b + 2).0 =~= parts_of(before) + scan_at(t@, i as int).0);
            i = b + 2;
        } else if t[b] == '}' {
            let index = bytes_before(t, b);
            let message = message_with_index("Unexpected closing brace at index ", index);
            proof {
                reveal_strlit("Unexpected closing brace at index ");
            }
            return (pieces, Some(message));
        } else {
            proof {
                lemma_next_brace_bounds(t@, b + 1);
            }
            let k = find_brace(t, b + 1);
            if k >= t.len() {
                pieces.push(TemplatePiece::Text(string_between(t, i, b)));
                let mut out: Vec<char> = Vec::new();
                push_chars(&mut out, "Unclosed template region at \"");
                let rest = string_between(t, b, t.len());
                push_chars(&mut out, rest.as_str());
                push_chars(&mut out, "\"");
                assert(parts_of(pieces@) =~= parts_of(before) + scan_at(t@, i as int).0);
                return (pieces, Some(string_of(out.as_slice())));
            } else if t[k] == '}' {
                pieces.push(TemplatePiece::Text(string_between(t, i, b)));
                pieces.push(TemplatePiece::Key(string_between(t, b + 1, k)));
                assert(parts_of(pieces@) + scan_at(t@, k + 1).0 =~= parts_of(before) + scan_at(t@, i as int).0);
                i = k + 1;
            } else {
                pieces.push(TemplatePiece::Text(string_between(t, i, b)));
                let index = bytes_before(t, k);
                let message = message_with_index(
                    "Unexpected curly brace within template region at index ",
                    index,
                );
                assert(parts_of(pieces@) =~= parts_of(before) + scan_at(t@, i as int).0);
                return (pieces, Some(message));
            }
        }
    }
}

/// The position of the last `:` in `key`.
fn last_colon(key: &Vec<char>) -> (r: Option<usize>)
    ensures
        match r {
            Some(p) => p == last_index_of(key@, ':') && p < key@.len(),
            None => last_index_of(key@, ':') < 0,
        },
{
    let mut n: usize = key.len();
    assert(key@.take(n as int) =~= key@);
    while n > 0
        invariant
            n <= key@.len(),
            last_index_of(key@, ':') == last_index_of(key@.take(n as int), ':'),
        decreases n,
    {
        if key[n - 1] == ':' {
            assert(key@.take(n as int).last() == ':');
            return Some(n - 1);
        }
        assert(key@.take(n as int).drop_last() =~= key@.take(n - 1));
        n = n - 1;
    }
    None
}

/// Builds `prefix`, then `middle`, then `suffix`.
fn enclose(prefix: &str, middle: &str, suffix: &str) -> (r: String)
    ensures
        r@ == prefix@ + middle@ + suffix@,
{
    let mut out: Vec<char> = Vec::new();
    push_chars(&mut out, prefix);
    push_chars(&mut out, middle);
    push_chars(&mut out, suffix);
    assert(out@ =~= prefix@ + middle@ + suffix@);
    string_of(out.as_slice())
}

/// The text that replaces `key` in `ctx`, or why it cannot be replaced,
/// with the formatter's answer when it was asked.
fn key_text<F: ValueFormatter>(ctx: &DataValueMap, key: &str) -> (r: (Result<String, String>, Ghost<Option<Seq<char>>>))
    ensures
        result_view(r.0) == key_outcome(ctx@, key@, r.1@),
        r.1@ == key_answer::<F>(ctx@, key@),
{
    match ctx.get(key) {
        Some(v) => (Ok(v.to_parse_string()), Ghost(None)),
        None => {
            let chars = chars_of(key);
            match last_colon(&chars) {
                None => (Err(enclose("Not found key \"", key, "\" at the value context.")), Ghost(None)),
                Some(p) => {
                    let head = string_between(&chars, 0, p);
                    let spec_part = string_between(&chars, p, chars.len());
                    assert(head@ =~= key@.take(p as int));
                    match ctx.get(head.as_str()) {
                        None => (
                            Err(enclose("Not found key \"", head.as_str(), "\" at the value context.")),
                            Ghost(None),
                        ),
                        Some(v) => {
                            let format = enclose("{", spec_part.as_str(), "}");
                            assert(spec_part@ =~= key@.skip(p as int));
                            match F::format(v, format.as_str()) {
                                Some(text) => {
                                    let ghost answer = text@;
                                    (Ok(text), Ghost(Some(answer)))
                                },
                                None => (Err(enclose("Fail apply key \"", head.as_str(), "\".")), Ghost(None)),
                            }
                        },
                    }
                },
            }
        },
    }
}

/// Renders `pieces` in `ctx`, stopping at the first piece that cannot be
/// rendered; the second result holds the formatter's answers.
fn render_pieces<F: ValueFormatter>(pieces: &Vec<TemplatePiece>, ctx: &DataValueMap) -> (r: (
    Result<String, String>,
    Ghost<Seq<Option<Seq<char>>>>,
))
    ensures
        r.1@.len() == pieces@.len(),
        r.1@ == part_answers::<F>(parts_of(pieces@), ctx@),
        result_view(r.0) == render_from(parts_of(pieces@), 0, ctx@, r.1@, Seq::empty()),
{
    let ghost parts = parts_of(pieces@);
    let ghost n = pieces@.len();
    let ghost exact = part_answers::<F>(parts, ctx@);
    let mut out: Vec<char> = Vec::new();
    let ghost mut chosen: Seq<Option<Seq<char>>> = Seq::empty();
    let mut i: usize = 0;
    while i < pieces.len()
        invariant
            i <= pieces@.len(),
            n == pieces@.len(),
            parts == parts_of(pieces@),
            chosen.len() == i,
            exact == part_answers::<F>(parts, ctx@),
            chosen == exact.take(i as int),
            forall|ans: Seq<Option<Seq<char>>>|
                ans.len() == n && ans.take(i as int) == chosen ==> #[trigger] render_from(
                    parts,
                    0,
                    ctx@,
                    ans,
                    Seq::empty(),
                ) == render_from(parts, i as int, ctx@, ans, out@),
        decreases pieces@.len() - i,
    {
        let ghost acc = out@;
        match &pieces[i] {
            TemplatePiece::Text(s) => {
                push_chars(&mut out, s.as_str());
                proof {
                    let a: Option<Seq<char>> = None;
                    assert forall|ans: Seq<Option<Seq<char>>>|
                        ans.len() == n && ans.take(i + 1) == chosen.push(a) implies #[trigger] render_from(
                        parts,
                        0,
                        ctx@,
                        ans,
                        Seq::empty(),
                    ) == render_from(parts, i + 1, ctx@, ans, out@) by {
                        assert(ans.take(i as int) =~= ans.take(i + 1).take(i as int));
                        assert(chosen.push(a).take(i as int) =~= chosen);
                    }
                    chosen = chosen.push(a);
                }
            },
            TemplatePiece::Key(k) => {
                let (outcome, Ghost(a)) = key_text::<F>(ctx, k.as_str());
                match outcome {
                    Ok(text) => {
                        push_chars(&mut out, text.as_str());
                        proof {
                            assert forall|ans: Seq<Option<Seq<char>>>|
                                ans.len() == n && ans.take(i + 1) == chosen.push(a) implies #[trigger] render_from(
                                parts,
                                0,
                                ctx@,
                                ans,
                                Seq::empty(),
                            ) == render_from(parts, i + 1, ctx@, ans, out@) by {
                                assert(ans.take(i as int) =~= ans.take(i + 1).take(i as int));
                                assert(chosen.push(a).take(i as int) =~= chosen);
                                assert(ans[i as int] == ans.take(i + 1)[i as int]);
                            }
                            chosen = chosen.push(a);
                        }
                    },
                    Err(m) => {
                        let message = enclose("Error in template string at \"{", k.as_str(), "}\": ");
                        let mut full: Vec<char> = Vec::new();
                        push_chars(&mut full, message.as_str());
                        push_chars(&mut full, m.as_str());
                        let ghost ans = exact;
                        proof {
                            assert(ans.take(i as int) =~= chosen);
                            assert(ans[i as int] == a);
                            assert(full@ =~= replacement_message(k@, m@));
                        }
                        assert(render_from(parts, 0, ctx@, ans, Seq::empty()) == render_from(parts, i as int, ctx@, ans, acc));
                        return (Err(string_of(full.as_slice())), Ghost(ans));
                    },
                }
            },
        }
        i = i + 1;
    }
    proof {
        assert(chosen.take(i as int) =~= chosen);
    }
    assert(render_from(parts, 0, ctx@, chosen, Seq::empty()) == render_from(parts, i as int, ctx@, chosen, out@));
    assert(exact.take(i as int) =~= exact);
    (Ok(string_of(out.as_slice())), Ghost(chosen))
}

/// Why an evaluation failed.
#[derive(Debug)]
pub enum EvalError {
    /// The expression could not be evaluated to the wanted type.
    FailEval(EvalexprError),
    /// The template could not be filled; the message says why.
    FailApplyValueContext(String),
}

/// Result of an evaluation.
pub type EvalResult<T> = Result<T, EvalError>;

/// Whether `r` is the outcome of filling `t` in `ctx`, for some answers of the formatter.
pub open spec fn format_outcome(t: Seq<char>, ctx: Map<Seq<char>, DataValue>, r: EvalResult<String>) -> bool {
    match r {
        Ok(s) => fills_to(t, ctx, Ok(s@)),
        Err(EvalError::FailApplyValueContext(m)) => fills_to(t, ctx, Err(m@)),
        Err(EvalError::FailEval(_)) => false,
    }
}

/// Whether `r` may be the outcome of evaluating the script `t` in `ctx` as
/// an integer: the integer the filled text evaluates to, cut to `i32` as a
/// cast does, or the failure to fill or to evaluate it.
pub open spec fn int_eval_outcome(t: Seq<char>, ctx: Map<Seq<char>, DataValue>, r: EvalResult<SbrdInt>) -> bool {
    match r {
        Ok(v) => exists|s: Seq<char>| fills_to(t, ctx, Ok(s)) && (#[trigger] script_int(s) matches Some(w) && v == w as i32),
        Err(EvalError::FailApplyValueContext(m)) => fills_to(t, ctx, Err(m@)),
        Err(EvalError::FailEval(_)) => exists|s: Seq<char>| fills_to(t, ctx, Ok(s)) && #[trigger] script_int(s) is None,
    }
}

/// Whether `r` may be the outcome of evaluating the script `t` in `ctx` as
/// a boolean: the boolean the filled text evaluates to, or the failure to
/// fill or to evaluate it.
pub open spec fn bool_eval_outcome(t: Seq<char>, ctx: Map<Seq<char>, DataValue>, r: EvalResult<SbrdBool>) -> bool {
    match r {
        Ok(v) => exists|s: Seq<char>| fills_to(t, ctx, Ok(s)) && #[trigger] script_bool(s) == Some(v),
        Err(EvalError::FailApplyValueContext(m)) => fills_to(t, ctx, Err(m@)),
        Err(EvalError::FailEval(_)) => exists|s: Seq<char>| fills_to(t, ctx, Ok(s)) && #[trigger] script_bool(s) is None,
    }
}

/// Whether `r` may be the outcome of evaluating the script `t` in `ctx` as
/// a string: the string the filled text evaluates to, or the failure to
/// fill or to evaluate it.
pub open spec fn string_eval_outcome(t: Seq<char>, ctx: Map<Seq<char>, DataValue>, r: EvalResult<SbrdString>) -> bool {
    match r {
        Ok(v) => exists|s: Seq<char>| fills_to(t, ctx, Ok(s)) && #[trigger] script_string(s) == Some(v@),
        Err(EvalError::FailApplyValueContext(m)) => fills_to(t, ctx, Err(m@)),
        Err(EvalError::FailEval(_)) => exists|s: Seq<char>| fills_to(t, ctx, Ok(s)) && #[trigger] script_string(s) is None,
    }
}

/// The outcome of evaluating the script `t` in `ctx` as an integer with
/// the formatter `F`: the integer its filled text evaluates to, cut to
/// `i32` as a cast does, or the failure to fill or to evaluate it.
pub open spec fn int_eval_exact<F: ValueFormatter>(t: Seq<char>, ctx: Map<Seq<char>, DataValue>, r: EvalResult<SbrdInt>) -> bool {
    match r {
        Ok(v) => template_fill::<F>(t, ctx) matches Ok(s) && (script_int(s) matches Some(w) && v == w as i32),
        Err(EvalError::FailApplyValueContext(m)) => template_fill::<F>(t, ctx) == Err::<Seq<char>, Seq<char>>(m@),
        Err(EvalError::FailEval(_)) => template_fill::<F>(t, ctx) matches Ok(s) && script_int(s) is None,
    }
}

/// The outcome of evaluating the script `t` in `ctx` as a boolean with the
/// formatter `F`.
pub open spec fn bool_eval_exact<F: ValueFormatter>(t: Seq<char>, ctx: Map<Seq<char>, DataValue>, r: EvalResult<SbrdBool>) -> bool {
    match r {
        Ok(v) => template_fill::<F>(t, ctx) matches Ok(s) && script_bool(s) == Some(v),
        Err(EvalError::FailApplyValueContext(m)) => template_fill::<F>(t, ctx) == Err::<Seq<char>, Seq<char>>(m@),
        Err(EvalError::FailEval(_)) => template_fill::<F>(t, ctx) matches Ok(s) && script_bool(s) is None,
    }
}

/// The outcome of evaluating the script `t` in `ctx` as a string with the
/// formatter `F`.
pub open spec fn string_eval_exact<F: ValueFormatter>(t: Seq<char>, ctx: Map<Seq<char>, DataValue>, r: EvalResult<SbrdString>) -> bool {
    match r {
        Ok(v) => template_fill::<F>(t, ctx) matches Ok(s) && script_string(s) == Some(v@),
        Err(EvalError::FailApplyValueContext(m)) => template_fill::<F>(t, ctx) == Err::<Seq<char>, Seq<char>>(m@),
        Err(EvalError::FailEval(_)) => template_fill::<F>(t, ctx) matches Ok(s) && script_string(s) is None,
    }
}

/// Fills the template `script` in `ctx`: the text of each `{key}` replaces
/// it, `{key:spec}` is formatted by `F`, and `{{` and `}}` stand for braces.
pub fn fill_template<F: ValueFormatter>(ctx: &DataValueMap, script: &str) -> (r: Result<String, String>)
    ensures
        fills_to(script@, ctx@, result_view(r)),
        result_view(r) == template_fill::<F>(script@, ctx@),
{
    let chars = chars_of(script);
    let (pieces, fault) = scan_template(&chars);
    let (rendered, Ghost(answers)) = render_pieces::<F>(&pieces, ctx);
    let r = match rendered {
        Err(m) => Err(m),
        Ok(text) => match fault {
            Some(f) => Err(f),
            None => Ok(text),
        },
    };
    assert(template_outcome(script@, ctx@, answers) == result_view(r));
    r
}

/// Evaluates scripts and fills formats in a value context.
pub struct Evaluator<'a> {
    value_context: &'a DataValueMap,
}

impl<'a> Evaluator<'a> {
    /// The value context of this evaluator.
    pub closed spec fn context(&self) -> Map<Seq<char>, DataValue> {
        self.value_context@
    }

    /// An evaluator over `value_context`.
    pub fn new(value_context: &'a DataValueMap) -> (r: Self)
        ensures
            r.context() == value_context@,
    {
        Evaluator { value_context }
    }

    /// The script with each key replaced as [`fill_template`] does.
    pub fn format_script<F: ValueFormatter>(&self, script: &str) -> (r: EvalResult<String>)
        ensures
            format_outcome(script@, self.context(), r),
            match r {
                Ok(s) => template_fill::<F>(script@, self.context()) == Ok::<Seq<char>, Seq<char>>(s@),
                Err(EvalError::FailApplyValueContext(m)) => template_fill::<F>(script@, self.context()) == Err::<
                    Seq<char>,
                    Seq<char>,
                >(m@),
                Err(EvalError::FailEval(_)) => false,
            },
    {
        match fill_template::<F>(self.value_context, script) {
            Ok(s) => Ok(s),
            Err(m) => Err(EvalError::FailApplyValueContext(m)),
        }
    }

    /// Evaluates the filled script as an integer; results beyond `i32`
    /// wrap as a cast does.
    pub fn eval_int<F: ValueFormatter>(&self, script: &str) -> (r: EvalResult<SbrdInt>)
        ensures
            int_eval_outcome(script@, self.context(), r),
            int_eval_exact::<F>(script@, self.context(), r),
    {
        let text = match self.format_script::<F>(script) {
            Ok(t) => t,
            Err(e) => return Err(e),
        };
        match evaluate_int(text.as_str()) {
            Ok(v) => Ok(v as SbrdInt),
            Err(e) => Err(EvalError::FailEval(e)),
        }
    }

    /// Evaluates the filled script as a boolean.
    pub fn eval_bool<F: ValueFormatter>(&self, script: &str) -> (r: EvalResult<SbrdBool>)
        ensures
            bool_eval_outcome(script@, self.context(), r),
            bool_eval_exact::<F>(script@, self.context(), r),
    {
        let text = match self.format_script::<F>(script) {
            Ok(t) => t,
            Err(e) => return Err(e),
        };
        match evaluate_boolean(text.as_str()) {
            Ok(v) => Ok(v),
            Err(e) => Err(EvalError::FailEval(e)),
        }
    }

    /// Evaluates the filled script as a string.
    pub fn eval_string<F: ValueFormatter>(&self, script: &str) -> (r: EvalResult<SbrdString>)
        ensures
            string_eval_outcome(script@, self.context(), r),
            string_eval_exact::<F>(script@, self.context(), r),
    {
        let text = match self.format_script::<F>(script) {
            Ok(t) => t,
            Err(e) => return Err(e),
        };
        match evaluate_string(text.as_str()) {
            Ok(v) => Ok(v),
            Err(e) => Err(EvalError::FailEval(e)),
        }
    }
}

/// Why an index does not select an item of a tuple.
#[derive(Debug, PartialEq, Eq, Structural, Clone, Copy)]
pub enum IndexFault {
    /// The index is negative.
    Negative,
    /// The index is at or beyond the length of the tuple.
    Missing,
}

/// The position that `index` selects in a tuple of `len` items.
pub fn tuple_index(len: usize, index: i64) -> (r: Result<usize, IndexFault>)
    ensures
        index < 0 ==> r == Err::<usize, IndexFault>(IndexFault::Negative),
        0 <= index < len ==> r == Ok::<usize, IndexFault>(index as usize),
        index >= 0 && index >= len ==> r == Err::<usize, IndexFault>(IndexFault::Missing),
{
    if index < 0 {
        Err(IndexFault::Negative)
    } else if (index as u64 as u128) < (len as u128) {
        Ok(index as usize)
    } else {
        Err(IndexFault::Missing)
    }
}

/// What the script function `get` gives for `argument`: for a pair of a
/// tuple `vs` and an integer `i`, the item `vs[i]` when `i` lies in
/// `0..vs.len()`; an error otherwise.
pub open spec fn get_outcome(argument: Value, r: Result<Value, EvalexprError>) -> bool {
    match value_fixed_len_tuple_of(argument, 2) {
        Some(pair) => match (value_tuple_of(pair[0]), value_int_of(pair[1])) {
            (Some(vs), Some(i)) => if 0 <= i < vs.len() {
                r == Ok::<Value, EvalexprError>(vs[i as int])
            } else {
                r is Err
            },
            _ => r is Err,
        },
        None => r is Err,
    }
}

/// What the script function `shl` (when `left`) or `shr` gives for
/// `argument`: for a pair of integers `(a, b)`, `a` shifted by `b` bits
/// when `b` lies in `0..64`, and an error otherwise; an error for any other
/// argument.
pub open spec fn shift_outcome(argument: Value, left: bool, r: Result<Value, EvalexprError>) -> bool {
    match value_fixed_len_tuple_of(argument, 2) {
        Some(pair) => match (value_int_of(pair[0]), value_int_of(pair[1])) {
            (Some(a), Some(b)) => if 0 <= b < 64 {
                r matches Ok(v) && value_int_of(v) == Some(
                    if left {
                        a << (b as u32)
                    } else {
                        a >> (b as u32)
                    },
                )
            } else {
                r is Err
            },
            _ => r is Err,
        },
        None => r is Err,
    }
}

/// The script function `get((values...), index)`: the item of the tuple at
/// the index.
pub fn get_function(argument: &Value) -> (r: Result<Value, EvalexprError>)
    ensures
        get_outcome(*argument, r),
{
    let pair = match value_fixed_len_tuple(argument, 2) {
        Ok(p) => p,
        Err(e) => return Err(e),
    };
    let values = match value_as_tuple(&pair[0]) {
        Ok(v) => v,
        Err(e) => return Err(e),
    };
    let index = match value_as_int(&pair[1]) {
        Ok(i) => i,
        Err(e) => return Err(e),
    };
    match tuple_index(values.len(), index) {
        Ok(i) => Ok(value_clone(&values[i])),
        Err(IndexFault::Negative) => Err(custom_error(String::from_str("Invalid index in a script."))),
        Err(IndexFault::Missing) => {
            let shown = value_to_string(argument);
            let mut out: Vec<char> = Vec::new();
            push_chars(&mut out, "Not found value in ");
            push_chars(&mut out, shown.as_str());
            push_chars(&mut out, " at tuple index ");
            let digits = nat_to_string(index as u128);
            push_chars(&mut out, digits.as_str());
            Err(custom_error(string_of(out.as_slice())))
        },
    }
}

/// The script function `shl(a, b)`: `a` shifted left by `b` bits, which
/// must lie in `0..64`.
pub fn shift_left(a: i64, b: i64) -> (r: Option<i64>)
    ensures
        r == (if 0 <= b < 64 {
            Some(a << (b as u32))
        } else {
            None::<i64>
        }),
{
    if 0 <= b && b < 64 {
        Some(a << (b as u32))
    } else {
        None
    }
}

/// The script function `shr(a, b)`: `a` shifted right, with its sign, by
/// `b` bits, which must lie in `0..64`.
pub fn shift_right(a: i64, b: i64) -> (r: Option<i64>)
    ensures
        r == (if 0 <= b < 64 {
            Some(a >> (b as u32))
        } else {
            None::<i64>
        }),
{
    if 0 <= b && b < 64 {
        Some(a >> (b as u32))
    } else {
        None
    }
}

/// Shifts the first integer of the pair `argument` by the second, to the
/// left when `left`.
fn shift_function(argument: &Value, left: bool) -> (r: Result<Value, EvalexprError>)
    ensures
        shift_outcome(*argument, left, r),
{
    let pair = match value_fixed_len_tuple(argument, 2) {
        Ok(p) => p,
        Err(e) => return Err(e),
    };
    let a = match value_as_int(&pair[0]) {
        Ok(i) => i,
        Err(e) => return Err(e),
    };
    let b = match value_as_int(&pair[1]) {
        Ok(i) => i,
        Err(e) => return Err(e),
    };
    let shifted = if left {
        shift_left(a, b)
    } else {
        shift_right(a, b)
    };
    match shifted {
        Some(v) => Ok(int_value(v)),
        None => Err(custom_error(String::from_str("Invalid shift in a script."))),
    }
}

/// The script function `shl((a, b))`, checked: a shift outside `0..64` is
/// an error.
pub fn shl_function(argument: &Value) -> (r: Result<Value, EvalexprError>)
    ensures
        shift_outcome(*argument, true, r),
{
    shift_function(argument, true)
}

/// The script function `shr((a, b))`, checked: a shift outside `0..64` is
/// an error.
pub fn shr_function(argument: &Value) -> (r: Result<Value, EvalexprError>)
    ensures
        shift_outcome(*argument, false, r),
{
    shift_function(argument, false)
}

/// `Value::Int` holding `v`, the value whose `as_int` gives `v`.
#[verifier::external_body]
fn int_value(v: i64) -> (r: Value)
    ensures
        value_int_of(r) == Some(v),
{
    Value::Int(v)
}

/// The integer `evalexpr` evaluates `script` to, in a fresh context that
/// holds the functions `get`, `shl` and `shr` alone; `None` when the evaluation fails.
pub uninterp spec fn script_int(script: Seq<char>) -> Option<i64>;

/// The boolean `evalexpr` evaluates `script` to, in a fresh context that
/// holds the functions `get`, `shl` and `shr` alone; `None` when the evaluation fails.
pub uninterp spec fn script_bool(script: Seq<char>) -> Option<bool>;

/// The string `evalexpr` evaluates `script` to, in a fresh context that
/// holds the functions `get`, `shl` and `shr` alone; `None` when the evaluation fails.
pub uninterp spec fn script_string(script: Seq<char>) -> Option<Seq<char>>;

/// `evalexpr::eval_int_with_context_mut` on a fresh `HashMapContext` in
/// which `set_function` registered [`get_function`] as `get`, and
/// [`shl_function`] and [`shr_function`] as `shl` and `shr` in place of the
/// built-in ones, which panic on a shift outside `0..64` (registering in a
/// `HashMapContext` never fails): its integer, named [`script_int`].
#[verifier::external_body]
fn evaluate_int(script: &str) -> (r: Result<i64, EvalexprError>)
    ensures
        match r {
            Ok(v) => script_int(script@) == Some(v),
            Err(_) => script_int(script@) is None,
        },
{
    let mut context = HashMapContext::new();
    context.set_function("get".to_string(), Function::new(get_function))?;
    context.set_function("shl".to_string(), Function::new(shl_function))?;
    context.set_function("shr".to_string(), Function::new(shr_function))?;
    evalexpr::eval_int_with_context_mut(script, &mut context)
}

/// `evalexpr::eval_boolean_with_context_mut` on a fresh `HashMapContext` in
/// which `set_function` registered [`get_function`], [`shl_function`] and
/// [`shr_function`] as `get`, `shl` and `shr`: its boolean, named
/// [`script_bool`].
#[verifier::external_body]
fn evaluate_boolean(script: &str) -> (r: Result<bool, EvalexprError>)
    ensures
        match r {
            Ok(v) => script_bool(script@) == Some(v),
            Err(_) => script_bool(script@) is None,
        },
{
    let mut context = HashMapContext::new();
    context.set_function("get".to_string(), Function::new(get_function))?;
    context.set_function("shl".to_string(), Function::new(shl_function))?;
    context.set_function("shr".to_string(), Function::new(shr_function))?;
    evalexpr::eval_boolean_with_context_mut(script, &mut context)
}

/// `evalexpr::eval_string_with_context_mut` on a fresh `HashMapContext` in
/// which `set_function` registered [`get_function`], [`shl_function`] and
/// [`shr_function`] as `get`, `shl` and `shr`: its string, named
/// [`script_string`].
#[verifier::external_body]
fn evaluate_string(script: &str) -> (r: Result<String, EvalexprError>)
    ensures
        match r {
            Ok(v) => script_string(script@) == Some(v@),
            Err(_) => script_string(script@) is None,
        },
{
    let mut context = HashMapContext::new();
    context.set_function("get".to_string(), Function::new(get_function))?;
    context.set_function("shl".to_string(), Function::new(shl_function))?;
    context.set_function("shr".to_string(), Function::new(shr_function))?;
    evalexpr::eval_string_with_context_mut(script, &mut context)
}

/// What `Value::as_fixed_len_tuple(len)` gives for `v`: the items of a
/// tuple of `len` items, `None` for any other value.
pub uninterp spec fn value_fixed_len_tuple_of(v: Value, len: usize) -> Option<Seq<Value>>;

/// What `Value::as_tuple` gives for `v`: the items of a tuple, `None` for any
/// other value.
pub uninterp spec fn value_tuple_of(v: Value) -> Option<Seq<Value>>;

/// What `Value::as_int` gives for `v`: the integer of an integer value,
/// `None` for any other value.
pub uninterp spec fn value_int_of(v: Value) -> Option<i64>;

/// `Value::as_fixed_len_tuple`: the items of a tuple of `len` items, or an
/// error for any other value. The items are clones, equal to the tuple's.
#[verifier::external_body]
fn value_fixed_len_tuple(value: &Value, len: usize) -> (r: Result<Vec<Value>, EvalexprError>)
    ensures
        match r {
            Ok(items) => value_fixed_len_tuple_of(*value, len) == Some(items@) && items@.len() == len,
            Err(_) => value_fixed_len_tuple_of(*value, len) is None,
        },
{
    value.as_fixed_len_tuple(len)
}

/// `Value::as_tuple`: the items of a tuple, or an error for any other value.
#[verifier::external_body]
fn value_as_tuple(value: &Value) -> (r: Result<Vec<Value>, EvalexprError>)
    ensures
        match r {
            Ok(items) => value_tuple_of(*value) == Some(items@),
            Err(_) => value_tuple_of(*value) is None,
        },
{
    value.as_tuple()
}

/// `Value::as_int`: the integer of an integer value, or an error for any
/// other value.
#[verifier::external_body]
fn value_as_int(value: &Value) -> (r: Result<i64, EvalexprError>)
    ensures
        match r {
            Ok(i) => value_int_of(*value) == Some(i),
            Err(_) => value_int_of(*value) is None,
        },
{
    value.as_int()
}

/// `Value::clone`, which `derive(Clone)` writes: an equal value.
#[verifier::external_body]
fn value_clone(value: &Value) -> (r: Value)
    ensures
        r == *value,
{
    value.clone()
}

/// The text `Value` displays as (its `Display` implementation).
#[verifier::external_body]
fn value_to_string(value: &Value) -> (r: String) {
    value.to_string()
}

/// `EvalexprError::CustomMessage` with `message`.
#[verifier::external_body]
fn custom_error(message: String) -> (r: EvalexprError) {
    EvalexprError::CustomMessage(message)
}

/// Whether `t` holds no curly brace.
pub open spec fn brace_free(t: Seq<char>) -> bool {
    forall|j: int| 0 <= j < t.len() ==> !is_brace(#[trigger] t[j])
}

/// The next brace from `i` is at `p` when none lies between them.
proof fn lemma_next_brace_at(t: Seq<char>, i: int, p: int)
    requires
        0 <= i <= p <= t.len(),
        forall|j: int| i <= j < p ==> !is_brace(#[trigger] t[j]),
        p == t.len() || is_brace(t[p]),
    ensures
        next_brace(t, i) == p,
    decreases p - i,
{
    if i < p {
        lemma_next_brace_at(t, i + 1, p);
    }
}

/// A template without braces fills to itself, whatever the formatter answers.
pub proof fn law_text_without_braces_is_unchanged(
    t: Seq<char>,
    ctx: Map<Seq<char>, DataValue>,
    answers: Seq<Option<Seq<char>>>,
)
    requires
        brace_free(t),
    ensures
        template_outcome(t, ctx, answers) == Ok::<Seq<char>, Seq<char>>(t),
        fills_to(t, ctx, Ok(t)),
{
    if t.len() > 0 {
        lemma_next_brace_at(t, 0, t.len() as int);
        assert(t.subrange(0, t.len() as int) =~= t);
        let parts = scan_at(t, 0).0;
        assert(render_from(parts, 1, ctx, answers, Seq::empty() + t) == Ok::<Seq<char>, Seq<char>>(Seq::empty() + t));
        assert(Seq::<char>::empty() + t =~= t);
    }
    let witness = Seq::new(scan_at(t, 0).0.len(), |j: int| None::<Seq<char>>);
    if t.len() > 0 {
        let parts = scan_at(t, 0).0;
        assert(render_from(parts, 1, ctx, witness, Seq::empty() + t) == Ok::<Seq<char>, Seq<char>>(Seq::empty() + t));
        assert(Seq::<char>::empty() + t =~= t);
    }
    assert(template_outcome(t, ctx, witness) == Ok::<Seq<char>, Seq<char>>(t));
}

/// Doubled braces stand for single ones: `{{t}}` fills to `{t}` when `t`
/// holds no brace.
pub proof fn law_doubled_braces_are_literal(
    t: Seq<char>,
    ctx: Map<Seq<char>, DataValue>,
    answers: Seq<Option<Seq<char>>>,
)
    requires
        brace_free(t),
    ensures
        template_outcome(seq!['{', '{'] + t + seq!['}', '}'], ctx, answers) == Ok::<Seq<char>, Seq<char>>(
            seq!['{'] + t + seq!['}'],
        ),
{
    let u = seq!['{', '{'] + t + seq!['}', '}'];
    let n = t.len() as int;
    assert(u.len() == n + 4);
    assert(u[0] == '{' && u[1] == '{');
    assert(u[n + 2] == '}' && u[n + 3] == '}');
    assert forall|j: int| 2 <= j < n + 2 implies !is_brace(#[trigger] u[j]) by {
        assert(u[j] == t[j - 2]);
    }
    lemma_next_brace_at(u, 0, 0);
    lemma_next_brace_at(u, 2, n + 2);
    assert(u.subrange(0, 1) =~= seq!['{']);
    assert(u.subrange(2, n + 3) =~= t + seq!['}']);
    assert(scan_at(u, n + 4) == (Seq::<TemplatePart>::empty(), None::<Seq<char>>));
    assert(scan_at(u, 2) == prepend(TemplatePart::Text(t + seq!['}']), scan_at(u, n + 4)));
    assert(scan_at(u, 0) == prepend(TemplatePart::Text(seq!['{']), scan_at(u, 2)));
    let parts = scan_at(u, 0).0;
    assert(parts =~= seq![TemplatePart::Text(seq!['{']), TemplatePart::Text(t + seq!['}'])]);
    assert(render_from(parts, 2, ctx, answers, seq!['{'] + (t + seq!['}'])) == Ok::<Seq<char>, Seq<char>>(
        seq!['{'] + (t + seq!['}']),
    ));
    assert(render_from(parts, 1, ctx, answers, Seq::empty() + seq!['{']) == render_from(
        parts,
        2,
        ctx,
        answers,
        (Seq::empty() + seq!['{']) + (t + seq!['}']),
    ));
    assert(Seq::<char>::empty() + seq!['{'] =~= seq!['{']);
    assert(seq!['{'] + (t + seq!['}']) =~= seq!['{'] + t + seq!['}']);
}

/// `{key}` fills to the text of the value at `key` when the context has it.
pub proof fn law_key_is_replaced_by_its_value(
    key: Seq<char>,
    ctx: Map<Seq<char>, DataValue>,
    answers: Seq<Option<Seq<char>>>,
)
    requires
        brace_free(key),
        ctx.contains_key(key),
    ensures
        template_outcome(seq!['{'] + key + seq!['}'], ctx, answers) == Ok::<Seq<char>, Seq<char>>(
            value_text(ctx[key]),
        ),
{
    let u = seq!['{'] + key + seq!['}'];
    let n = key.len() as int;
    assert(u.len() == n + 2);
    assert(u[0] == '{');
    assert(u[n + 1] == '}');
    assert forall|j: int| 1 <= j < n + 1 implies !is_brace(#[trigger] u[j]) by {
        assert(u[j] == key[j - 1]);
    }
    assert(u[1] != u[0]) by {
        if n > 0 {
            assert(u[1] == key[0]);
        }
    }
    lemma_next_brace_at(u, 0, 0);
    lemma_next_brace_at(u, 1, n + 1);
    assert(u.subrange(1, n + 1) =~= key);
    assert(u.subrange(0, 0) =~= Seq::<char>::empty());
    assert(scan_at(u, n + 2) == (Seq::<TemplatePart>::empty(), None::<Seq<char>>));
    assert(scan_at(u, 0) == prepend(
        TemplatePart::Text(Seq::empty()),
        prepend(TemplatePart::Key(key), scan_at(u, n + 2)),
    ));
    let parts = scan_at(u, 0).0;
    assert(parts =~= seq![TemplatePart::Text(Seq::empty()), TemplatePart::Key(key)]);
    let v = value_text(ctx[key]);
    assert(render_from(parts, 2, ctx, answers, Seq::empty() + Seq::empty() + v) == Ok::<Seq<char>, Seq<char>>(
        Seq::empty() + Seq::empty() + v,
    ));
    assert(render_from(parts, 1, ctx, answers, Seq::empty() + Seq::empty()) == render_from(
        parts,
        2,
        ctx,
        answers,
        Seq::empty() + Seq::empty() + v,
    ));
    assert(Seq::<char>::empty() + Seq::empty() + v =~= v);
}

} // verus!
