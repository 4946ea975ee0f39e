//! What holds of every scan, proved from the lexical rules.

use crate::error::{ErrorTypeView, ErrorView};
use crate::graphemes::{lemma_text_between_extend, no_empty_cluster, text_between};
use crate::rules::{
    cluster_is, end_token, first_at_or_after, lemma_first_at_or_after, lemma_step_end_bounds,
    scan, scan_from, step_end, step_line, step_token, with_equal,
};
use crate::token::{LiteralView, TokenType, TokenView};
use vstd::prelude::*;

verus! {

/// The text of a single cluster is that cluster.
pub proof fn lemma_text_of_one(clusters: Seq<Seq<char>>, i: int)
    requires
        0 <= i < clusters.len(),
    ensures
        text_between(clusters, i, i + 1) == clusters[i],
{
    lemma_text_between_extend(clusters, i, i);
}

/// The text of two neighbouring clusters is the first followed by the
/// second.
pub proof fn lemma_text_of_two(clusters: Seq<Seq<char>>, i: int)
    requires
        0 <= i,
        i + 1 < clusters.len(),
    ensures
        text_between(clusters, i, i + 2) == clusters[i] + clusters[i + 1],
{
    lemma_text_of_one(clusters, i);
    lemma_text_between_extend(clusters, i, i + 1);
}

/// A scan always ends with the end-of-input token, which has an empty
/// lexeme, no literal, and the line on which the scan ended. This holds of
/// every input and every starting point, the empty input included.
pub proof fn lemma_scan_ends_with_end_token(clusters: Seq<Seq<char>>, i: int, line: nat)
    ensures
        scan_from(clusters, i, line).tokens.len() >= 1,
        scan_from(clusters, i, line).tokens.last() == end_token(
            scan_from(clusters, i, line).line,
        ),
    decreases clusters.len() - i,
{
    if 0 <= i < clusters.len() {
        lemma_step_end_bounds(clusters, i);
        lemma_scan_ends_with_end_token(
            clusters,
            step_end(clusters, i),
            step_line(clusters, i, line),
        );
    }
}

/// Where no cluster is empty, the end-of-input token is the only token of
/// its kind in a scan, and no token has the kind of a line break or of
/// unrecognised input: those two are handled inside the scanner.
pub proof fn lemma_scan_has_one_end_token(clusters: Seq<Seq<char>>, i: int, line: nat)
    requires
        no_empty_cluster(clusters),
    ensures
        forall|k: int|
            0 <= k < scan_from(clusters, i, line).tokens.len() - 1 ==> (#[trigger] scan_from(
                clusters,
                i,
                line,
            ).tokens[k]).token_type != TokenType::EOF,
        forall|k: int|
            0 <= k < scan_from(clusters, i, line).tokens.len() ==> (#[trigger] scan_from(
                clusters,
                i,
                line,
            ).tokens[k]).token_type != TokenType::LINE_BREAK && scan_from(
                clusters,
                i,
                line,
            ).tokens[k].token_type != TokenType::ERROR,
    decreases clusters.len() - i,
{
    if 0 <= i < clusters.len() {
        lemma_step_end_bounds(clusters, i);
        lemma_scan_has_one_end_token(clusters, step_end(clusters, i), step_line(clusters, i, line));
        lemma_scan_ends_with_end_token(
            clusters,
            step_end(clusters, i),
            step_line(clusters, i, line),
        );
    }
}

/// The line counter never goes down: a scan ends on the line it began on
/// or a later one, and every token carries a line between the two.
pub proof fn lemma_lines_never_decrease(clusters: Seq<Seq<char>>, i: int, line: nat)
    ensures
        line <= scan_from(clusters, i, line).line,
        forall|k: int|
            0 <= k < scan_from(clusters, i, line).tokens.len() ==> line <= (#[trigger] scan_from(
                clusters,
                i,
                line,
            ).tokens[k]).line <= scan_from(clusters, i, line).line,
        forall|k: int|
            0 <= k < scan_from(clusters, i, line).errors.len() ==> line <= (#[trigger] scan_from(
                clusters,
                i,
                line,
            ).errors[k]).line <= scan_from(clusters, i, line).line,
    decreases clusters.len() - i,
{
    if 0 <= i < clusters.len() {
        lemma_step_end_bounds(clusters, i);
        lemma_lines_never_decrease(clusters, step_end(clusters, i), step_line(clusters, i, line));
    }
}

/// A cluster that is blank space or a line feed: exactly one of the
/// characters space, tab, carriage return and line feed.
pub open spec fn is_blank(cluster: Seq<char>) -> bool {
    cluster == seq![' '] || cluster == seq!['\t'] || cluster == seq!['\r'] || cluster
        == seq!['\n']
}

/// How many line feeds a text holds.
pub open spec fn line_feeds(text: Seq<char>) -> nat
    decreases text.len(),
{
    if text.len() == 0 {
        0
    } else if text.first() == '\n' {
        1 + line_feeds(text.drop_first())
    } else {
        line_feeds(text.drop_first())
    }
}

/// From any position on, an input whose remaining clusters are all blank
/// yields no token but the end-of-input token and no error, and the line
/// counter grows by the number of line feeds in the remaining text.
pub proof fn lemma_blank_rest(clusters: Seq<Seq<char>>, i: int, line: nat)
    requires
        0 <= i <= clusters.len(),
        forall|k: int| i <= k < clusters.len() ==> is_blank(#[trigger] clusters[k]),
    ensures
        scan_from(clusters, i, line).line == line + line_feeds(
            text_between(clusters, i, clusters.len() as int),
        ),
        scan_from(clusters, i, line).tokens == seq![end_token(scan_from(clusters, i, line).line)],
        scan_from(clusters, i, line).errors == Seq::<ErrorView>::empty(),
    decreases clusters.len() - i,
{
    let n = clusters.len() as int;
    if i < n {
        lemma_blank_rest(clusters, i + 1, step_line(clusters, i, line));
        assert(clusters.subrange(i, n).drop_first() =~= clusters.subrange(i + 1, n));
        assert(text_between(clusters, i, n).drop_first() =~= text_between(clusters, i + 1, n));
    }
}

/// An input that is nothing but blank space and line feeds yields the
/// end-of-input token alone and no error, and the scan ends on line one
/// plus the number of line feeds in the text.
///
/// The input is taken cluster by cluster: a carriage return that is
/// directly followed by a line feed forms one cluster with it, which is no
/// blank, and such an input is not covered.
pub proof fn lemma_blank_input(clusters: Seq<Seq<char>>)
    requires
        forall|k: int| 0 <= k < clusters.len() ==> is_blank(#[trigger] clusters[k]),
    ensures
        scan(clusters).line == 1 + line_feeds(clusters.flatten()),
        scan(clusters).tokens == seq![end_token(scan(clusters).line)],
        scan(clusters).errors == Seq::<ErrorView>::empty(),
{
    lemma_blank_rest(clusters, 0, 1);
    assert(clusters.subrange(0, clusters.len() as int) =~= clusters);
}

/// A cluster that the table does not know yields exactly one error, which
/// carries the cluster and the current line, and yields no token; the scan
/// goes on behind it on the same line.
pub proof fn lemma_unexpected_character(clusters: Seq<Seq<char>>, i: int, line: nat)
    requires
        0 <= i < clusters.len(),
        TokenType::classify(clusters[i]) == Some(TokenType::ERROR),
    ensures
        scan_from(clusters, i, line).errors == seq![
            ErrorView { error_type: ErrorTypeView::UnexpectedCharacter(clusters[i]), line },
        ] + scan_from(clusters, i + 1, line).errors,
        scan_from(clusters, i, line).tokens == scan_from(clusters, i + 1, line).tokens,
        scan_from(clusters, i, line).line == scan_from(clusters, i + 1, line).line,
        scan_from(clusters, i, line).errors.len() > 0,
{
}

/// `=`, `!`, `<` and `>` directly followed by `=` make one two-character
/// token; followed by anything else, or by the end of the input, each makes
/// its one-character token, and the scan goes on with what follows.
pub proof fn lemma_operator(clusters: Seq<Seq<char>>, i: int, line: nat, op: char)
    requires
        0 <= i < clusters.len(),
        op == '=' || op == '!' || op == '<' || op == '>',
        clusters[i] == seq![op],
    ensures
        cluster_is(clusters, i + 1, '=') ==> scan_from(clusters, i, line).tokens == seq![
            TokenView {
                token_type: with_equal(TokenType::of_char(op)->0),
                literal: None,
                text: seq![op, '='],
                line,
            },
        ] + scan_from(clusters, i + 2, line).tokens && scan_from(clusters, i, line).errors
            == scan_from(clusters, i + 2, line).errors,
        !cluster_is(clusters, i + 1, '=') ==> scan_from(clusters, i, line).tokens == seq![
            TokenView { token_type: TokenType::of_char(op)->0, literal: None, text: seq![op], line },
        ] + scan_from(clusters, i + 1, line).tokens && scan_from(clusters, i, line).errors
            == scan_from(clusters, i + 1, line).errors,
{
    lemma_text_of_one(clusters, i);
    if cluster_is(clusters, i + 1, '=') {
        lemma_text_of_two(clusters, i);
        assert(seq![op] + seq!['='] =~= seq![op, '=']);
    }
}

/// Two slashes open a comment. Nothing in it becomes a token or an error:
/// the scan goes on at the next line feed, or ends if there is none. That
/// line feed is not part of the comment, so the line counter still counts
/// it.
pub proof fn lemma_line_comment(clusters: Seq<Seq<char>>, i: int, line: nat)
    requires
        cluster_is(clusters, i, '/'),
        cluster_is(clusters, i + 1, '/'),
    ensures
        i + 2 <= first_at_or_after(clusters, i + 2, '\n') <= clusters.len(),
        scan_from(clusters, i, line) == scan_from(
            clusters,
            first_at_or_after(clusters, i + 2, '\n'),
            line,
        ),
        first_at_or_after(clusters, i + 2, '\n') < clusters.len() ==> scan_from(clusters, i, line)
            == scan_from(clusters, first_at_or_after(clusters, i + 2, '\n') + 1, line + 1),
{
    let end = first_at_or_after(clusters, i + 2, '\n');
    lemma_first_at_or_after(clusters, i + 2, '\n');
    let rest = scan_from(clusters, end, line);
    assert(scan_from(clusters, i, line).tokens =~= rest.tokens);
    assert(scan_from(clusters, i, line).errors =~= rest.errors);
    if end < clusters.len() {
        let next = scan_from(clusters, end + 1, line + 1);
        assert(rest.tokens =~= next.tokens);
        assert(rest.errors =~= next.errors);
    }
}

/// A quote opens a string literal. If another quote follows, the two and
/// what lies between them make one string token: its lexeme is the text
/// with both quotes, its literal the text between them, its line the line
/// of the opening quote; the scan goes on behind the closing quote with the
/// line counter unchanged. If no quote follows, there is no token: one
/// error is recorded on the line of the opening quote, with the text from
/// that quote to the end of the input, and the scan ends.
pub proof fn lemma_string_literal(clusters: Seq<Seq<char>>, i: int, line: nat)
    requires
        cluster_is(clusters, i, '"'),
    ensures
        i + 1 <= first_at_or_after(clusters, i + 1, '"') <= clusters.len(),
        first_at_or_after(clusters, i + 1, '"') < clusters.len() ==> {
            let close = first_at_or_after(clusters, i + 1, '"');
            let inner = text_between(clusters, i + 1, close);
            &&& scan_from(clusters, i, line).tokens == seq![
                TokenView {
                    token_type: TokenType::STRING,
                    literal: Some(LiteralView::String(inner)),
                    text: seq!['"'] + inner + seq!['"'],
                    line,
                },
            ] + scan_from(clusters, close + 1, line).tokens
            &&& scan_from(clusters, i, line).errors == scan_from(clusters, close + 1, line).errors
            &&& scan_from(clusters, i, line).line == scan_from(clusters, close + 1, line).line
        },
        first_at_or_after(clusters, i + 1, '"') == clusters.len() ==> {
            &&& scan_from(clusters, i, line).tokens == seq![end_token(line)]
            &&& scan_from(clusters, i, line).errors == seq![
                ErrorView {
                    error_type: ErrorTypeView::UnterminatedString(
                        text_between(clusters, i, clusters.len() as int),
                    ),
                    line,
                },
            ]
            &&& scan_from(clusters, i, line).line == line
        },
{
    let n = clusters.len() as int;
    let close = first_at_or_after(clusters, i + 1, '"');
    lemma_first_at_or_after(clusters, i + 1, '"');
    if close < n {
        assert(clusters.subrange(i, close + 1) =~= seq![clusters[i]] + clusters.subrange(
            i + 1,
            close,
        ) + seq![clusters[close]]);
        lemma_text_between_extend(clusters, i, close);
        assert(clusters.subrange(i, close).drop_first() =~= clusters.subrange(i + 1, close));
    } else {
        assert(scan_from(clusters, n, line).tokens =~= seq![end_token(line)]);
        assert(scan_from(clusters, i, line).tokens =~= seq![end_token(line)]);
        assert(scan_from(clusters, i, line).errors =~= seq![
            ErrorView {
                error_type: ErrorTypeView::UnterminatedString(text_between(clusters, i, n)),
                line,
            },
        ]);
    }
}

/// How many characters of the text stand before cluster `k`.
pub open spec fn offset(clusters: Seq<Seq<char>>, k: int) -> int {
    text_between(clusters, 0, k).len() as int
}

/// The text of a run of clusters is a contiguous slice of the whole text:
/// it begins where its first cluster begins and ends where its last
/// cluster ends.
pub proof fn lemma_text_between_is_slice(clusters: Seq<Seq<char>>, from: int, to: int)
    requires
        0 <= from <= to <= clusters.len(),
    ensures
        0 <= offset(clusters, from) <= offset(clusters, to) <= clusters.flatten().len(),
        text_between(clusters, from, to) == clusters.flatten().subrange(
            offset(clusters, from),
            offset(clusters, to),
        ),
{
    let n = clusters.len() as int;
    let before = clusters.subrange(0, from);
    let run = clusters.subrange(from, to);
    let after = clusters.subrange(to, n);
    assert(clusters.subrange(0, to) =~= before + run);
    assert(clusters =~= clusters.subrange(0, to) + after);
    vstd::seq_lib::lemma_flatten_concat(before, run);
    vstd::seq_lib::lemma_flatten_concat(clusters.subrange(0, to), after);
    assert(clusters.flatten().subrange(offset(clusters, from), offset(clusters, to))
        =~= run.flatten());
}

/// `text` is what some run of clusters at or after position `from` spells.
pub open spec fn is_run_of(text: Seq<char>, clusters: Seq<Seq<char>>, from: int) -> bool {
    exists|a: int, b: int|
        from <= a <= b <= clusters.len() && text == #[trigger] text_between(clusters, a, b)
}

/// Every token's lexeme is the source exactly as written: the text of a
/// run of clusters that lies at or after the point where the scan began.
pub proof fn lemma_lexemes_are_runs(clusters: Seq<Seq<char>>, i: int, line: nat)
    requires
        0 <= i <= clusters.len(),
    ensures
        forall|k: int|
            0 <= k < scan_from(clusters, i, line).tokens.len() ==> is_run_of(
                (#[trigger] scan_from(clusters, i, line).tokens[k]).text,
                clusters,
                i,
            ),
    decreases clusters.len() - i,
{
    let n = clusters.len() as int;
    let tokens = scan_from(clusters, i, line).tokens;
    if i < n {
        lemma_step_end_bounds(clusters, i);
        lemma_first_at_or_after(clusters, i + 1, '"');
        let next = step_end(clusters, i);
        let rest = scan_from(clusters, next, step_line(clusters, i, line)).tokens;
        lemma_lexemes_are_runs(clusters, next, step_line(clusters, i, line));
        let first = step_token(clusters, i, line);
        assert forall|k: int| 0 <= k < tokens.len() implies is_run_of(
            (#[trigger] tokens[k]).text,
            clusters,
            i,
        ) by {
            if first is Some && k == 0 {
                let text = first->0.text;
                assert(text == text_between(clusters, i, i + 1) || text == text_between(
                    clusters,
                    i,
                    i + 2,
                ) || text == text_between(clusters, i, next));
            } else {
                let j = if first is Some {
                    k - 1
                } else {
                    k
                };
                assert(is_run_of(rest[j].text, clusters, next));
            }
        }
    }
}

} // verus!
