//! The lexical rules, as mathematics.
//!
//! Everything here speaks of a source text that has already been cut into
//! grapheme clusters, `Seq<Seq<char>>`, and of positions in that sequence.
//! [`scan_from`] says what a whole scan yields; the `step_*` functions say
//! what the scanner does with the one piece of input that begins at a given
//! position.

use crate::error::{ErrorTypeView, ErrorView};
use crate::graphemes::text_between;
use crate::token::{LiteralView, TokenType, TokenView};
use vstd::prelude::*;

verus! {

/// There is a cluster at position `i`, and it is the single character `c`.
pub open spec fn cluster_is(clusters: Seq<Seq<char>>, i: int, c: char) -> bool {
    0 <= i < clusters.len() && clusters[i] == seq![c]
}

/// The first position at or after `from` whose cluster is the single
/// character `c`; the number of clusters if there is none.
pub open spec fn first_at_or_after(clusters: Seq<Seq<char>>, from: int, c: char) -> int
    decreases clusters.len() - from,
{
    if from >= clusters.len() {
        clusters.len() as int
    } else if clusters[from] == seq![c] {
        from
    } else {
        first_at_or_after(clusters, from + 1, c)
    }
}

/// [`first_at_or_after`] lies between `from` and the end, nothing before it
/// matches, and it matches unless it is the end.
pub proof fn lemma_first_at_or_after(clusters: Seq<Seq<char>>, from: int, c: char)
    requires
        0 <= from <= clusters.len(),
    ensures
        from <= first_at_or_after(clusters, from, c) <= clusters.len(),
        forall|k: int|
            from <= k < first_at_or_after(clusters, from, c) ==> !cluster_is(clusters, k, c),
        first_at_or_after(clusters, from, c) < clusters.len() ==> cluster_is(
            clusters,
            first_at_or_after(clusters, from, c),
            c,
        ),
    decreases clusters.len() - from,
{
    if from < clusters.len() && clusters[from] != seq![c] {
        lemma_first_at_or_after(clusters, from + 1, c);
    }
}

/// A position that nothing before it matches, and that matches or is the
/// end, is the one [`first_at_or_after`] names.
pub proof fn lemma_first_at_or_after_is(clusters: Seq<Seq<char>>, from: int, c: char, at: int)
    requires
        0 <= from <= at <= clusters.len(),
        forall|k: int| from <= k < at ==> !cluster_is(clusters, k, c),
        at < clusters.len() ==> cluster_is(clusters, at, c),
    ensures
        first_at_or_after(clusters, from, c) == at,
    decreases at - from,
{
    if from < at {
        assert(!cluster_is(clusters, from, c));
        lemma_first_at_or_after_is(clusters, from + 1, c, at);
    }
}

/// The kinds that a following `=` turns into a two-character operator.
pub open spec fn takes_equal(kind: TokenType) -> bool {
    kind == TokenType::BANG || kind == TokenType::EQUAL || kind == TokenType::LESS || kind
        == TokenType::GREATER
}

/// The two-character operator that `kind` followed by `=` makes.
pub open spec fn with_equal(kind: TokenType) -> TokenType {
    match kind {
        TokenType::BANG => TokenType::BANG_EQUAL,
        TokenType::EQUAL => TokenType::EQUAL_EQUAL,
        TokenType::LESS => TokenType::LESS_EQUAL,
        TokenType::GREATER => TokenType::GREATER_EQUAL,
        other => other,
    }
}

/// The end-of-input token for a scan that ends on line `line`.
pub open spec fn end_token(line: nat) -> TokenView {
    TokenView { token_type: TokenType::EOF, literal: None, text: Seq::empty(), line }
}

/// Where the cursor stands once the scanner has dealt with what begins at
/// position `i`.
///
/// A one-character operator takes a following `=` with it. Two slashes open
/// a comment that runs up to, not including, the next line feed. A quote
/// opens a string that runs through the next quote, or to the end of the
/// input if none follows. Everything else is one cluster long.
pub open spec fn step_end(clusters: Seq<Seq<char>>, i: int) -> int {
    match TokenType::classify(clusters[i]) {
        Some(TokenType::SLASH) => if cluster_is(clusters, i + 1, '/') {
            first_at_or_after(clusters, i + 2, '\n')
        } else {
            i + 1
        },
        Some(TokenType::STRING) => {
            let quote = first_at_or_after(clusters, i + 1, '"');
            if quote < clusters.len() {
                quote + 1
            } else {
                clusters.len() as int
            }
        },
        Some(kind) => if takes_equal(kind) && cluster_is(clusters, i + 1, '=') {
            i + 2
        } else {
            i + 1
        },
        None => i + 1,
    }
}

/// The line counter after what begins at position `i`: one more after a
/// line feed that stands between tokens, unchanged otherwise. Line feeds
/// inside a string literal do not count.
pub open spec fn step_line(clusters: Seq<Seq<char>>, i: int, line: nat) -> nat {
    if TokenType::classify(clusters[i]) == Some(TokenType::LINE_BREAK) {
        line + 1
    } else {
        line
    }
}

/// The token, if any, that what begins at position `i` yields when the line
/// counter stands at `line`.
pub open spec fn step_token(clusters: Seq<Seq<char>>, i: int, line: nat) -> Option<TokenView> {
    match TokenType::classify(clusters[i]) {
        None => None,
        Some(TokenType::LINE_BREAK) => None,
        Some(TokenType::ERROR) => None,
        Some(TokenType::SLASH) => if cluster_is(clusters, i + 1, '/') {
            None
        } else {
            Some(
                TokenView {
                    token_type: TokenType::SLASH,
                    literal: None,
                    text: text_between(clusters, i, i + 1),
                    line,
                },
            )
        },
        Some(TokenType::STRING) => {
            let quote = first_at_or_after(clusters, i + 1, '"');
            if quote < clusters.len() {
                Some(
                    TokenView {
                        token_type: TokenType::STRING,
                        literal: Some(LiteralView::String(text_between(clusters, i + 1, quote))),
                        text: text_between(clusters, i, quote + 1),
                        line,
                    },
                )
            } else {
                None
            }
        },
        Some(kind) => if takes_equal(kind) && cluster_is(clusters, i + 1, '=') {
            Some(
                TokenView {
                    token_type: with_equal(kind),
                    literal: None,
                    text: text_between(clusters, i, i + 2),
                    line,
                },
            )
        } else {
            Some(
                TokenView {
                    token_type: kind,
                    literal: None,
                    text: text_between(clusters, i, i + 1),
                    line,
                },
            )
        },
    }
}

/// The error, if any, that what begins at position `i` yields when the line
/// counter stands at `line`.
pub open spec fn step_error(clusters: Seq<Seq<char>>, i: int, line: nat) -> Option<ErrorView> {
    match TokenType::classify(clusters[i]) {
        Some(TokenType::ERROR) => Some(
            ErrorView { error_type: ErrorTypeView::UnexpectedCharacter(clusters[i]), line },
        ),
        Some(TokenType::STRING) => if first_at_or_after(clusters, i + 1, '"') < clusters.len() {
            None
        } else {
            Some(
                ErrorView {
                    error_type: ErrorTypeView::UnterminatedString(
                        text_between(clusters, i, clusters.len() as int),
                    ),
                    line,
                },
            )
        },
        _ => None,
    }
}

/// Every step moves the cursor forward and stays within the input.
pub proof fn lemma_step_end_bounds(clusters: Seq<Seq<char>>, i: int)
    requires
        0 <= i < clusters.len(),
    ensures
        i < step_end(clusters, i) <= clusters.len(),
{
    lemma_first_at_or_after(clusters, i + 1, '"');
    if i + 2 <= clusters.len() {
        lemma_first_at_or_after(clusters, i + 2, '\n');
    }
}

/// No item, or the one item.
pub open spec fn emitted<A>(item: Option<A>) -> Seq<A> {
    match item {
        Some(a) => seq![a],
        None => Seq::empty(),
    }
}

/// What a scan yields: the tokens and the errors, each in source order, and
/// the line counter at the end.
pub struct Scanned {
    pub tokens: Seq<TokenView>,
    pub errors: Seq<ErrorView>,
    pub line: nat,
}

/// What scanning yields from position `i` on, with the line counter at
/// `line`: whatever each step yields, in order, and then the end-of-input
/// token.
pub open spec fn scan_from(clusters: Seq<Seq<char>>, i: int, line: nat) -> Scanned
    decreases clusters.len() - i,
{
    if 0 <= i < clusters.len() {
        proof {
            lemma_step_end_bounds(clusters, i);
        }
        let rest = scan_from(clusters, step_end(clusters, i), step_line(clusters, i, line));
        Scanned {
            tokens: emitted(step_token(clusters, i, line)) + rest.tokens,
            errors: emitted(step_error(clusters, i, line)) + rest.errors,
            line: rest.line,
        }
    } else {
        Scanned { tokens: seq![end_token(line)], errors: Seq::empty(), line }
    }
}

/// What scanning a whole text yields, from its first cluster and line one.
pub open spec fn scan(clusters: Seq<Seq<char>>) -> Scanned {
    scan_from(clusters, 0, 1)
}

} // verus!
