//! The scanner: a cursor over the grapheme clusters of a source text, and
//! the tokens and errors gathered so far.

use crate::error::{Error, ErrorType, ErrorView};
use crate::graphemes::{
    extended_grapheme_clusters, lemma_cluster_count_le_text_len, lemma_text_between_extend,
    no_empty_cluster, split_graphemes, text_between,
};
use crate::laws::lemma_scan_ends_with_end_token;
use crate::rules::{
    cluster_is, emitted, end_token, first_at_or_after, lemma_first_at_or_after_is,
    lemma_step_end_bounds, scan_from, step_end, step_error, step_line, step_token,
};
use crate::token::{Literal, Token, TokenType, TokenView};
use vstd::prelude::*;
use vstd::string::*;

verus! {

/// A scanner over one source text.
///
/// It holds the text as its grapheme clusters, a bookmark where the token
/// being built began, the cursor, the line counter, and what it has emitted.
pub struct Scanner {
    graphemes: Vec<String>,
    tokens: Vec<Token>,
    errors: Vec<Error>,
    start: usize,
    current: usize,
    line: usize,
    has_errors: bool,
}

/// The mathematical value of a [`Scanner`].
pub struct ScannerView {
    /// The source text, cut into grapheme clusters.
    pub clusters: Seq<Seq<char>>,
    /// The tokens emitted so far, in source order.
    pub tokens: Seq<TokenView>,
    /// The errors recorded so far, in source order.
    pub errors: Seq<ErrorView>,
    /// Where the token being built began.
    pub start: nat,
    /// The cursor: how many clusters have been consumed.
    pub current: nat,
    /// The line counter, starting at one.
    pub line: nat,
    /// Whether any error has been recorded.
    pub has_errors: bool,
}

impl ScannerView {
    /// A scanner that has not yet looked at its text.
    pub open spec fn initial(clusters: Seq<Seq<char>>) -> ScannerView {
        ScannerView {
            clusters,
            tokens: Seq::empty(),
            errors: Seq::empty(),
            start: 0,
            current: 0,
            line: 1,
            has_errors: false,
        }
    }

    /// The source text as a whole.
    pub open spec fn source(self) -> Seq<char> {
        self.clusters.flatten()
    }

    /// What holds of every scanner: no cluster is empty, and their number
    /// leaves the line counter room; the bookmark is not past the cursor,
    /// which is not past the end; the line counter starts at one and has
    /// grown by at most one per consumed cluster; and the error flag is set
    /// exactly when an error has been recorded.
    pub open spec fn wf(self) -> bool {
        &&& no_empty_cluster(self.clusters)
        &&& self.clusters.len() < usize::MAX
        &&& self.start <= self.current <= self.clusters.len()
        &&& 1 <= self.line <= self.current + 1
        &&& self.has_errors <==> self.errors.len() > 0
    }

    /// The cursor stands at the end of the input.
    pub open spec fn at_end(self) -> bool {
        self.current == self.clusters.len()
    }

    /// This scanner after the token `token` has been emitted.
    pub open spec fn with_token(self, token: TokenView) -> ScannerView {
        ScannerView { tokens: self.tokens.push(token), ..self }
    }

    /// This scanner after the error `error` has been recorded.
    pub open spec fn with_error(self, error: ErrorView) -> ScannerView {
        ScannerView { errors: self.errors.push(error), has_errors: true, ..self }
    }

    /// This scanner with the cursor moved to `current`.
    pub open spec fn with_cursor(self, current: nat) -> ScannerView {
        ScannerView { current, ..self }
    }

    /// This scanner after it has dealt with what begins under its cursor:
    /// the bookmark is set there, the cursor and the line counter move on as
    /// the rules say, and the token or the error that the rules name, if
    /// any, is added.
    pub open spec fn step(self) -> ScannerView {
        let i = self.current as int;
        let error = step_error(self.clusters, i, self.line);
        ScannerView {
            clusters: self.clusters,
            tokens: self.tokens + emitted(step_token(self.clusters, i, self.line)),
            errors: self.errors + emitted(error),
            start: self.current,
            current: step_end(self.clusters, i) as nat,
            line: step_line(self.clusters, i, self.line),
            has_errors: self.has_errors || error is Some,
        }
    }
}

impl View for Scanner {
    type V = ScannerView;

    closed spec fn view(&self) -> ScannerView {
        ScannerView {
            clusters: self.graphemes.deep_view(),
            tokens: self.tokens.deep_view(),
            errors: self.errors.deep_view(),
            start: self.start as nat,
            current: self.current as nat,
            line: self.line as nat,
            has_errors: self.has_errors,
        }
    }
}

/// Whether `text` is the single character `c`.
fn is_symbol(text: &str, c: char) -> (same: bool)
    ensures
        same == (text@ == seq![c]),
{
    if text.unicode_len() == 1 {
        let a: char = text.get_char(0);
        assert(text@ =~= seq![a]);
        a == c
    } else {
        false
    }
}

impl Scanner {
    /// A scanner at the start of `source`.
    ///
    /// The text is cut into extended grapheme clusters here, once. It has
    /// to be shorter than `usize::MAX` characters, so that the line counter,
    /// which starts at one, can count every line feed in it.
    pub fn new(source: String) -> (scanner: Scanner)
        requires
            source@.len() < usize::MAX,
        ensures
            scanner@ == ScannerView::initial(extended_grapheme_clusters(source@)),
            scanner@.source() == source@,
            scanner@.wf(),
    {
        let graphemes = split_graphemes(source.as_str());
        proof {
            lemma_cluster_count_le_text_len(graphemes.deep_view());
        }
        let scanner = Scanner {
            graphemes,
            tokens: Vec::new(),
            errors: Vec::new(),
            start: 0,
            current: 0,
            line: 1,
            has_errors: false,
        };
        assert(scanner.tokens.deep_view() =~= Seq::empty());
        assert(scanner.errors.deep_view() =~= Seq::empty());
        scanner
    }

    /// A scanner at the start of `source`, or `None` if the text is too long
    /// for [`Scanner::new`].
    pub fn try_new(source: String) -> (scanner: Option<Scanner>)
        ensures
            scanner is Some <==> source@.len() < usize::MAX,
            scanner matches Some(s) ==> s@ == ScannerView::initial(
                extended_grapheme_clusters(source@),
            ) && s@.source() == source@ && s@.wf(),
    {
        if source.as_str().unicode_len() < usize::MAX {
            Some(Scanner::new(source))
        } else {
            None
        }
    }

    /// A scanner at the start of a text that is given as its clusters, or
    /// `None` if a cluster is empty or there are too many of them to count
    /// lines over.
    pub fn from_clusters(clusters: Vec<String>) -> (scanner: Option<Scanner>)
        ensures
            scanner is Some <==> no_empty_cluster(clusters.deep_view()) && clusters.len()
                < usize::MAX,
            scanner matches Some(s) ==> s@ == ScannerView::initial(clusters.deep_view())
                && s@.wf(),
    {
        if clusters.len() == usize::MAX {
            return None;
        }
        let mut i: usize = 0;
        while i < clusters.len()
            invariant
                i <= clusters.len(),
                forall|k: int| 0 <= k < i ==> (#[trigger] clusters.deep_view()[k]).len() > 0,
            decreases clusters.len() - i,
        {
            if clusters[i].as_str().unicode_len() == 0 {
                assert(clusters.deep_view()[i as int].len() == 0);
                return None;
            }
            i += 1;
        }
        let scanner = Scanner {
            graphemes: clusters,
            tokens: Vec::new(),
            errors: Vec::new(),
            start: 0,
            current: 0,
            line: 1,
            has_errors: false,
        };
        assert(scanner.tokens.deep_view() =~= Seq::empty());
        assert(scanner.errors.deep_view() =~= Seq::empty());
        Some(scanner)
    }

    /// The tokens emitted so far.
    pub fn tokens(&self) -> (tokens: &Vec<Token>)
        ensures
            tokens.deep_view() == self@.tokens,
    {
        &self.tokens
    }

    /// The errors recorded so far.
    pub fn errors(&self) -> (errors: &Vec<Error>)
        ensures
            errors.deep_view() == self@.errors,
    {
        &self.errors
    }

    /// Whether any error has been recorded.
    pub fn has_errors(&self) -> (flag: bool)
        ensures
            flag == self@.has_errors,
    {
        self.has_errors
    }

    /// The exit code a program that scanned this text ends with: 65 if
    /// any error was recorded, 0 otherwise.
    pub fn exit_code(&self) -> (code: i32)
        ensures
            code == if self@.has_errors {
                65i32
            } else {
                0i32
            },
    {
        if self.has_errors {
            65
        } else {
            0
        }
    }

    /// The line counter.
    pub fn line(&self) -> (line: usize)
        ensures
            line == self@.line,
    {
        self.line
    }

    /// Whether the cursor stands at the end of the input.
    pub fn eof(&self) -> (at_end: bool)
        ensures
            at_end == self@.at_end(),
    {
        self.current == self.graphemes.len()
    }

    /// The cluster under the cursor, which stays where it is.
    pub fn peek(&self) -> (cluster: &str)
        requires
            self@.wf(),
            !self@.at_end(),
        ensures
            cluster@ == self@.clusters[self@.current as int],
    {
        self.graphemes[self.current].as_str()
    }

    /// Consumes the cluster under the cursor and returns it.
    pub fn advance(&mut self) -> (cluster: &str)
        requires
            old(self)@.wf(),
            !old(self)@.at_end(),
        ensures
            final(self)@ == old(self)@.with_cursor(old(self)@.current + 1),
            final(self)@.wf(),
            cluster@ == old(self)@.clusters[old(self)@.current as int],
    {
        self.current += 1;
        self.graphemes[self.current - 1].as_str()
    }

    /// Consumes the cluster under the cursor if it is the character `c`,
    /// and says whether it did.
    pub fn is_compound_token(&mut self, c: char) -> (taken: bool)
        requires
            old(self)@.wf(),
        ensures
            taken == (!old(self)@.at_end() && old(self)@.clusters[old(self)@.current as int]
                == seq![c]),
            taken ==> final(self)@ == old(self)@.with_cursor(old(self)@.current + 1),
            !taken ==> final(self)@ == old(self)@,
            final(self)@.wf(),
    {
        if self.eof() {
            return false;
        }
        if is_symbol(self.graphemes[self.current].as_str(), c) {
            self.current += 1;
            true
        } else {
            false
        }
    }

    /// The text of the clusters from `start` up to, not including, `end`.
    /// Positions past the end of the input count as the end.
    pub fn substr(&self, start: usize, end: usize) -> (text: String)
        requires
            start <= end,
        ensures
            text@ == text_between(
                self@.clusters,
                if start <= self@.clusters.len() {
                    start as int
                } else {
                    self@.clusters.len() as int
                },
                if end <= self@.clusters.len() {
                    end as int
                } else {
                    self@.clusters.len() as int
                },
            ),
    {
        let n: usize = self.graphemes.len();
        let from: usize = if start <= n {
            start
        } else {
            n
        };
        let to: usize = if end <= n {
            end
        } else {
            n
        };
        let mut text = String::new();
        let mut i: usize = from;
        while i < to
            invariant
                from <= i <= to <= self.graphemes.len(),
                text@ == text_between(self@.clusters, from as int, i as int),
            decreases to - i,
        {
            proof {
                lemma_text_between_extend(self@.clusters, from as int, i as int);
            }
            text.append(self.graphemes[i].as_str());
            i += 1;
        }
        text
    }

    /// Records an error of the given kind on the current line and sets the
    /// error flag.
    pub fn add_error(&mut self, error_type: ErrorType)
        requires
            old(self)@.wf(),
        ensures
            final(self)@ == old(self)@.with_error(
                ErrorView { error_type: error_type@, line: old(self)@.line },
            ),
            final(self)@.wf(),
    {
        self.has_errors = true;
        let error = Error { error_type, line: self.line };
        self.errors.push(error);
        assert(self.errors.deep_view() =~= old(self).errors.deep_view().push(error@));
    }

    /// Emits a token of the given kind on the current line. Its lexeme is
    /// the text between the bookmark and the cursor; an end-of-input token
    /// has none.
    pub fn add_token(&mut self, token_type: TokenType, literal: Option<Literal>)
        requires
            old(self)@.wf(),
        ensures
            final(self)@ == old(self)@.with_token(
                TokenView {
                    token_type,
                    literal: match literal {
                        Some(l) => Some(l@),
                        None => None,
                    },
                    text: if token_type == TokenType::EOF {
                        Seq::empty()
                    } else {
                        text_between(
                            old(self)@.clusters,
                            old(self)@.start as int,
                            old(self)@.current as int,
                        )
                    },
                    line: old(self)@.line,
                },
            ),
            final(self)@.wf(),
    {
        let text = if token_type == TokenType::EOF {
            String::new()
        } else {
            self.substr(self.start, self.current)
        };
        let token = Token { token_type, literal, text, line: self.line };
        self.tokens.push(token);
        assert(self.tokens.deep_view() =~= old(self).tokens.deep_view().push(token@));
    }

    /// Moves the cursor to the next cluster that is the character `c`, or
    /// to the end of the input if there is none.
    fn skip_to(&mut self, c: char)
        requires
            old(self)@.wf(),
        ensures
            final(self)@ == old(self)@.with_cursor(final(self)@.current),
            final(self)@.current == first_at_or_after(
                old(self)@.clusters,
                old(self)@.current as int,
                c,
            ),
            old(self)@.current <= final(self)@.current <= old(self)@.clusters.len(),
            final(self)@.wf(),
    {
        while !self.eof() && !is_symbol(self.peek(), c)
            invariant
                self@ == old(self)@.with_cursor(self@.current),
                old(self)@.current <= self@.current <= self@.clusters.len(),
                self@.wf(),
                forall|k: int|
                    old(self)@.current <= k < self@.current ==> !cluster_is(self@.clusters, k, c),
            decreases self@.clusters.len() - self@.current,
        {
            self.current += 1;
        }
        proof {
            lemma_first_at_or_after_is(
                self@.clusters,
                old(self)@.current as int,
                c,
                self@.current as int,
            );
        }
    }

    /// Deals with what begins under the cursor: sets the bookmark, consumes
    /// one token, comment, line feed, blank or unrecognised character, and
    /// emits the token or records the error that the rules name for it.
    pub fn scan_token(&mut self)
        requires
            old(self)@.wf(),
            !old(self)@.at_end(),
        ensures
            final(self)@ == old(self)@.step(),
            final(self)@.wf(),
            old(self)@.current < final(self)@.current,
    {
        proof {
            lemma_step_end_bounds(self@.clusters, self@.current as int);
        }
        self.start = self.current;
        let c = self.advance();
        if let Some(lexeme) = TokenType::parse(c) {
            match lexeme {
                TokenType::BANG => {
                    if self.is_compound_token('=') {
                        self.add_token(TokenType::BANG_EQUAL, None);
                    } else {
                        self.add_token(lexeme, None);
                    }
                },
                TokenType::EQUAL => {
                    if self.is_compound_token('=') {
                        self.add_token(TokenType::EQUAL_EQUAL, None);
                    } else {
                        self.add_token(lexeme, None);
                    }
                },
                TokenType::ERROR => {
                    let unexpected_char = String::from_str(c);
                    self.add_error(ErrorType::UnexpectedCharacter(unexpected_char));
                },
                TokenType::GREATER => {
                    if self.is_compound_token('=') {
                        self.add_token(TokenType::GREATER_EQUAL, None);
                    } else {
                        self.add_token(lexeme, None);
                    }
                },
                TokenType::LESS => {
                    if self.is_compound_token('=') {
                        self.add_token(TokenType::LESS_EQUAL, None);
                    } else {
                        self.add_token(lexeme, None);
                    }
                },
                TokenType::LINE_BREAK => {
                    self.line += 1;
                },
                TokenType::SLASH => {
                    if self.is_compound_token('/') {
                        self.skip_to('\n');
                    } else {
                        self.add_token(lexeme, None);
                    }
                },
                TokenType::STRING => {
                    self.skip_to('"');
                    if !self.eof() {
                        self.current += 1;
                        let value = self.substr(self.start + 1, self.current - 1);
                        self.add_token(lexeme, Some(Literal::String(value)));
                    } else {
                        let partial = self.substr(self.start, self.current);
                        self.add_error(ErrorType::UnterminatedString(partial));
                    }
                },
                _ => {
                    self.add_token(lexeme, None);
                },
            }
        }
        proof {
            assert(self@.tokens =~= old(self)@.step().tokens);
            assert(self@.errors =~= old(self)@.step().errors);
        }
    }

    /// Scans the rest of the input: emits every token and records every
    /// error from the cursor on, counting lines, and closes with the
    /// end-of-input token.
    pub fn scan_tokens(&mut self)
        requires
            old(self)@.wf(),
        ensures
            final(self)@.wf(),
            final(self)@.clusters == old(self)@.clusters,
            final(self)@.tokens == old(self)@.tokens + scan_from(
                old(self)@.clusters,
                old(self)@.current as int,
                old(self)@.line,
            ).tokens,
            final(self)@.errors == old(self)@.errors + scan_from(
                old(self)@.clusters,
                old(self)@.current as int,
                old(self)@.line,
            ).errors,
            final(self)@.line == scan_from(
                old(self)@.clusters,
                old(self)@.current as int,
                old(self)@.line,
            ).line,
            final(self)@.at_end(),
            final(self)@.start == final(self)@.current,
            final(self)@.tokens.len() > old(self)@.tokens.len(),
            final(self)@.tokens.last() == end_token(final(self)@.line),
            final(self)@.has_errors == (old(self)@.has_errors || scan_from(
                old(self)@.clusters,
                old(self)@.current as int,
                old(self)@.line,
            ).errors.len() > 0),
    {
        let ghost init = self@;
        let ghost whole = scan_from(init.clusters, init.current as int, init.line);
        while !self.eof()
            invariant
                self@.wf(),
                self@.clusters == init.clusters,
                init.tokens + whole.tokens == self@.tokens + scan_from(
                    self@.clusters,
                    self@.current as int,
                    self@.line,
                ).tokens,
                init.errors + whole.errors == self@.errors + scan_from(
                    self@.clusters,
                    self@.current as int,
                    self@.line,
                ).errors,
                whole.line == scan_from(self@.clusters, self@.current as int, self@.line).line,
            decreases self@.clusters.len() - self@.current,
        {
            proof {
                lemma_scan_from_step(self@);
                lemma_step_end_bounds(self@.clusters, self@.current as int);
            }
            self.scan_token();
        }
        self.start = self.current;
        self.add_token(TokenType::EOF, None);
        proof {
            lemma_scan_ends_with_end_token(init.clusters, init.current as int, init.line);
        }
    }
}

/// One step does not change what the scan as a whole yields: what a scanner
/// has emitted together with what the rest of the scan yields is the same
/// before the step and after it.
pub proof fn lemma_scan_from_step(v: ScannerView)
    requires
        v.current < v.clusters.len(),
    ensures
        v.tokens + scan_from(v.clusters, v.current as int, v.line).tokens == v.step().tokens
            + scan_from(v.clusters, v.step().current as int, v.step().line).tokens,
        v.errors + scan_from(v.clusters, v.current as int, v.line).errors == v.step().errors
            + scan_from(v.clusters, v.step().current as int, v.step().line).errors,
        scan_from(v.clusters, v.current as int, v.line).line == scan_from(
            v.clusters,
            v.step().current as int,
            v.step().line,
        ).line,
{
    lemma_step_end_bounds(v.clusters, v.current as int);
}

} // verus!
