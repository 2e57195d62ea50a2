//! Tokenizer for the pbrt-v3 scene description format.
//!
//! Follows the rules of pbrt-v3's `pbrtlex.ll`: tokens are separated by
//! whitespace, `#` starts a comment that runs to the end of the line, quoted
//! strings may escape any byte with a backslash, and `[`/`]` are tokens of
//! their own.
use vstd::prelude::*;

use super::token::{classify, Token, TokenError, TokenErrorView, TokenView};

verus! {

pub const SPACE: u8 = 32;

pub const TAB: u8 = 9;

pub const NEWLINE: u8 = 10;

pub const CARRIAGE_RETURN: u8 = 13;

pub const HASH: u8 = 35;

pub const QUOTE: u8 = 34;

pub const BACKSLASH: u8 = 92;

pub const LEFT_BRACKET: u8 = 91;

pub const RIGHT_BRACKET: u8 = 93;

/// A line (starting from 1) and a column (starting from 0) in the input.
#[derive(Copy, Clone, Debug)]
pub struct FileLocation {
    pub line: usize,
    pub column: usize,
}

/// The kind of a [`LexerError`].
#[derive(Debug)]
pub enum LexerErrorType {
    EndOfInput,
    UnexpectedEndOfInput,
    UnterminatedString,
    InvalidNumber,
    /// A word that is neither a keyword nor a number; holds its bytes.
    UnknownIdentifier(Vec<u8>),
}

pub enum LexerErrorTypeView {
    EndOfInput,
    UnexpectedEndOfInput,
    UnterminatedString,
    InvalidNumber,
    UnknownIdentifier(Seq<u8>),
}

impl View for LexerErrorType {
    type V = LexerErrorTypeView;

    open spec fn view(&self) -> LexerErrorTypeView {
        match self {
            LexerErrorType::EndOfInput => LexerErrorTypeView::EndOfInput,
            LexerErrorType::UnexpectedEndOfInput => LexerErrorTypeView::UnexpectedEndOfInput,
            LexerErrorType::UnterminatedString => LexerErrorTypeView::UnterminatedString,
            LexerErrorType::InvalidNumber => LexerErrorTypeView::InvalidNumber,
            LexerErrorType::UnknownIdentifier(i) => LexerErrorTypeView::UnknownIdentifier(i@),
        }
    }
}

/// An error met while tokenizing, with where it was met.
#[derive(Debug)]
pub struct LexerError {
    pub error_type: LexerErrorType,
    pub location: FileLocation,
}

pub struct LexerErrorView {
    pub error_type: LexerErrorTypeView,
    pub location: FileLocation,
}

impl View for LexerError {
    type V = LexerErrorView;

    open spec fn view(&self) -> LexerErrorView {
        LexerErrorView { error_type: self.error_type@, location: self.location }
    }
}

impl LexerError {
    fn new(error_type: LexerErrorType, location: FileLocation) -> (r: Self)
        ensures
            r.error_type == error_type,
            r.location == location,
    {
        Self { error_type, location }
    }
}

// ---------------------------------------------------------------------------
// The tokenizer as a function of its state
// ---------------------------------------------------------------------------

pub open spec fn is_whitespace(b: u8) -> bool {
    b == SPACE || b == TAB || b == NEWLINE || b == CARRIAGE_RETURN
}

/// Bytes that end a word: whitespace, brackets, and the starts of comments
/// and strings.
pub open spec fn ends_word(b: u8) -> bool {
    is_whitespace(b) || b == RIGHT_BRACKET || b == LEFT_BRACKET || b == HASH || b == QUOTE
}

pub open spec fn ends_comment(b: u8) -> bool {
    b == NEWLINE || b == CARRIAGE_RETURN
}

fn is_whitespace_byte(b: u8) -> (r: bool)
    ensures
        r == is_whitespace(b),
{
    b == SPACE || b == TAB || b == NEWLINE || b == CARRIAGE_RETURN
}

fn ends_word_byte(b: u8) -> (r: bool)
    ensures
        r == ends_word(b),
{
    is_whitespace_byte(b) || b == RIGHT_BRACKET || b == LEFT_BRACKET || b == HASH || b == QUOTE
}

/// The location after reading the byte `b` at `loc`.
pub open spec fn step_location(loc: FileLocation, b: u8) -> FileLocation {
    if b == NEWLINE {
        FileLocation { line: (loc.line + 1) as usize, column: 0 }
    } else {
        FileLocation { line: loc.line, column: (loc.column + 1) as usize }
    }
}

/// The location after reading `input[from..to]` starting at `loc`.
pub open spec fn advance(loc: FileLocation, input: Seq<u8>, from: int, to: int) -> FileLocation
    decreases to - from,
{
    if to <= from {
        loc
    } else {
        step_location(advance(loc, input, from, to - 1), input[to - 1])
    }
}

/// The first index at or after `i` that does not hold whitespace, or the length.
pub open spec fn skip_whitespace(input: Seq<u8>, i: int) -> int
    decreases input.len() - i,
{
    if i >= input.len() {
        input.len() as int
    } else if is_whitespace(input[i]) {
        skip_whitespace(input, i + 1)
    } else {
        i
    }
}

/// The first index at or after `i` that ends a word, or the length.
pub open spec fn word_end(input: Seq<u8>, i: int) -> int
    decreases input.len() - i,
{
    if i >= input.len() {
        input.len() as int
    } else if ends_word(input[i]) {
        i
    } else {
        word_end(input, i + 1)
    }
}

/// The first index at or after `i` that ends a comment, or the length.
pub open spec fn comment_end(input: Seq<u8>, i: int) -> int
    decreases input.len() - i,
{
    if i >= input.len() {
        input.len() as int
    } else if ends_comment(input[i]) {
        i
    } else {
        comment_end(input, i + 1)
    }
}

/// How the body of a quoted string that starts at `i` ends.
pub enum StringEnd {
    /// The closing quote is at this index.
    Closed(int),
    /// An unescaped line feed is at this index.
    Newline(int),
    /// The input ends first.
    EndOfInput,
}

pub open spec fn string_end(input: Seq<u8>, i: int) -> StringEnd
    decreases input.len() - i,
{
    if i >= input.len() {
        StringEnd::EndOfInput
    } else if input[i] == QUOTE {
        StringEnd::Closed(i)
    } else if input[i] == BACKSLASH {
        if i + 1 >= input.len() {
            StringEnd::EndOfInput
        } else {
            string_end(input, i + 2)
        }
    } else if input[i] == NEWLINE {
        StringEnd::Newline(i)
    } else {
        string_end(input, i + 1)
    }
}

pub open spec fn saturating_dec(c: usize) -> usize {
    if c == 0 {
        0
    } else {
        (c - 1) as usize
    }
}

/// The state of a [`Lexer`].
pub struct LexerState {
    pub input: Seq<u8>,
    pub position: int,
    pub file_location: FileLocation,
    pub previous_token_location: FileLocation,
}

pub type LexResult = Result<TokenView, LexerErrorView>;

pub open spec fn lex_error(t: LexerErrorTypeView, location: FileLocation) -> LexResult {
    Err(LexerErrorView { error_type: t, location })
}

pub open spec fn lexer_result_view(r: Result<Token, LexerError>) -> LexResult {
    match r {
        Ok(t) => Ok(t@),
        Err(e) => Err(e@),
    }
}

/// The outcome of reading a quoted string whose opening quote has just been
/// read, leaving the input at `i` and the location at `loc`.
pub open spec fn lex_string(input: Seq<u8>, i: int, loc: FileLocation, prev: FileLocation) -> (
    LexResult,
    LexerState,
) {
    let len = input.len() as int;
    match string_end(input, i) {
        StringEnd::Closed(j) => (
            Ok(TokenView::String(input.subrange(i, j))),
            LexerState {
                input,
                position: j + 1,
                file_location: step_location(advance(loc, input, i, j), QUOTE),
                previous_token_location: prev,
            },
        ),
        StringEnd::Newline(j) => {
            let l = step_location(advance(loc, input, i, j), NEWLINE);
            (
                lex_error(
                    LexerErrorTypeView::UnterminatedString,
                    FileLocation { line: l.line, column: saturating_dec(l.column) },
                ),
                LexerState {
                    input,
                    position: j + 1,
                    file_location: l,
                    previous_token_location: prev,
                },
            )
        },
        StringEnd::EndOfInput => {
            let l = advance(loc, input, i, len);
            (
                lex_error(
                    LexerErrorTypeView::UnexpectedEndOfInput,
                    FileLocation { line: l.line, column: saturating_dec(l.column) },
                ),
                LexerState { input, position: len, file_location: l, previous_token_location: prev },
            )
        },
    }
}

/// The outcome of reading a word, with errors placed at `at`.
pub open spec fn word_result(t: Seq<u8>, at: FileLocation) -> LexResult {
    match classify(t) {
        Ok(tok) => Ok(tok),
        Err(TokenErrorView::InvalidNumber) => lex_error(LexerErrorTypeView::InvalidNumber, at),
        Err(TokenErrorView::UnknownIdentifier(i)) => lex_error(
            LexerErrorTypeView::UnknownIdentifier(i),
            at,
        ),
    }
}

/// What reading the next token from `st` gives, and the state after it.
///
/// Whitespace is skipped; a comment is skipped up to and including the line
/// break that ends it; a word runs up to the next whitespace, bracket, `#`
/// or `"`, or to the end of the input. Once nothing but whitespace and
/// comments is left, the result is an `EndOfInput` error.
pub open spec fn lex(st: LexerState) -> (LexResult, LexerState)
    decreases st.input.len() - st.position, 2int,
{
    let input = st.input;
    let len = input.len() as int;
    let s = skip_whitespace(input, st.position);
    let ls = advance(st.file_location, input, st.position, s);
    if s >= len {
        (
            lex_error(
                LexerErrorTypeView::EndOfInput,
                FileLocation { line: ls.line, column: saturating_dec(ls.column) },
            ),
            LexerState {
                input,
                position: len,
                file_location: ls,
                previous_token_location: st.previous_token_location,
            },
        )
    } else {
        proof {
            lemma_skip_whitespace(input, st.position);
        }
        let c = input[s];
        let lc = step_location(ls, c);
        if c == HASH {
            lex_comment(input, s, lc, ls)
        } else if c == QUOTE {
            lex_string(input, s + 1, lc, ls)
        } else if c == LEFT_BRACKET {
            (
                Ok(TokenView::LeftBracket),
                LexerState { input, position: s + 1, file_location: lc, previous_token_location: ls },
            )
        } else if c == RIGHT_BRACKET {
            (
                Ok(TokenView::RightBracket),
                LexerState { input, position: s + 1, file_location: lc, previous_token_location: ls },
            )
        } else {
            lex_word(input, s, lc)
        }
    }
}

/// Reading on after the `#` at index `h`, with `loc` the location after it:
/// the comment is skipped and the next token read.
pub open spec fn lex_comment(input: Seq<u8>, h: int, loc: FileLocation, prev: FileLocation) -> (
    LexResult,
    LexerState,
)
    decreases input.len() - h, 0int,
{
    let len = input.len() as int;
    let e = comment_end(input, h + 1);
    let le = advance(loc, input, h + 1, e);
    if e >= len {
        (
            lex_error(LexerErrorTypeView::EndOfInput, prev),
            LexerState { input, position: len, file_location: le, previous_token_location: prev },
        )
    } else {
        proof {
            lemma_comment_end(input, h + 1);
        }
        lex(
            LexerState {
                input,
                position: e + 1,
                file_location: step_location(le, input[e]),
                previous_token_location: prev,
            },
        )
    }
}

/// Reading on after the first byte of a word, at index `s`, with `lc` the
/// location after it: the word runs up to the next byte that ends words or to
/// the end of the input. Whitespace after it is read with it; a bracket, `#`
/// or `"` after it is left to be read next.
pub open spec fn lex_word(input: Seq<u8>, s: int, lc: FileLocation) -> (LexResult, LexerState) {
    let len = input.len() as int;
    let p = FileLocation { line: lc.line, column: (lc.column - 1) as usize };
    let e = word_end(input, s + 1);
    let le = advance(lc, input, s + 1, e);
    let r = word_result(input.subrange(s, e), p);
    if e < len && is_whitespace(input[e]) {
        (
            r,
            LexerState {
                input,
                position: e + 1,
                file_location: step_location(le, input[e]),
                previous_token_location: p,
            },
        )
    } else {
        (r, LexerState { input, position: e, file_location: le, previous_token_location: p })
    }
}

pub proof fn lemma_skip_whitespace(input: Seq<u8>, i: int)
    ensures
        i <= input.len() ==> i <= skip_whitespace(input, i) <= input.len(),
        0 <= skip_whitespace(input, i) < input.len() ==> !is_whitespace(
            input[skip_whitespace(input, i)],
        ),
    decreases input.len() - i,
{
    if i < input.len() && is_whitespace(input[i]) {
        lemma_skip_whitespace(input, i + 1);
    }
}

pub proof fn lemma_comment_end(input: Seq<u8>, i: int)
    ensures
        i <= input.len() ==> i <= comment_end(input, i) <= input.len(),
        0 <= comment_end(input, i) < input.len() ==> ends_comment(input[comment_end(input, i)]),
    decreases input.len() - i,
{
    if i < input.len() && !ends_comment(input[i]) {
        lemma_comment_end(input, i + 1);
    }
}

pub proof fn lemma_word_end(input: Seq<u8>, i: int)
    ensures
        i <= input.len() ==> i <= word_end(input, i) <= input.len(),
        0 <= word_end(input, i) < input.len() ==> ends_word(input[word_end(input, i)]),
    decreases input.len() - i,
{
    if i < input.len() && !ends_word(input[i]) {
        lemma_word_end(input, i + 1);
    }
}


proof fn lemma_string_end(input: Seq<u8>, i: int)
    requires
        0 <= i,
    ensures
        match string_end(input, i) {
            StringEnd::Closed(j) => i <= j < input.len(),
            StringEnd::Newline(j) => i <= j < input.len(),
            StringEnd::EndOfInput => true,
        },
    decreases input.len() - i,
{
    if i < input.len() && input[i] != QUOTE {
        if input[i] == BACKSLASH {
            if i + 1 < input.len() {
                lemma_string_end(input, i + 2);
            }
        } else if input[i] != NEWLINE {
            lemma_string_end(input, i + 1);
        }
    }
}

/// Reading a token never changes the input and never moves past its end; it
/// moves forward unless the input is used up, so reading token after token
/// reaches the end of any input.
pub proof fn lemma_lex_progress(st: LexerState)
    requires
        0 <= st.position <= st.input.len(),
    ensures
        lex(st).1.input == st.input,
        lex(st).1.position <= st.input.len(),
        st.position < st.input.len() ==> st.position < lex(st).1.position,
        st.position == st.input.len() ==> lex(st).1.position == st.position,
    decreases st.input.len() - st.position, 2int,
{
    let input = st.input;
    let s = skip_whitespace(input, st.position);
    lemma_skip_whitespace(input, st.position);
    if s < input.len() {
        let c = input[s];
        let lc = step_location(advance(st.file_location, input, st.position, s), c);
        if c == HASH {
            lemma_comment_progress(input, s, lc, advance(st.file_location, input, st.position, s));
        } else if c == QUOTE {
            lemma_string_end(input, s + 1);
        } else if c != LEFT_BRACKET && c != RIGHT_BRACKET {
            lemma_word_progress(input, s, lc);
        }
    }
}

/// Skipping a comment that starts at `h` and reading on ends after `h`.
pub proof fn lemma_comment_progress(input: Seq<u8>, h: int, loc: FileLocation, prev: FileLocation)
    requires
        0 <= h < input.len(),
    ensures
        lex_comment(input, h, loc, prev).1.input == input,
        h < lex_comment(input, h, loc, prev).1.position <= input.len(),
    decreases input.len() - h, 0int,
{
    let e = comment_end(input, h + 1);
    lemma_comment_end(input, h + 1);
    if e < input.len() {
        let le = advance(loc, input, h + 1, e);
        lemma_lex_progress(
            LexerState {
                input,
                position: e + 1,
                file_location: step_location(le, input[e]),
                previous_token_location: prev,
            },
        );
    }
}

/// Reading a word that starts at `s` ends after `s`.
pub proof fn lemma_word_progress(input: Seq<u8>, s: int, lc: FileLocation)
    requires
        0 <= s < input.len(),
    ensures
        lex_word(input, s, lc).1.input == input,
        s < lex_word(input, s, lc).1.position <= input.len(),
{
    lemma_word_end(input, s + 1);
}

/// At the end of the input, reading a token gives an `EndOfInput` error and
/// leaves the state as it was.
pub proof fn lemma_lex_at_end(st: LexerState)
    requires
        st.position == st.input.len(),
    ensures
        lex(st).0 matches Err(e) && e.error_type == LexerErrorTypeView::EndOfInput,
        lex(st).1 == st,
{
}

proof fn lemma_word_end_at(input: Seq<u8>, i: int, e: int)
    requires
        0 <= i <= e < input.len(),
        forall|k: int| i <= k < e ==> !ends_word(#[trigger] input[k]),
        ends_word(input[e]),
    ensures
        word_end(input, i) == e,
    decreases e - i,
{
    if i < e {
        lemma_word_end_at(input, i + 1, e);
    }
}

proof fn lemma_string_end_at(input: Seq<u8>, i: int, e: int)
    requires
        0 <= i <= e < input.len(),
        forall|k: int| i <= k < e ==> #[trigger] input[k] != QUOTE && input[k] != BACKSLASH && input[k]
            != NEWLINE,
        input[e] == QUOTE,
    ensures
        string_end(input, i) == StringEnd::Closed(e),
    decreases e - i,
{
    if i < e {
        lemma_string_end_at(input, i + 1, e);
    }
}

/// A word reads as what the word is (a keyword, a number, or the error for an
/// invalid number or an unknown word) whatever ends it: whitespace, which is
/// read with it; a bracket, `#` or `"`, which is read next; or the end of the
/// input, after which reading gives `EndOfInput`.
pub proof fn lemma_lex_word(w: Seq<u8>, rest: Seq<u8>, st: LexerState)
    requires
        w.len() > 0,
        forall|k: int| 0 <= k < w.len() ==> !ends_word(#[trigger] w[k]),
        rest.len() == 0 || ends_word(rest[0]),
        st.input == w + rest,
        st.position == 0,
        st.file_location.column < usize::MAX,
    ensures
        lex(st).1.previous_token_location == st.file_location,
        lex(st).0 == word_result(w, st.file_location),
        lex(st).1.position == if rest.len() > 0 && is_whitespace(rest[0]) {
            w.len() + 1int
        } else {
            w.len() as int
        },
        rest.len() == 0 ==> (lex(lex(st).1).0 matches Err(e) && e.error_type
            == LexerErrorTypeView::EndOfInput),
{
    let input = st.input;
    assert(input[0] == w[0]);
    assert(!is_whitespace(input[0]));
    assert(skip_whitespace(input, 0) == 0);
    assert forall|k: int| 1 <= k < w.len() implies !ends_word(#[trigger] input[k]) by {
        assert(input[k] == w[k]);
    }
    if rest.len() == 0 {
        lemma_word_end_at_len(input, 1);
        lemma_lex_at_end(lex(st).1);
    } else {
        assert(input[w.len() as int] == rest[0]);
        lemma_word_end_at(input, 1, w.len() as int);
    }
    assert(input.subrange(0, w.len() as int) =~= w);
}

/// The bytes that separate tokens are exactly space, tab, line feed and
/// carriage return.
pub proof fn lemma_whitespace_bytes(b: u8)
    ensures
        is_whitespace(b) <==> (b == 32 || b == 9 || b == 10 || b == 13),
{
}

/// Whether `b` can stand inside a word: it is no whitespace byte (space,
/// tab, line feed, carriage return), no bracket, and no `#` or `"`.
pub open spec fn word_byte(b: u8) -> bool {
    b != 32 && b != 9 && b != 10 && b != 13 && b != 91 && b != 93 && b != 35 && b != 34
}

proof fn lemma_advance_same(loc: FileLocation, a: Seq<u8>, b: Seq<u8>, from: int, to: int)
    requires
        0 <= from,
        to <= a.len(),
        to <= b.len(),
        forall|k: int| from <= k < to ==> a[k] == b[k],
    ensures
        advance(loc, a, from, to) == advance(loc, b, from, to),
    decreases to - from,
{
    if from < to {
        lemma_advance_same(loc, a, b, from, to - 1);
    }
}

/// A tab after a word separates it from what follows just as a space does:
/// the word reads as the same token, and the lexer goes on from the same
/// place and location.
pub proof fn lemma_tab_separates_like_space(
    w: Seq<u8>,
    rest: Seq<u8>,
    loc: FileLocation,
    prev: FileLocation,
)
    requires
        w.len() > 0,
        forall|k: int| 0 <= k < w.len() ==> word_byte(#[trigger] w[k]),
        loc.column < usize::MAX,
    ensures
        ({
            let with_tab = LexerState {
                input: w + seq![9u8] + rest,
                position: 0,
                file_location: loc,
                previous_token_location: prev,
            };
            let with_space = LexerState {
                input: w + seq![32u8] + rest,
                position: 0,
                file_location: loc,
                previous_token_location: prev,
            };
            &&& lex(with_tab).0 == lex(with_space).0
            &&& lex(with_tab).0 == word_result(w, loc)
            &&& lex(with_tab).1.position == w.len() + 1
            &&& lex(with_space).1.position == w.len() + 1
            &&& lex(with_tab).1.file_location == lex(with_space).1.file_location
        }),
{
    let a = w + seq![9u8] + rest;
    let b = w + seq![32u8] + rest;
    let sa = LexerState { input: a, position: 0, file_location: loc, previous_token_location: prev };
    let sb = LexerState { input: b, position: 0, file_location: loc, previous_token_location: prev };
    assert forall|k: int| 0 <= k < w.len() implies !ends_word(#[trigger] w[k]) by {
        assert(word_byte(w[k]));
    }
    assert(a =~= w + (seq![9u8] + rest));
    assert(b =~= w + (seq![32u8] + rest));
    assert((seq![9u8] + rest)[0] == 9u8);
    assert((seq![32u8] + rest)[0] == 32u8);
    lemma_lex_word(w, seq![9u8] + rest, sa);
    lemma_lex_word(w, seq![32u8] + rest, sb);
    // Both read the word's bytes and then one separator
    assert(a[0] == w[0] && b[0] == w[0]);
    assert(skip_whitespace(a, 0) == 0);
    assert(skip_whitespace(b, 0) == 0);
    assert forall|k: int| 1 <= k < w.len() implies !ends_word(#[trigger] a[k]) by {
        assert(a[k] == w[k]);
    }
    assert forall|k: int| 1 <= k < w.len() implies !ends_word(#[trigger] b[k]) by {
        assert(b[k] == w[k]);
    }
    lemma_word_end_at(a, 1, w.len() as int);
    lemma_word_end_at(b, 1, w.len() as int);
    let lc = step_location(loc, w[0]);
    lemma_advance_same(lc, a, b, 1, w.len() as int);
}

proof fn lemma_word_end_at_len(input: Seq<u8>, i: int)
    requires
        0 <= i <= input.len(),
        forall|k: int| i <= k < input.len() ==> !ends_word(#[trigger] input[k]),
    ensures
        word_end(input, i) == input.len(),
    decreases input.len() - i,
{
    if i < input.len() {
        lemma_word_end_at_len(input, i + 1);
    }
}

/// A quoted string with no quote, backslash or line break inside reads as a
/// string token holding the bytes between the quotes.
pub proof fn lemma_lex_string(body: Seq<u8>, st: LexerState)
    requires
        forall|k: int| 0 <= k < body.len() ==> #[trigger] body[k] != QUOTE && body[k] != BACKSLASH
            && body[k] != NEWLINE,
        st.input == seq![QUOTE] + body + seq![QUOTE],
        st.position == 0,
    ensures
        lex(st).0 == Ok::<TokenView, LexerErrorView>(TokenView::String(body)),
        lex(st).1.position == body.len() + 2,
{
    let input = st.input;
    assert(input[0] == QUOTE);
    assert(skip_whitespace(input, 0) == 0);
    assert forall|k: int| 1 <= k < body.len() + 1 implies #[trigger] input[k] != QUOTE && input[k] != BACKSLASH
        && input[k] != NEWLINE by {
        assert(input[k] == body[k - 1]);
    }
    lemma_string_end_at(input, 1, body.len() as int + 1);
    assert(input.subrange(1, body.len() as int + 1) =~= body);
}

/// The tokens read from `st` one after another up to the first error, the
/// location each of them starts at, and that error.
pub open spec fn lex_all(st: LexerState) -> (Seq<TokenView>, Seq<FileLocation>, LexerErrorView)
    decreases st.input.len() - st.position,
    when 0 <= st.position <= st.input.len()
{
    let (r, next) = lex(st);
    match r {
        Ok(t) => {
            proof {
                lemma_lex_progress(st);
                if st.position == st.input.len() {
                    lemma_lex_at_end(st);
                }
            }
            let (ts, ls, e) = lex_all(next);
            (seq![t] + ts, seq![next.previous_token_location] + ls, e)
        },
        Err(e) => (Seq::empty(), Seq::empty(), e),
    }
}

/// The views of `tokens`.
pub open spec fn token_views(tokens: Seq<Token>) -> Seq<TokenView> {
    tokens.map_values(|t: Token| t@)
}

/// A tokenizer over the bytes of a pbrt-v3 scene file.
pub struct Lexer<'a> {
    input: &'a [u8],
    position: usize,
    file_location: FileLocation,
    previous_token_location: FileLocation,
}

impl<'a> View for Lexer<'a> {
    type V = LexerState;

    closed spec fn view(&self) -> LexerState {
        LexerState {
            input: self.input@,
            position: self.position as int,
            file_location: self.file_location,
            previous_token_location: self.previous_token_location,
        }
    }
}

impl<'a> Lexer<'a> {
    /// The state stays within the input, and the location counters cannot
    /// overflow: the column is at most the position and the line at most one
    /// more than it.
    pub closed spec fn wf(&self) -> bool {
        &&& self.position <= self.input@.len()
        &&& self.input@.len() <= isize::MAX
        &&& self.file_location.column <= self.position
        &&& self.file_location.line <= self.position + 1
    }

    /// Creates a `Lexer` at the start of `input`.
    pub fn new(input: &'a [u8]) -> (r: Self)
        requires
            input@.len() <= isize::MAX,
        ensures
            r.wf(),
            r@ == (LexerState {
                input: input@,
                position: 0,
                file_location: FileLocation { line: 1, column: 0 },
                previous_token_location: FileLocation { line: 1, column: 0 },
            }),
    {
        Self {
            input,
            position: 0,
            file_location: FileLocation { line: 1, column: 0 },
            previous_token_location: FileLocation { line: 1, column: 0 },
        }
    }

    /// Where the last token read (or attempted) started.
    pub fn previous_token_location(&self) -> (r: FileLocation)
        ensures
            r == self@.previous_token_location,
    {
        self.previous_token_location
    }

    /// Reads the next byte as a character.
    fn get_char(&mut self) -> (r: Option<char>)
        requires
            old(self).wf(),
        ensures
            final(self).wf(),
            final(self)@.input == old(self)@.input,
            final(self)@.previous_token_location == old(self)@.previous_token_location,
            old(self)@.position < old(self)@.input.len() ==> {
                &&& r == Some(old(self)@.input[old(self)@.position] as char)
                &&& final(self)@.position == old(self)@.position + 1
                &&& final(self)@.file_location == step_location(
                    old(self)@.file_location,
                    old(self)@.input[old(self)@.position],
                )
                &&& old(self)@.input[old(self)@.position] != NEWLINE
                    ==> final(self)@.file_location.column == old(self)@.file_location.column + 1
            },
            old(self)@.position >= old(self)@.input.len() ==> r is None && final(self)@ == old(self)@,
    {
        if self.position < self.input.len() {
            let c = self.input[self.position] as char;
            self.position += 1;
            if c == '\n' {
                self.file_location.line += 1;
                self.file_location.column = 0;
            } else {
                self.file_location.column += 1;
            }
            Some(c)
        } else {
            None
        }
    }

    /// Steps back over the last byte read, which was not a line feed.
    fn unget_char(&mut self)
        requires
            old(self).position <= old(self).input@.len(),
            old(self).input@.len() <= isize::MAX,
            old(self).position >= 1,
            old(self).file_location.column >= 1,
            old(self).file_location.column <= old(self).position,
            old(self).file_location.line <= old(self).position,
        ensures
            final(self).wf(),
            final(self)@.input == old(self)@.input,
            final(self)@.previous_token_location == old(self)@.previous_token_location,
            final(self)@.position == old(self)@.position - 1,
            final(self)@.file_location == (FileLocation {
                line: old(self)@.file_location.line,
                column: (old(self)@.file_location.column - 1) as usize,
            }),
    {
        self.position -= 1;
        self.file_location.column -= 1;
    }

    /// Reads past whitespace; tells whether a byte that is not whitespace
    /// is left.
    fn skip_whitespace(&mut self) -> (found: bool)
        requires
            old(self).wf(),
        ensures
            final(self).wf(),
            final(self)@.input == old(self)@.input,
            final(self)@.previous_token_location == old(self)@.previous_token_location,
            final(self)@.position == skip_whitespace(old(self)@.input, old(self)@.position),
            final(self)@.file_location == advance(
                old(self)@.file_location,
                old(self)@.input,
                old(self)@.position,
                final(self)@.position,
            ),
            found == (final(self)@.position < old(self)@.input.len()),
    {
        let ghost st0 = self@;
        let ghost input = st0.input;
        proof {
            lemma_skip_whitespace(input, st0.position);
        }
        let mut found = false;
        loop
            invariant_except_break
                !found,
            invariant
                self.wf(),
                self@.input == input,
                self@.previous_token_location == st0.previous_token_location,
                st0.position <= self@.position <= skip_whitespace(input, st0.position),
                skip_whitespace(input, self@.position) == skip_whitespace(input, st0.position),
                self@.file_location == advance(
                    st0.file_location,
                    input,
                    st0.position,
                    self@.position,
                ),
            ensures
                self.wf(),
                self@.input == input,
                self@.previous_token_location == st0.previous_token_location,
                self@.position == skip_whitespace(input, st0.position),
                self@.file_location == advance(
                    st0.file_location,
                    input,
                    st0.position,
                    self@.position,
                ),
                found == (self@.position < input.len()),
            decreases input.len() - self@.position,
        {
            let ghost before = self@;
            match self.get_char() {
                Some(c) => {
                    if c == ' ' || c == '\t' || c == '\n' || c == '\r' {
                        assert(is_whitespace(input[before.position]));
                        proof {
                            lemma_skip_whitespace(input, before.position + 1);
                        }
                    } else {
                        assert(!is_whitespace(input[before.position]));
                        self.unget_char();
                        found = true;
                        break ;
                    }
                },
                None => {
                    break ;
                },
            }
        }
        found
    }

    /// Reads up to and including the line break that ends a comment; tells
    /// whether there was one.
    fn skip_comment(&mut self) -> (found: bool)
        requires
            old(self).wf(),
        ensures
            final(self).wf(),
            final(self)@.input == old(self)@.input,
            final(self)@.previous_token_location == old(self)@.previous_token_location,
            ({
                let input = old(self)@.input;
                let e = comment_end(input, old(self)@.position);
                let le = advance(old(self)@.file_location, input, old(self)@.position, e);
                &&& found == (e < input.len())
                &&& found ==> final(self)@.position == e + 1 && final(self)@.file_location
                    == step_location(le, input[e])
                &&& !found ==> final(self)@.position == input.len() && final(self)@.file_location
                    == le
            }),
    {
        let ghost st0 = self@;
        let ghost input = st0.input;
        proof {
            lemma_comment_end(input, st0.position);
        }
        let mut found = false;
        loop
            invariant_except_break
                !found,
                st0.position <= self@.position <= comment_end(input, st0.position),
                comment_end(input, self@.position) == comment_end(input, st0.position),
                self@.file_location == advance(
                    st0.file_location,
                    input,
                    st0.position,
                    self@.position,
                ),
            invariant
                self.wf(),
                self@.input == input,
                self@.previous_token_location == st0.previous_token_location,
                comment_end(input, st0.position) <= input.len(),
            ensures
                ({
                    let e = comment_end(input, st0.position);
                    let le = advance(st0.file_location, input, st0.position, e);
                    &&& found == (e < input.len())
                    &&& found ==> self@.position == e + 1 && self@.file_location == step_location(
                        le,
                        input[e],
                    )
                    &&& !found ==> self@.position == input.len() && self@.file_location == le
                }),
            decreases input.len() - self@.position,
        {
            let ghost before = self@;
            match self.get_char() {
                Some(c) => {
                    if c == '\n' || c == '\r' {
                        assert(ends_comment(input[before.position]));
                        found = true;
                        break ;
                    } else {
                        assert(!ends_comment(input[before.position]));
                        proof {
                            lemma_comment_end(input, before.position + 1);
                        }
                    }
                },
                None => {
                    break ;
                },
            }
        }
        found
    }

    /// Reads the body of a quoted string whose opening quote has been read.
    fn read_string(&mut self) -> (r: Result<Token, LexerError>)
        requires
            old(self).wf(),
        ensures
            final(self).wf(),
            (lexer_result_view(r), final(self)@) == lex_string(
                old(self)@.input,
                old(self)@.position,
                old(self)@.file_location,
                old(self)@.previous_token_location,
            ),
    {
        let ghost st0 = self@;
        let ghost input = st0.input;
        let start_position = self.position;
        let mut result: Option<Result<Token, LexerError>> = None;
        loop
            invariant_except_break
                result is None,
                start_position <= self@.position <= input.len(),
                string_end(input, self@.position) == string_end(input, start_position as int),
                self@.file_location == advance(
                    st0.file_location,
                    input,
                    start_position as int,
                    self@.position,
                ),
            invariant
                self.wf(),
                self@.input == input,
                self@.previous_token_location == st0.previous_token_location,
                start_position == st0.position,
            ensures
                result matches Some(r) && (lexer_result_view(r), self@) == lex_string(
                    input,
                    st0.position,
                    st0.file_location,
                    st0.previous_token_location,
                ),
            decreases input.len() - self@.position,
        {
            let ghost before = self@;
            match self.get_char() {
                Some(c) => {
                    if c == '"' {
                        assert(input[before.position] == QUOTE);
                        let end = self.position - 1;
                        let body = &self.input[start_position..end];
                        assert(body@ == input.subrange(start_position as int, before.position));
                        result = Some(Ok(Token::String(vstd::slice::slice_to_vec(body))));
                        break ;
                    } else if c == '\\' {
                        assert(input[before.position] == BACKSLASH);
                        let ghost mid = self@;
                        assert(mid.file_location == advance(
                            st0.file_location,
                            input,
                            start_position as int,
                            mid.position,
                        ));
                        match self.get_char() {
                            Some(_) => {
                                assert(self@.file_location == step_location(
                                    mid.file_location,
                                    input[mid.position],
                                ));
                            },
                            None => {
                                result = Some(
                                    Err(
                                        LexerError::new(
                                            LexerErrorType::UnexpectedEndOfInput,
                                            FileLocation {
                                                line: self.file_location.line,
                                                column: self.file_location.column.saturating_sub(1),
                                            },
                                        ),
                                    ),
                                );
                                break ;
                            },
                        }
                    } else if c == '\n' {
                        assert(input[before.position] == NEWLINE);
                        result = Some(
                            Err(
                                LexerError::new(
                                    LexerErrorType::UnterminatedString,
                                    FileLocation {
                                        line: self.file_location.line,
                                        column: self.file_location.column.saturating_sub(1),
                                    },
                                ),
                            ),
                        );
                        break ;
                    } else {
                        assert(input[before.position] != QUOTE && input[before.position]
                            != BACKSLASH && input[before.position] != NEWLINE);
                    }
                },
                None => {
                    result = Some(
                        Err(
                            LexerError::new(
                                LexerErrorType::UnexpectedEndOfInput,
                                FileLocation {
                                    line: self.file_location.line,
                                    column: self.file_location.column.saturating_sub(1),
                                },
                            ),
                        ),
                    );
                    break ;
                },
            }
        }
        result.unwrap()
    }

    /// Reads the rest of a word whose first byte has been read, up to the
    /// byte that ends it, which is left unread.
    fn read_word(&mut self)
        requires
            old(self).wf(),
        ensures
            final(self).wf(),
            final(self)@.input == old(self)@.input,
            final(self)@.previous_token_location == old(self)@.previous_token_location,
            final(self)@.position == word_end(old(self)@.input, old(self)@.position),
            final(self)@.file_location == advance(
                old(self)@.file_location,
                old(self)@.input,
                old(self)@.position,
                final(self)@.position,
            ),
    {
        let ghost st0 = self@;
        let ghost input = st0.input;
        proof {
            lemma_word_end(input, st0.position);
        }
        while self.position < self.input.len() && !ends_word_byte(self.input[self.position])
            invariant
                self.wf(),
                self@.input == input,
                self@.previous_token_location == st0.previous_token_location,
                st0.position <= self@.position <= word_end(input, st0.position),
                word_end(input, self@.position) == word_end(input, st0.position),
                self@.file_location == advance(
                    st0.file_location,
                    input,
                    st0.position,
                    self@.position,
                ),
            decreases input.len() - self@.position,
        {
            let ghost before = self@;
            self.get_char();
            proof {
                lemma_word_end(input, before.position + 1);
            }
        }
        proof {
            if self@.position < input.len() {
                assert(ends_word(input[self@.position]));
            }
        }
    }

    /// Reads tokens up to the first error: the tokens, the location each of
    /// them starts at, and the error. The end of the input is the error
    /// `EndOfInput`.
    pub fn read_all(&mut self) -> (r: (Vec<Token>, Vec<FileLocation>, LexerError))
        requires
            old(self).wf(),
        ensures
            final(self).wf(),
            (token_views(r.0@), r.1@, r.2@) == lex_all(old(self)@),
    {
        let mut tokens: Vec<Token> = Vec::new();
        let mut locations: Vec<FileLocation> = Vec::new();
        let mut error: Option<LexerError> = None;
        proof {
            assert(token_views(tokens@) =~= Seq::<TokenView>::empty());
            let (ts, ls, e) = lex_all(self@);
            assert(token_views(tokens@) + ts =~= ts);
            assert(locations@ + ls =~= ls);
        }
        loop
            invariant_except_break
                self.wf(),
                error is None,
                ({
                    let (ts, ls, e) = lex_all(self@);
                    lex_all(old(self)@) == (token_views(tokens@) + ts, locations@ + ls, e)
                }),
            invariant
                self.wf(),
            ensures
                error matches Some(e) && (token_views(tokens@), locations@, e@) == lex_all(
                    old(self)@,
                ),
            decreases self@.input.len() - self@.position,
        {
            let ghost before = self@;
            let ghost prev_tokens = token_views(tokens@);
            let ghost prev_locations = locations@;
            proof {
                lemma_lex_progress(before);
                if before.position == before.input.len() {
                    lemma_lex_at_end(before);
                }
            }
            match self.next_token() {
                Ok(t) => {
                    let ghost tv = t@;
                    tokens.push(t);
                    locations.push(self.previous_token_location);
                    proof {
                        assert(token_views(tokens@) =~= prev_tokens + seq![tv]);
                        let (ts, ls, e) = lex_all(self@);
                        assert(lex_all(before) == (seq![tv] + ts, seq![self@.previous_token_location] + ls, e));
                        assert(prev_tokens + (seq![tv] + ts) =~= token_views(tokens@) + ts);
                        assert(prev_locations + (seq![self@.previous_token_location] + ls) =~= locations@ + ls);
                    }
                },
                Err(e) => {
                    proof {
                        let (ts, ls, e2) = lex_all(before);
                        assert(ts =~= Seq::<TokenView>::empty());
                        assert(token_views(tokens@) + ts =~= token_views(tokens@));
                        assert(locations@ + ls =~= locations@);
                    }
                    error = Some(e);
                    break;
                },
            }
        }
        let e = error.unwrap();
        (tokens, locations, e)
    }

    /// Reads the next token.
    ///
    /// The token and the state after it are those that [`lex`] gives for the
    /// state before the call.
    pub fn next_token(&mut self) -> (r: Result<Token, LexerError>)
        requires
            old(self).wf(),
        ensures
            final(self).wf(),
            (lexer_result_view(r), final(self)@) == lex(old(self)@),
        decreases old(self)@.input.len() - old(self)@.position, 2int,
    {
        let ghost st0 = self@;
        let ghost input = st0.input;
        proof {
            lemma_skip_whitespace(input, st0.position);
        }
        // Seek past any whitespace
        if !self.skip_whitespace() {
            return Err(
                LexerError::new(
                    LexerErrorType::EndOfInput,
                    FileLocation {
                        line: self.file_location.line,
                        column: self.file_location.column.saturating_sub(1),
                    },
                ),
            );
        }
        // Collect the token
        let ghost s = self@.position;
        self.previous_token_location = self.file_location;
        let c = self.get_char().unwrap();
        if c == '#' {
            self.comment_then_token()
        } else if c == '"' {
            self.read_string()
        } else if c == '[' {
            Ok(Token::LeftBracket)
        } else if c == ']' {
            Ok(Token::RightBracket)
        } else {
            assert(!ends_word(input[s]));
            self.word_token()
        }
    }

    /// Reads on after a `#`: skips the comment and reads the next token.
    fn comment_then_token(&mut self) -> (r: Result<Token, LexerError>)
        requires
            old(self).wf(),
            old(self)@.position >= 1,
        ensures
            final(self).wf(),
            (lexer_result_view(r), final(self)@) == lex_comment(
                old(self)@.input,
                old(self)@.position - 1,
                old(self)@.file_location,
                old(self)@.previous_token_location,
            ),
        decreases old(self)@.input.len() - (old(self)@.position - 1), 0int,
    {
        proof {
            lemma_comment_end(self@.input, self@.position);
        }
        if !self.skip_comment() {
            return Err(LexerError::new(LexerErrorType::EndOfInput, self.previous_token_location));
        }
        self.next_token()
    }

    /// Reads on after the first byte of a word.
    fn word_token(&mut self) -> (r: Result<Token, LexerError>)
        requires
            old(self).wf(),
            old(self)@.position >= 1,
            !ends_word(old(self)@.input[old(self)@.position - 1]),
            old(self)@.file_location.column >= 1,
        ensures
            final(self).wf(),
            (lexer_result_view(r), final(self)@) == lex_word(
                old(self)@.input,
                old(self)@.position - 1,
                old(self)@.file_location,
            ),
    {
        let ghost input = self@.input;
        let ghost s = self@.position - 1;
        let identifier_start_position = self.position - 1;
        self.previous_token_location = FileLocation {
            line: self.file_location.line,
            column: self.file_location.column - 1,
        };
        proof {
            lemma_word_end(input, s + 1);
        }
        self.read_word();
        let end_position = self.position;
        // Whitespace that ends the word is read with it
        if self.position < self.input.len() && is_whitespace_byte(self.input[self.position]) {
            self.get_char();
        }
        let word = &self.input[identifier_start_position..end_position];
        assert(word@ == input.subrange(s, end_position as int));
        match Token::try_from(word) {
            Ok(t) => Ok(t),
            Err(TokenError::InvalidNumber) => Err(
                LexerError::new(LexerErrorType::InvalidNumber, self.previous_token_location),
            ),
            Err(TokenError::UnknownIdentifier(ident)) => Err(
                LexerError::new(
                    LexerErrorType::UnknownIdentifier(vstd::slice::slice_to_vec(ident)),
                    self.previous_token_location,
                ),
            ),
        }
    }
}

} // verus!
