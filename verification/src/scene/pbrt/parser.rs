//! The grammar of pbrt-v3 scene files over their tokens: directives, their
//! arguments and their parameter lists.
//!
//! The parser refers to numbers and strings by their index in the token list;
//! turning number text into values, reading files and building the scene is
//! left to the caller.
use vstd::prelude::*;
use vstd::string::{is_ascii, StringSliceAdditionalSpecFns};

use super::lexer::token_views;
use super::param_def::{try_split_param_def, whitespace_words};
use super::token::{bytes_equal, Token, TokenView};

verus! {

/// The kind of a [`ParserError`].
#[derive(Debug, Copy, Clone, PartialEq, Eq, Structural)]
pub enum ParserErrorType {
    UnexpectedToken,
    UnimplementedToken,
    UnknownParamType,
}

/// What a [`ParserError`] reports, by the index of the token it comes from.
#[derive(Debug, Copy, Clone, PartialEq, Eq, Structural)]
pub enum Culprit {
    /// The token itself.
    Token(usize),
    /// The text of a string token, where a boolean was expected.
    QuotedWord(usize),
    /// The text of a string token that is not a parameter declaration.
    Declaration(usize),
    /// The type and the name declared by a string token, where the type is unknown.
    TypeAndName(usize),
}

/// A token that does not fit the grammar.
#[derive(Debug, Copy, Clone, PartialEq, Eq, Structural)]
pub struct ParserError {
    pub error_type: ParserErrorType,
    pub culprit: Culprit,
    /// The index of the last token read, whose location the error is reported at.
    pub at: usize,
}

/// Why parsing stopped.
#[derive(Debug, Copy, Clone, PartialEq, Eq, Structural)]
pub enum Halt {
    /// The tokens ran out.
    OutOfTokens,
    /// A token did not fit the grammar.
    Failed(ParserError),
    /// A camera other than a perspective camera was asked for.
    NotPerspective,
}

/// The value type of a parameter, from its declaration.
#[derive(Debug, Copy, Clone, PartialEq, Eq, Structural)]
pub enum ParamKind {
    Bool,
    Float,
    /// A `float` parameter named `uv`: pairs of numbers.
    Uv,
    Integer,
    Str,
    /// A `color` or `rgb` parameter: triples of numbers.
    Rgb,
    Spectrum,
    Point,
    Normal,
    Blackbody,
    Texture,
}

/// The values of a parameter.
#[derive(Debug)]
pub enum ParamValues {
    Bools(Vec<bool>),
    /// The indices of the number or string tokens that hold the values.
    Tokens(Vec<usize>),
    /// The index of the string token that names a file of samples.
    SpectrumFile(usize),
}

pub enum ParamValuesView {
    Bools(Seq<bool>),
    Tokens(Seq<usize>),
    SpectrumFile(usize),
}

impl View for ParamValues {
    type V = ParamValuesView;

    open spec fn view(&self) -> ParamValuesView {
        match self {
            ParamValues::Bools(b) => ParamValuesView::Bools(b@),
            ParamValues::Tokens(t) => ParamValuesView::Tokens(t@),
            ParamValues::SpectrumFile(i) => ParamValuesView::SpectrumFile(*i),
        }
    }
}

/// One parameter of a directive.
#[derive(Debug)]
pub struct Param {
    pub kind: ParamKind,
    pub name: Vec<u8>,
    pub values: ParamValues,
}

pub struct ParamView {
    pub kind: ParamKind,
    pub name: Seq<u8>,
    pub values: ParamValuesView,
}

impl View for Param {
    type V = ParamView;

    open spec fn view(&self) -> ParamView {
        ParamView { kind: self.kind, name: self.name@, values: self.values@ }
    }
}

/// The views of `params`.
pub open spec fn param_views(params: Seq<Param>) -> Seq<ParamView> {
    params.map_values(|p: Param| p@)
}

/// The outcome of parsing a part of the tokens: what was read and the index of
/// the next token, or why parsing stopped.
pub type Parsed<T> = Result<(T, int), Halt>;

/// The error for an unexpected token at `at`.
pub open spec fn unexpected(at: int) -> Halt {
    Halt::Failed(
        ParserError {
            error_type: ParserErrorType::UnexpectedToken,
            culprit: Culprit::Token(at as usize),
            at: at as usize,
        },
    )
}

/// A single number, or numbers between brackets.
pub open spec fn number_list(toks: Seq<TokenView>, pos: int) -> Parsed<Seq<usize>> {
    if pos >= toks.len() {
        Err(Halt::OutOfTokens)
    } else {
        match toks[pos] {
            TokenView::Number(_) => Ok((seq![pos as usize], pos + 1)),
            TokenView::LeftBracket => number_items(toks, pos + 1, Seq::empty()),
            _ => Err(unexpected(pos)),
        }
    }
}

/// Numbers up to a closing bracket, after those already read, `acc`.
pub open spec fn number_items(toks: Seq<TokenView>, pos: int, acc: Seq<usize>) -> Parsed<Seq<usize>>
    decreases toks.len() - pos,
{
    if pos >= toks.len() {
        Err(Halt::OutOfTokens)
    } else {
        match toks[pos] {
            TokenView::Number(_) => number_items(toks, pos + 1, acc.push(pos as usize)),
            TokenView::RightBracket => Ok((acc, pos + 1)),
            _ => Err(unexpected(pos)),
        }
    }
}

/// A single string, or strings between brackets.
pub open spec fn string_list(toks: Seq<TokenView>, pos: int) -> Parsed<Seq<usize>> {
    if pos >= toks.len() {
        Err(Halt::OutOfTokens)
    } else {
        match toks[pos] {
            TokenView::String(_) => Ok((seq![pos as usize], pos + 1)),
            TokenView::LeftBracket => string_items(toks, pos + 1, Seq::empty()),
            _ => Err(unexpected(pos)),
        }
    }
}

/// Strings up to a closing bracket, after those already read, `acc`.
pub open spec fn string_items(toks: Seq<TokenView>, pos: int, acc: Seq<usize>) -> Parsed<Seq<usize>>
    decreases toks.len() - pos,
{
    if pos >= toks.len() {
        Err(Halt::OutOfTokens)
    } else {
        match toks[pos] {
            TokenView::String(_) => string_items(toks, pos + 1, acc.push(pos as usize)),
            TokenView::RightBracket => Ok((acc, pos + 1)),
            _ => Err(unexpected(pos)),
        }
    }
}

/// The boolean that the text `s` of the string token at `at` spells.
pub open spec fn bool_word(s: Seq<u8>, at: int) -> Result<bool, Halt> {
    if s == "true".spec_bytes() {
        Ok(true)
    } else if s == "false".spec_bytes() {
        Ok(false)
    } else {
        Err(
            Halt::Failed(
                ParserError {
                    error_type: ParserErrorType::UnexpectedToken,
                    culprit: Culprit::QuotedWord(at as usize),
                    at: at as usize,
                },
            ),
        )
    }
}

/// A single boolean, or booleans between brackets, spelled as strings.
pub open spec fn bool_list(toks: Seq<TokenView>, pos: int) -> Parsed<Seq<bool>> {
    if pos >= toks.len() {
        Err(Halt::OutOfTokens)
    } else {
        match toks[pos] {
            TokenView::String(s) => match bool_word(s, pos) {
                Ok(b) => Ok((seq![b], pos + 1)),
                Err(h) => Err(h),
            },
            TokenView::LeftBracket => bool_items(toks, pos + 1, Seq::empty()),
            _ => Err(unexpected(pos)),
        }
    }
}

/// Booleans up to a closing bracket, after those already read, `acc`.
pub open spec fn bool_items(toks: Seq<TokenView>, pos: int, acc: Seq<bool>) -> Parsed<Seq<bool>>
    decreases toks.len() - pos,
{
    if pos >= toks.len() {
        Err(Halt::OutOfTokens)
    } else {
        match toks[pos] {
            TokenView::String(s) => match bool_word(s, pos) {
                Ok(b) => bool_items(toks, pos + 1, acc.push(b)),
                Err(h) => Err(h),
            },
            TokenView::RightBracket => Ok((acc, pos + 1)),
            _ => Err(unexpected(pos)),
        }
    }
}

/// Groups of `arity` numbers between brackets.
pub open spec fn tuple_list(toks: Seq<TokenView>, pos: int, arity: int) -> Parsed<Seq<usize>> {
    if pos >= toks.len() {
        Err(Halt::OutOfTokens)
    } else {
        match toks[pos] {
            TokenView::LeftBracket => tuple_items(toks, pos + 1, arity, 0, Seq::empty()),
            _ => Err(unexpected(pos)),
        }
    }
}

/// Numbers in groups of `arity` up to a closing bracket, after those already
/// read, `acc`, with `j` numbers of the current group read.
pub open spec fn tuple_items(toks: Seq<TokenView>, pos: int, arity: int, j: int, acc: Seq<usize>) -> Parsed<
    Seq<usize>,
>
    decreases toks.len() - pos,
{
    if pos >= toks.len() {
        Err(Halt::OutOfTokens)
    } else {
        match toks[pos] {
            TokenView::Number(_) => tuple_items(
                toks,
                pos + 1,
                arity,
                if j + 1 == arity {
                    0
                } else {
                    j + 1
                },
                acc.push(pos as usize),
            ),
            TokenView::RightBracket => if j == 0 {
                Ok((acc, pos + 1))
            } else {
                Err(unexpected(pos))
            },
            _ => Err(unexpected(pos)),
        }
    }
}

/// The values of a spectrum: a string naming a file of samples, or numbers.
pub open spec fn spectrum_values(toks: Seq<TokenView>, pos: int) -> Parsed<ParamValuesView> {
    if pos < toks.len() && toks[pos] is String {
        Ok((ParamValuesView::SpectrumFile(pos as usize), pos + 1))
    } else {
        match number_list(toks, pos) {
            Ok((v, p)) => Ok((ParamValuesView::Tokens(v), p)),
            Err(h) => Err(h),
        }
    }
}

/// The kind of a parameter declared with type `t` and name `name`.
pub open spec fn param_kind(t: Seq<u8>, name: Seq<u8>) -> Option<ParamKind> {
    if t == "bool".spec_bytes() {
        Some(ParamKind::Bool)
    } else if t == "float".spec_bytes() {
        if name == "uv".spec_bytes() {
            Some(ParamKind::Uv)
        } else {
            Some(ParamKind::Float)
        }
    } else if t == "integer".spec_bytes() {
        Some(ParamKind::Integer)
    } else if t == "string".spec_bytes() {
        Some(ParamKind::Str)
    } else if t == "color".spec_bytes() || t == "rgb".spec_bytes() {
        Some(ParamKind::Rgb)
    } else if t == "spectrum".spec_bytes() {
        Some(ParamKind::Spectrum)
    } else if t == "point".spec_bytes() {
        Some(ParamKind::Point)
    } else if t == "normal".spec_bytes() {
        Some(ParamKind::Normal)
    } else if t == "blackbody".spec_bytes() {
        Some(ParamKind::Blackbody)
    } else if t == "texture".spec_bytes() {
        Some(ParamKind::Texture)
    } else {
        None
    }
}

/// Each type word of a parameter declaration gives the kind it names,
/// whatever the parameter's name: `bool`, `integer`, `string`, `color` and
/// `rgb`, `spectrum`, `point`, `normal`, `blackbody` and `texture`; `float`
/// gives floats, or pairs of numbers for a parameter named `uv`.
pub proof fn lemma_param_kinds(name: Seq<u8>)
    ensures
        param_kind(seq![98u8, 111u8, 111u8, 108u8], name) == Some(ParamKind::Bool),
        param_kind(seq![105u8, 110u8, 116u8, 101u8, 103u8, 101u8, 114u8], name) == Some(ParamKind::Integer),
        param_kind(seq![115u8, 116u8, 114u8, 105u8, 110u8, 103u8], name) == Some(ParamKind::Str),
        param_kind(seq![99u8, 111u8, 108u8, 111u8, 114u8], name) == Some(ParamKind::Rgb),
        param_kind(seq![114u8, 103u8, 98u8], name) == Some(ParamKind::Rgb),
        param_kind(seq![115u8, 112u8, 101u8, 99u8, 116u8, 114u8, 117u8, 109u8], name) == Some(ParamKind::Spectrum),
        param_kind(seq![112u8, 111u8, 105u8, 110u8, 116u8], name) == Some(ParamKind::Point),
        param_kind(seq![110u8, 111u8, 114u8, 109u8, 97u8, 108u8], name) == Some(ParamKind::Normal),
        param_kind(seq![98u8, 108u8, 97u8, 99u8, 107u8, 98u8, 111u8, 100u8, 121u8], name) == Some(ParamKind::Blackbody),
        param_kind(seq![116u8, 101u8, 120u8, 116u8, 117u8, 114u8, 101u8], name) == Some(ParamKind::Texture),
        name != seq![117u8, 118u8] ==> param_kind(seq![102u8, 108u8, 111u8, 97u8, 116u8], name) == Some(ParamKind::Float),
        param_kind(seq![102u8, 108u8, 111u8, 97u8, 116u8], seq![117u8, 118u8]) == Some(ParamKind::Uv),
{
    broadcast use vstd::string::is_ascii_spec_bytes;

    reveal_strlit("bool");
    assert(is_ascii("bool"));
    assert("bool".spec_bytes() =~= seq![98u8, 111u8, 111u8, 108u8]);
    reveal_strlit("float");
    assert(is_ascii("float"));
    assert("float".spec_bytes() =~= seq![102u8, 108u8, 111u8, 97u8, 116u8]);
    reveal_strlit("integer");
    assert(is_ascii("integer"));
    assert("integer".spec_bytes() =~= seq![105u8, 110u8, 116u8, 101u8, 103u8, 101u8, 114u8]);
    reveal_strlit("string");
    assert(is_ascii("string"));
    assert("string".spec_bytes() =~= seq![115u8, 116u8, 114u8, 105u8, 110u8, 103u8]);
    reveal_strlit("color");
    assert(is_ascii("color"));
    assert("color".spec_bytes() =~= seq![99u8, 111u8, 108u8, 111u8, 114u8]);
    reveal_strlit("rgb");
    assert(is_ascii("rgb"));
    assert("rgb".spec_bytes() =~= seq![114u8, 103u8, 98u8]);
    reveal_strlit("spectrum");
    assert(is_ascii("spectrum"));
    assert("spectrum".spec_bytes() =~= seq![115u8, 112u8, 101u8, 99u8, 116u8, 114u8, 117u8, 109u8]);
    reveal_strlit("point");
    assert(is_ascii("point"));
    assert("point".spec_bytes() =~= seq![112u8, 111u8, 105u8, 110u8, 116u8]);
    reveal_strlit("normal");
    assert(is_ascii("normal"));
    assert("normal".spec_bytes() =~= seq![110u8, 111u8, 114u8, 109u8, 97u8, 108u8]);
    reveal_strlit("blackbody");
    assert(is_ascii("blackbody"));
    assert("blackbody".spec_bytes() =~= seq![98u8, 108u8, 97u8, 99u8, 107u8, 98u8, 111u8, 100u8, 121u8]);
    reveal_strlit("texture");
    assert(is_ascii("texture"));
    assert("texture".spec_bytes() =~= seq![116u8, 101u8, 120u8, 116u8, 117u8, 114u8, 101u8]);
    reveal_strlit("uv");
    assert(is_ascii("uv"));
    assert("uv".spec_bytes() =~= seq![117u8, 118u8]);
}

/// A type word that is none of those declares no parameter.
pub proof fn lemma_unknown_param_kind(t: Seq<u8>, name: Seq<u8>)
    requires
        t != seq![98u8, 111u8, 111u8, 108u8],
        t != seq![102u8, 108u8, 111u8, 97u8, 116u8],
        t != seq![105u8, 110u8, 116u8, 101u8, 103u8, 101u8, 114u8],
        t != seq![115u8, 116u8, 114u8, 105u8, 110u8, 103u8],
        t != seq![99u8, 111u8, 108u8, 111u8, 114u8],
        t != seq![114u8, 103u8, 98u8],
        t != seq![115u8, 112u8, 101u8, 99u8, 116u8, 114u8, 117u8, 109u8],
        t != seq![112u8, 111u8, 105u8, 110u8, 116u8],
        t != seq![110u8, 111u8, 114u8, 109u8, 97u8, 108u8],
        t != seq![98u8, 108u8, 97u8, 99u8, 107u8, 98u8, 111u8, 100u8, 121u8],
        t != seq![116u8, 101u8, 120u8, 116u8, 117u8, 114u8, 101u8],
    ensures
        param_kind(t, name) is None,
{
    broadcast use vstd::string::is_ascii_spec_bytes;

    reveal_strlit("bool");
    assert(is_ascii("bool"));
    assert("bool".spec_bytes() =~= seq![98u8, 111u8, 111u8, 108u8]);
    reveal_strlit("float");
    assert(is_ascii("float"));
    assert("float".spec_bytes() =~= seq![102u8, 108u8, 111u8, 97u8, 116u8]);
    reveal_strlit("integer");
    assert(is_ascii("integer"));
    assert("integer".spec_bytes() =~= seq![105u8, 110u8, 116u8, 101u8, 103u8, 101u8, 114u8]);
    reveal_strlit("string");
    assert(is_ascii("string"));
    assert("string".spec_bytes() =~= seq![115u8, 116u8, 114u8, 105u8, 110u8, 103u8]);
    reveal_strlit("color");
    assert(is_ascii("color"));
    assert("color".spec_bytes() =~= seq![99u8, 111u8, 108u8, 111u8, 114u8]);
    reveal_strlit("rgb");
    assert(is_ascii("rgb"));
    assert("rgb".spec_bytes() =~= seq![114u8, 103u8, 98u8]);
    reveal_strlit("spectrum");
    assert(is_ascii("spectrum"));
    assert("spectrum".spec_bytes() =~= seq![115u8, 112u8, 101u8, 99u8, 116u8, 114u8, 117u8, 109u8]);
    reveal_strlit("point");
    assert(is_ascii("point"));
    assert("point".spec_bytes() =~= seq![112u8, 111u8, 105u8, 110u8, 116u8]);
    reveal_strlit("normal");
    assert(is_ascii("normal"));
    assert("normal".spec_bytes() =~= seq![110u8, 111u8, 114u8, 109u8, 97u8, 108u8]);
    reveal_strlit("blackbody");
    assert(is_ascii("blackbody"));
    assert("blackbody".spec_bytes() =~= seq![98u8, 108u8, 97u8, 99u8, 107u8, 98u8, 111u8, 100u8, 121u8]);
    reveal_strlit("texture");
    assert(is_ascii("texture"));
    assert("texture".spec_bytes() =~= seq![116u8, 101u8, 120u8, 116u8, 117u8, 114u8, 101u8]);
    reveal_strlit("uv");
    assert(is_ascii("uv"));
    assert("uv".spec_bytes() =~= seq![117u8, 118u8]);
}

/// `r` with its values wrapped as token indices.
pub open spec fn as_tokens(r: Parsed<Seq<usize>>) -> Parsed<ParamValuesView> {
    match r {
        Ok((v, p)) => Ok((ParamValuesView::Tokens(v), p)),
        Err(h) => Err(h),
    }
}

/// The values of a parameter of kind `kind`.
pub open spec fn param_values(kind: ParamKind, toks: Seq<TokenView>, pos: int) -> Parsed<ParamValuesView> {
    match kind {
        ParamKind::Bool => match bool_list(toks, pos) {
            Ok((v, p)) => Ok((ParamValuesView::Bools(v), p)),
            Err(h) => Err(h),
        },
        ParamKind::Float | ParamKind::Integer | ParamKind::Blackbody => as_tokens(number_list(toks, pos)),
        ParamKind::Uv => as_tokens(tuple_list(toks, pos, 2)),
        ParamKind::Str | ParamKind::Texture => as_tokens(string_list(toks, pos)),
        ParamKind::Rgb | ParamKind::Point | ParamKind::Normal => as_tokens(tuple_list(toks, pos, 3)),
        ParamKind::Spectrum => spectrum_values(toks, pos),
    }
}

/// Parameters, each a string declaring its type and name followed by its
/// values, after those already read, `acc`; the list ends before the first
/// token that is not a string, or at the end of the tokens.
pub open spec fn param_list(toks: Seq<TokenView>, pos: int, acc: Seq<ParamView>) -> Parsed<Seq<ParamView>>
    decreases toks.len() - pos,
{
    if pos >= toks.len() {
        Ok((acc, pos))
    } else {
        match toks[pos] {
            TokenView::String(s) => {
                let words = whitespace_words(s);
                if words.len() != 2 {
                    Err(
                        Halt::Failed(
                            ParserError {
                                error_type: ParserErrorType::UnexpectedToken,
                                culprit: Culprit::Declaration(pos as usize),
                                at: pos as usize,
                            },
                        ),
                    )
                } else {
                    match param_kind(words[0], words[1]) {
                        None => Err(
                            Halt::Failed(
                                ParserError {
                                    error_type: ParserErrorType::UnknownParamType,
                                    culprit: Culprit::TypeAndName(pos as usize),
                                    at: pos as usize,
                                },
                            ),
                        ),
                        Some(kind) => match param_values(kind, toks, pos + 1) {
                            Err(h) => Err(h),
                            Ok((v, p)) => {
                                proof {
                                    lemma_values_advance(kind, toks, pos + 1);
                                }
                                param_list(
                                    toks,
                                    p,
                                    acc.push(ParamView { kind, name: words[1], values: v }),
                                )
                            },
                        },
                    }
                }
            },
            _ => Ok((acc, pos)),
        }
    }
}

// ---------------------------------------------------------------------------
// Directives
// ---------------------------------------------------------------------------

/// The times that transformation directives apply to.
#[derive(Debug, Copy, Clone, PartialEq, Eq, Structural)]
pub enum TransformTimes {
    All,
    StartTime,
    EndTime,
}

/// Whether transformations given now apply at the start time.
pub open spec fn includes_start(t: TransformTimes) -> bool {
    t is All || t is StartTime
}

/// What the parser carries from one directive to the next, and from a file to
/// the files it includes: the active transform times, those saved by the open
/// attribute and transform blocks, how many attribute blocks are open and how
/// many transform blocks are.
pub struct ParserState {
    times: TransformTimes,
    times_stack: Vec<TransformTimes>,
    depth: usize,
    transform_depth: usize,
}

pub struct ParserStateView {
    pub times: TransformTimes,
    pub times_stack: Seq<TransformTimes>,
    pub depth: nat,
    pub transform_depth: nat,
}

impl View for ParserState {
    type V = ParserStateView;

    closed spec fn view(&self) -> ParserStateView {
        ParserStateView {
            times: self.times,
            times_stack: self.times_stack@,
            depth: self.depth as nat,
            transform_depth: self.transform_depth as nat,
        }
    }
}

impl ParserState {
    /// Each open attribute or transform block saved the transform times.
    pub closed spec fn wf(&self) -> bool {
        self.depth + self.transform_depth == self.times_stack@.len()
    }

    /// The state at the start of a scene file.
    pub fn new() -> (r: Self)
        ensures
            r.wf(),
            r@ == (ParserStateView {
                times: TransformTimes::All,
                times_stack: Seq::empty(),
                depth: 0,
                transform_depth: 0,
            }),
    {
        Self { times: TransformTimes::All, times_stack: Vec::new(), depth: 0, transform_depth: 0 }
    }
}

/// A directive of a scene file, with its arguments given by token indices.
#[derive(Debug)]
pub enum Directive {
    Camera(Vec<Param>),
    Film(Vec<Param>),
    /// The index of the string that names the file to read in at this point.
    Include(usize),
    LightSource(usize, Vec<Param>),
    /// The index of the first of nine numbers.
    LookAt(usize),
    NamedMaterial(usize),
    Material(usize, Vec<Param>),
    /// The indices of the material's name and of its type.
    MakeNamedMaterial(usize, usize, Vec<Param>),
    /// The index of the first of four numbers: the angle and the axis.
    Rotate(usize),
    /// The index of the first of three numbers.
    Scale(usize),
    Shape(usize, Vec<Param>),
    /// The index of the first of three numbers.
    Translate(usize),
    AttributeBegin,
    AttributeEnd,
    /// An `AttributeEnd` with no saved state to restore; it is ignored.
    UnmatchedAttributeEnd,
    TransformBegin,
    TransformEnd,
    /// A `TransformEnd` with no saved state to restore; it is ignored.
    UnmatchedTransformEnd,
    WorldBegin,
    /// A definition that is read and ignored; holds the index of its keyword.
    Ignored(usize),
}

pub enum DirectiveView {
    Camera(Seq<ParamView>),
    Film(Seq<ParamView>),
    Include(usize),
    LightSource(usize, Seq<ParamView>),
    LookAt(usize),
    NamedMaterial(usize),
    Material(usize, Seq<ParamView>),
    MakeNamedMaterial(usize, usize, Seq<ParamView>),
    Rotate(usize),
    Scale(usize),
    Shape(usize, Seq<ParamView>),
    Translate(usize),
    AttributeBegin,
    AttributeEnd,
    UnmatchedAttributeEnd,
    TransformBegin,
    TransformEnd,
    UnmatchedTransformEnd,
    WorldBegin,
    Ignored(usize),
}

impl View for Directive {
    type V = DirectiveView;

    open spec fn view(&self) -> DirectiveView {
        match self {
            Directive::Camera(p) => DirectiveView::Camera(param_views(p@)),
            Directive::Film(p) => DirectiveView::Film(param_views(p@)),
            Directive::Include(i) => DirectiveView::Include(*i),
            Directive::LightSource(i, p) => DirectiveView::LightSource(*i, param_views(p@)),
            Directive::LookAt(i) => DirectiveView::LookAt(*i),
            Directive::NamedMaterial(i) => DirectiveView::NamedMaterial(*i),
            Directive::Material(i, p) => DirectiveView::Material(*i, param_views(p@)),
            Directive::MakeNamedMaterial(i, j, p) => DirectiveView::MakeNamedMaterial(
                *i,
                *j,
                param_views(p@),
            ),
            Directive::Rotate(i) => DirectiveView::Rotate(*i),
            Directive::Scale(i) => DirectiveView::Scale(*i),
            Directive::Shape(i, p) => DirectiveView::Shape(*i, param_views(p@)),
            Directive::Translate(i) => DirectiveView::Translate(*i),
            Directive::AttributeBegin => DirectiveView::AttributeBegin,
            Directive::AttributeEnd => DirectiveView::AttributeEnd,
            Directive::UnmatchedAttributeEnd => DirectiveView::UnmatchedAttributeEnd,
            Directive::TransformBegin => DirectiveView::TransformBegin,
            Directive::TransformEnd => DirectiveView::TransformEnd,
            Directive::UnmatchedTransformEnd => DirectiveView::UnmatchedTransformEnd,
            Directive::WorldBegin => DirectiveView::WorldBegin,
            Directive::Ignored(i) => DirectiveView::Ignored(*i),
        }
    }
}

/// The views of `directives`.
pub open spec fn directive_views(directives: Seq<Directive>) -> Seq<DirectiveView> {
    directives.map_values(|d: Directive| d@)
}

/// The index after a string token at `pos`.
pub open spec fn string_arg(toks: Seq<TokenView>, pos: int) -> Result<int, Halt> {
    if pos >= toks.len() {
        Err(Halt::OutOfTokens)
    } else if toks[pos] is String {
        Ok(pos + 1)
    } else {
        Err(unexpected(pos))
    }
}

/// The index after `count` number tokens from `pos`.
pub open spec fn number_args(toks: Seq<TokenView>, pos: int, count: nat) -> Result<int, Halt>
    decreases count,
{
    if count == 0 {
        Ok(pos)
    } else if pos >= toks.len() {
        Err(Halt::OutOfTokens)
    } else if toks[pos] is Number {
        number_args(toks, pos + 1, (count - 1) as nat)
    } else {
        Err(unexpected(pos))
    }
}

/// A string at `pos` followed by a parameter list.
pub open spec fn named_params(toks: Seq<TokenView>, pos: int) -> Parsed<Seq<ParamView>> {
    match string_arg(toks, pos) {
        Err(h) => Err(h),
        Ok(p) => param_list(toks, p, Seq::empty()),
    }
}

/// One step of the parser: the directive that starts at `pos`, if it is one
/// that the caller acts on, the index after it, and the state after it.
pub open spec fn directive(toks: Seq<TokenView>, pos: int, st: ParserStateView) -> Result<
    (Option<DirectiveView>, int, ParserStateView),
    Halt,
> {
    if pos >= toks.len() {
        Err(Halt::OutOfTokens)
    } else {
        let q = pos + 1;
        match toks[pos] {
            TokenView::ActiveTransform => if q >= toks.len() {
                Err(Halt::OutOfTokens)
            } else {
                match toks[q] {
                    TokenView::All => Ok((None, q + 1, ParserStateView { times: TransformTimes::All, ..st })),
                    TokenView::StartTime => Ok((None, q + 1, ParserStateView { times: TransformTimes::StartTime, ..st })),
                    TokenView::EndTime => Ok((None, q + 1, ParserStateView { times: TransformTimes::EndTime, ..st })),
                    _ => Err(unexpected(q)),
                }
            },
            TokenView::AreaLightSource | TokenView::Integrator | TokenView::Sampler => match named_params(toks, q) {
                Ok((_, p)) => Ok((Some(DirectiveView::Ignored(pos as usize)), p, st)),
                Err(h) => Err(h),
            },
            TokenView::AttributeBegin => Ok((
                Some(DirectiveView::AttributeBegin),
                q,
                ParserStateView { times_stack: st.times_stack.push(st.times), depth: st.depth + 1, ..st },
            )),
            TokenView::AttributeEnd => if st.depth == 0 {
                Ok((Some(DirectiveView::UnmatchedAttributeEnd), q, st))
            } else {
                Ok((
                    Some(DirectiveView::AttributeEnd),
                    q,
                    ParserStateView {
                        times: st.times_stack.last(),
                        times_stack: st.times_stack.drop_last(),
                        depth: (st.depth - 1) as nat,
                        transform_depth: st.transform_depth,
                    },
                ))
            },
            TokenView::Camera => if q >= toks.len() {
                Err(Halt::OutOfTokens)
            } else {
                match toks[q] {
                    TokenView::String(name) => if name != "perspective".spec_bytes() {
                        Err(Halt::NotPerspective)
                    } else {
                        match param_list(toks, q + 1, Seq::empty()) {
                            Ok((ps, p)) => Ok((Some(DirectiveView::Camera(ps)), p, st)),
                            Err(h) => Err(h),
                        }
                    },
                    _ => Err(unexpected(q)),
                }
            },
            TokenView::Film => match named_params(toks, q) {
                Ok((ps, p)) => Ok((Some(DirectiveView::Film(ps)), p, st)),
                Err(h) => Err(h),
            },
            TokenView::Include => match string_arg(toks, q) {
                Ok(p) => Ok((Some(DirectiveView::Include(q as usize)), p, st)),
                Err(h) => Err(h),
            },
            TokenView::LightSource => match named_params(toks, q) {
                Ok((ps, p)) => Ok((Some(DirectiveView::LightSource(q as usize, ps)), p, st)),
                Err(h) => Err(h),
            },
            TokenView::LookAt => if includes_start(st.times) {
                match number_args(toks, q, 9) {
                    Ok(p) => Ok((Some(DirectiveView::LookAt(q as usize)), p, st)),
                    Err(h) => Err(h),
                }
            } else {
                Ok((None, q, st))
            },
            TokenView::NamedMaterial => match string_arg(toks, q) {
                Ok(p) => Ok((Some(DirectiveView::NamedMaterial(q as usize)), p, st)),
                Err(h) => Err(h),
            },
            TokenView::Material => match named_params(toks, q) {
                Ok((ps, p)) => Ok((Some(DirectiveView::Material(q as usize, ps)), p, st)),
                Err(h) => Err(h),
            },
            TokenView::MakeNamedMaterial => match string_arg(toks, q) {
                Err(h) => Err(h),
                Ok(_) => if q + 1 >= toks.len() {
                    Err(Halt::OutOfTokens)
                } else {
                    match toks[q + 1] {
                        TokenView::String(decl) => if decl != "string type".spec_bytes() {
                            Err(
                                Halt::Failed(
                                    ParserError {
                                        error_type: ParserErrorType::UnknownParamType,
                                        culprit: Culprit::Token(pos as usize),
                                        at: (q + 1) as usize,
                                    },
                                ),
                            )
                        } else {
                            match named_params(toks, q + 2) {
                                Ok((ps, p)) => Ok((
                                    Some(DirectiveView::MakeNamedMaterial(q as usize, (q + 2) as usize, ps)),
                                    p,
                                    st,
                                )),
                                Err(h) => Err(h),
                            }
                        },
                        _ => Err(unexpected(q + 1)),
                    }
                },
            },
            TokenView::Rotate => match number_args(toks, q, 4) {
                Ok(p) => Ok((Some(DirectiveView::Rotate(q as usize)), p, st)),
                Err(h) => Err(h),
            },
            TokenView::Shape => match named_params(toks, q) {
                Ok((ps, p)) => Ok((Some(DirectiveView::Shape(q as usize, ps)), p, st)),
                Err(h) => Err(h),
            },
            TokenView::Scale => match number_args(toks, q, 3) {
                Ok(p) => Ok((Some(DirectiveView::Scale(q as usize)), p, st)),
                Err(h) => Err(h),
            },
            TokenView::Texture => match string_arg(toks, q) {
                Err(h) => Err(h),
                Ok(_) => match string_arg(toks, q + 1) {
                    Err(h) => Err(h),
                    Ok(_) => match named_params(toks, q + 2) {
                        Ok((_, p)) => Ok((Some(DirectiveView::Ignored(pos as usize)), p, st)),
                        Err(h) => Err(h),
                    },
                },
            },
            TokenView::Translate => match number_args(toks, q, 3) {
                Ok(p) => Ok((Some(DirectiveView::Translate(q as usize)), p, st)),
                Err(h) => Err(h),
            },
            TokenView::TransformBegin => Ok((
                Some(DirectiveView::TransformBegin),
                q,
                ParserStateView {
                    times_stack: st.times_stack.push(st.times),
                    transform_depth: st.transform_depth + 1,
                    ..st
                },
            )),
            TokenView::TransformEnd => if st.transform_depth == 0 {
                Ok((Some(DirectiveView::UnmatchedTransformEnd), q, st))
            } else {
                Ok((
                    Some(DirectiveView::TransformEnd),
                    q,
                    ParserStateView {
                        times: st.times_stack.last(),
                        times_stack: st.times_stack.drop_last(),
                        depth: st.depth,
                        transform_depth: (st.transform_depth - 1) as nat,
                    },
                ))
            },
            TokenView::WorldBegin => Ok((Some(DirectiveView::WorldBegin), q, st)),
            TokenView::WorldEnd => Ok((None, q, st)),
            _ => Err(
                Halt::Failed(
                    ParserError {
                        error_type: ParserErrorType::UnimplementedToken,
                        culprit: Culprit::Token(pos as usize),
                        at: pos as usize,
                    },
                ),
            ),
        }
    }
}

/// Whether a `trianglemesh` with `n` vertex indices can be built: it needs at
/// least one triangle, and whole triangles only.
pub fn is_valid_index_count(n: usize) -> (r: bool)
    ensures
        r == (n >= 3 && n % 3 == 0),
{
    n >= 3 && n % 3 == 0
}

// ---------------------------------------------------------------------------
// Reading values never goes backwards
// ---------------------------------------------------------------------------

proof fn lemma_number_items_advance(toks: Seq<TokenView>, pos: int, acc: Seq<usize>)
    ensures
        number_items(toks, pos, acc) matches Ok((_, p)) ==> pos < p <= toks.len(),
    decreases toks.len() - pos,
{
    if pos < toks.len() && toks[pos] is Number {
        lemma_number_items_advance(toks, pos + 1, acc.push(pos as usize));
    }
}

proof fn lemma_string_items_advance(toks: Seq<TokenView>, pos: int, acc: Seq<usize>)
    ensures
        string_items(toks, pos, acc) matches Ok((_, p)) ==> pos < p <= toks.len(),
    decreases toks.len() - pos,
{
    if pos < toks.len() && toks[pos] is String {
        lemma_string_items_advance(toks, pos + 1, acc.push(pos as usize));
    }
}

proof fn lemma_bool_items_advance(toks: Seq<TokenView>, pos: int, acc: Seq<bool>)
    ensures
        bool_items(toks, pos, acc) matches Ok((_, p)) ==> pos < p <= toks.len(),
    decreases toks.len() - pos,
{
    if pos < toks.len() {
        if let TokenView::String(s) = toks[pos] {
            if let Ok(b) = bool_word(s, pos) {
                lemma_bool_items_advance(toks, pos + 1, acc.push(b));
            }
        }
    }
}

proof fn lemma_tuple_items_advance(toks: Seq<TokenView>, pos: int, arity: int, j: int, acc: Seq<usize>)
    ensures
        tuple_items(toks, pos, arity, j, acc) matches Ok((_, p)) ==> pos < p <= toks.len(),
    decreases toks.len() - pos,
{
    if pos < toks.len() && toks[pos] is Number {
        lemma_tuple_items_advance(
            toks,
            pos + 1,
            arity,
            if j + 1 == arity {
                0
            } else {
                j + 1
            },
            acc.push(pos as usize),
        );
    }
}

/// The values of a parameter take up at least one token.
pub proof fn lemma_values_advance(kind: ParamKind, toks: Seq<TokenView>, pos: int)
    ensures
        param_values(kind, toks, pos) matches Ok((_, p)) ==> pos < p <= toks.len(),
{
    lemma_number_items_advance(toks, pos + 1, Seq::empty());
    lemma_string_items_advance(toks, pos + 1, Seq::empty());
    lemma_bool_items_advance(toks, pos + 1, Seq::empty());
    lemma_tuple_items_advance(toks, pos + 1, 2, 0, Seq::empty());
    lemma_tuple_items_advance(toks, pos + 1, 3, 0, Seq::empty());
}

// ---------------------------------------------------------------------------
// Reading values
// ---------------------------------------------------------------------------

/// The view of the outcome of reading token indices.
pub open spec fn indices_view(r: Result<(Vec<usize>, usize), Halt>) -> Parsed<Seq<usize>> {
    match r {
        Ok((v, p)) => Ok((v@, p as int)),
        Err(h) => Err(h),
    }
}

/// The view of the outcome of reading booleans.
pub open spec fn bools_view(r: Result<(Vec<bool>, usize), Halt>) -> Parsed<Seq<bool>> {
    match r {
        Ok((v, p)) => Ok((v@, p as int)),
        Err(h) => Err(h),
    }
}

/// The view of the outcome of reading parameter values.
pub open spec fn values_view(r: Result<(ParamValues, usize), Halt>) -> Parsed<ParamValuesView> {
    match r {
        Ok((v, p)) => Ok((v@, p as int)),
        Err(h) => Err(h),
    }
}

/// The view of the outcome of reading a parameter list.
pub open spec fn params_view(r: Result<(Vec<Param>, usize), Halt>) -> Parsed<Seq<ParamView>> {
    match r {
        Ok((v, p)) => Ok((param_views(v@), p as int)),
        Err(h) => Err(h),
    }
}

fn unexpected_at(at: usize) -> (r: Halt)
    ensures
        r == unexpected(at as int),
{
    Halt::Failed(
        ParserError {
            error_type: ParserErrorType::UnexpectedToken,
            culprit: Culprit::Token(at),
            at,
        },
    )
}

/// Reads a single number, or numbers between brackets.
pub fn parse_number_list(tokens: &[Token], pos: usize) -> (r: Result<(Vec<usize>, usize), Halt>)
    ensures
        indices_view(r) == number_list(token_views(tokens@), pos as int),
{
    let ghost toks = token_views(tokens@);
    if pos >= tokens.len() {
        return Err(Halt::OutOfTokens);
    }
    match &tokens[pos] {
        Token::Number(_) => {
            let mut v: Vec<usize> = Vec::new();
            v.push(pos);
            proof {
                assert(v@ =~= seq![pos]);
            }
            return Ok((v, pos + 1));
        },
        Token::LeftBracket => {},
        _ => {
            return Err(unexpected_at(pos));
        },
    }
    let mut acc: Vec<usize> = Vec::new();
    let mut p = pos + 1;
    while p < tokens.len()
        invariant
            p <= tokens@.len(),
            toks == token_views(tokens@),
            number_items(toks, p as int, acc@) == number_items(toks, pos + 1, Seq::empty()),
            number_list(toks, pos as int) == number_items(toks, pos + 1, Seq::empty()),
        decreases tokens.len() - p,
    {
        match &tokens[p] {
            Token::Number(_) => {
                acc.push(p);
                p = p + 1;
            },
            Token::RightBracket => {
                return Ok((acc, p + 1));
            },
            _ => {
                return Err(unexpected_at(p));
            },
        }
    }
    Err(Halt::OutOfTokens)
}

/// Reads a single string, or strings between brackets.
pub fn parse_string_list(tokens: &[Token], pos: usize) -> (r: Result<(Vec<usize>, usize), Halt>)
    ensures
        indices_view(r) == string_list(token_views(tokens@), pos as int),
{
    let ghost toks = token_views(tokens@);
    if pos >= tokens.len() {
        return Err(Halt::OutOfTokens);
    }
    match &tokens[pos] {
        Token::String(_) => {
            let mut v: Vec<usize> = Vec::new();
            v.push(pos);
            proof {
                assert(v@ =~= seq![pos]);
            }
            return Ok((v, pos + 1));
        },
        Token::LeftBracket => {},
        _ => {
            return Err(unexpected_at(pos));
        },
    }
    let mut acc: Vec<usize> = Vec::new();
    let mut p = pos + 1;
    while p < tokens.len()
        invariant
            p <= tokens@.len(),
            toks == token_views(tokens@),
            string_items(toks, p as int, acc@) == string_items(toks, pos + 1, Seq::empty()),
            string_list(toks, pos as int) == string_items(toks, pos + 1, Seq::empty()),
        decreases tokens.len() - p,
    {
        match &tokens[p] {
            Token::String(_) => {
                acc.push(p);
                p = p + 1;
            },
            Token::RightBracket => {
                return Ok((acc, p + 1));
            },
            _ => {
                return Err(unexpected_at(p));
            },
        }
    }
    Err(Halt::OutOfTokens)
}

fn parse_bool_word(s: &Vec<u8>, at: usize) -> (r: Result<bool, Halt>)
    ensures
        r == bool_word(s@, at as int),
{
    if bytes_equal(s.as_slice(), "true".as_bytes()) {
        Ok(true)
    } else if bytes_equal(s.as_slice(), "false".as_bytes()) {
        Ok(false)
    } else {
        Err(
            Halt::Failed(
                ParserError {
                    error_type: ParserErrorType::UnexpectedToken,
                    culprit: Culprit::QuotedWord(at),
                    at,
                },
            ),
        )
    }
}

/// Reads a single boolean, or booleans between brackets.
pub fn parse_bool_list(tokens: &[Token], pos: usize) -> (r: Result<(Vec<bool>, usize), Halt>)
    ensures
        bools_view(r) == bool_list(token_views(tokens@), pos as int),
{
    let ghost toks = token_views(tokens@);
    if pos >= tokens.len() {
        return Err(Halt::OutOfTokens);
    }
    match &tokens[pos] {
        Token::String(s) => {
            let b = parse_bool_word(s, pos)?;
            let mut v: Vec<bool> = Vec::new();
            v.push(b);
            proof {
                assert(v@ =~= seq![b]);
            }
            return Ok((v, pos + 1));
        },
        Token::LeftBracket => {},
        _ => {
            return Err(unexpected_at(pos));
        },
    }
    let mut acc: Vec<bool> = Vec::new();
    let mut p = pos + 1;
    while p < tokens.len()
        invariant
            p <= tokens@.len(),
            toks == token_views(tokens@),
            bool_items(toks, p as int, acc@) == bool_items(toks, pos + 1, Seq::empty()),
            bool_list(toks, pos as int) == bool_items(toks, pos + 1, Seq::empty()),
        decreases tokens.len() - p,
    {
        match &tokens[p] {
            Token::String(s) => {
                match parse_bool_word(s, p) {
                    Ok(b) => {
                        acc.push(b);
                        p = p + 1;
                    },
                    Err(h) => {
                        return Err(h);
                    },
                }
            },
            Token::RightBracket => {
                return Ok((acc, p + 1));
            },
            _ => {
                return Err(unexpected_at(p));
            },
        }
    }
    Err(Halt::OutOfTokens)
}

/// Reads groups of `arity` numbers between brackets.
pub fn parse_tuple_list(tokens: &[Token], pos: usize, arity: usize) -> (r: Result<(Vec<usize>, usize), Halt>)
    requires
        arity >= 1,
    ensures
        indices_view(r) == tuple_list(token_views(tokens@), pos as int, arity as int),
{
    let ghost toks = token_views(tokens@);
    if pos >= tokens.len() {
        return Err(Halt::OutOfTokens);
    }
    match &tokens[pos] {
        Token::LeftBracket => {},
        _ => {
            return Err(unexpected_at(pos));
        },
    }
    let mut acc: Vec<usize> = Vec::new();
    let mut p = pos + 1;
    let mut j: usize = 0;
    while p < tokens.len()
        invariant
            p <= tokens@.len(),
            j < arity,
            toks == token_views(tokens@),
            tuple_items(toks, p as int, arity as int, j as int, acc@) == tuple_items(
                toks,
                pos + 1,
                arity as int,
                0,
                Seq::empty(),
            ),
            tuple_list(toks, pos as int, arity as int) == tuple_items(
                toks,
                pos + 1,
                arity as int,
                0,
                Seq::empty(),
            ),
        decreases tokens.len() - p,
    {
        match &tokens[p] {
            Token::Number(_) => {
                acc.push(p);
                p = p + 1;
                j = if j + 1 == arity {
                    0
                } else {
                    j + 1
                };
            },
            Token::RightBracket => {
                if j == 0 {
                    return Ok((acc, p + 1));
                } else {
                    return Err(unexpected_at(p));
                }
            },
            _ => {
                return Err(unexpected_at(p));
            },
        }
    }
    Err(Halt::OutOfTokens)
}

fn tokens_of(r: Result<(Vec<usize>, usize), Halt>) -> (out: Result<(ParamValues, usize), Halt>)
    ensures
        values_view(out) == as_tokens(indices_view(r)),
{
    match r {
        Ok((v, p)) => Ok((ParamValues::Tokens(v), p)),
        Err(h) => Err(h),
    }
}

/// Reads the values of a parameter of kind `kind`.
pub fn parse_param_values(kind: ParamKind, tokens: &[Token], pos: usize) -> (r: Result<(ParamValues, usize), Halt>)
    ensures
        values_view(r) == param_values(kind, token_views(tokens@), pos as int),
{
    match kind {
        ParamKind::Bool => match parse_bool_list(tokens, pos) {
            Ok((v, p)) => Ok((ParamValues::Bools(v), p)),
            Err(h) => Err(h),
        },
        ParamKind::Float | ParamKind::Integer | ParamKind::Blackbody => tokens_of(
            parse_number_list(tokens, pos),
        ),
        ParamKind::Uv => tokens_of(parse_tuple_list(tokens, pos, 2)),
        ParamKind::Str | ParamKind::Texture => tokens_of(parse_string_list(tokens, pos)),
        ParamKind::Rgb | ParamKind::Point | ParamKind::Normal => tokens_of(
            parse_tuple_list(tokens, pos, 3),
        ),
        ParamKind::Spectrum => {
            if pos < tokens.len() {
                if let Token::String(_) = &tokens[pos] {
                    return Ok((ParamValues::SpectrumFile(pos), pos + 1));
                }
            }
            tokens_of(parse_number_list(tokens, pos))
        },
    }
}

/// The kind of a parameter declared with type `t` and name `name`.
pub fn parse_param_kind(t: &[u8], name: &[u8]) -> (r: Option<ParamKind>)
    ensures
        r == param_kind(t@, name@),
{
    if bytes_equal(t, "bool".as_bytes()) {
        Some(ParamKind::Bool)
    } else if bytes_equal(t, "float".as_bytes()) {
        if bytes_equal(name, "uv".as_bytes()) {
            Some(ParamKind::Uv)
        } else {
            Some(ParamKind::Float)
        }
    } else if bytes_equal(t, "integer".as_bytes()) {
        Some(ParamKind::Integer)
    } else if bytes_equal(t, "string".as_bytes()) {
        Some(ParamKind::Str)
    } else if bytes_equal(t, "color".as_bytes()) || bytes_equal(t, "rgb".as_bytes()) {
        Some(ParamKind::Rgb)
    } else if bytes_equal(t, "spectrum".as_bytes()) {
        Some(ParamKind::Spectrum)
    } else if bytes_equal(t, "point".as_bytes()) {
        Some(ParamKind::Point)
    } else if bytes_equal(t, "normal".as_bytes()) {
        Some(ParamKind::Normal)
    } else if bytes_equal(t, "blackbody".as_bytes()) {
        Some(ParamKind::Blackbody)
    } else if bytes_equal(t, "texture".as_bytes()) {
        Some(ParamKind::Texture)
    } else {
        None
    }
}

/// Reads a parameter list: each parameter is a string that declares its type
/// and name, followed by its values. The list ends before the first token
/// that is not a string, or at the end of the tokens.
pub fn parse_param_list(tokens: &[Token], pos: usize) -> (r: Result<(Vec<Param>, usize), Halt>)
    ensures
        params_view(r) == param_list(token_views(tokens@), pos as int, Seq::empty()),
{
    let ghost toks = token_views(tokens@);
    let mut acc: Vec<Param> = Vec::new();
    if pos >= tokens.len() {
        proof {
            assert(param_views(acc@) =~= Seq::<ParamView>::empty());
        }
        return Ok((acc, pos));
    }
    let mut p = pos;
    proof {
        assert(param_views(acc@) =~= Seq::<ParamView>::empty());
    }
    while p < tokens.len()
        invariant
            p <= tokens@.len(),
            toks == token_views(tokens@),
            param_list(toks, p as int, param_views(acc@)) == param_list(
                toks,
                pos as int,
                Seq::empty(),
            ),
        decreases tokens.len() - p,
    {
        let s = match &tokens[p] {
            Token::String(s) => s,
            _ => {
                return Ok((acc, p));
            },
        };
        let (t, name) = match try_split_param_def(s.as_slice()) {
            Some(d) => d,
            None => {
                return Err(
                    Halt::Failed(
                        ParserError {
                            error_type: ParserErrorType::UnexpectedToken,
                            culprit: Culprit::Declaration(p),
                            at: p,
                        },
                    ),
                );
            },
        };
        let kind = match parse_param_kind(t.as_slice(), name.as_slice()) {
            Some(k) => k,
            None => {
                return Err(
                    Halt::Failed(
                        ParserError {
                            error_type: ParserErrorType::UnknownParamType,
                            culprit: Culprit::TypeAndName(p),
                            at: p,
                        },
                    ),
                );
            },
        };
        let (values, next) = parse_param_values(kind, tokens, p + 1)?;
        proof {
            lemma_values_advance(kind, toks, p + 1);
        }
        let ghost before = param_views(acc@);
        let param = Param { kind, name, values };
        let ghost pv = param@;
        acc.push(param);
        proof {
            assert(param_views(acc@) =~= before.push(pv));
        }
        p = next;
    }
    Ok((acc, p))
}

proof fn lemma_number_args_advance(toks: Seq<TokenView>, pos: int, count: nat)
    requires
        0 <= pos,
    ensures
        number_args(toks, pos, count) matches Ok(p) ==> p == pos + count && (count > 0 ==> p
            <= toks.len()),
    decreases count,
{
    if count > 0 && pos < toks.len() && toks[pos] is Number {
        lemma_number_args_advance(toks, pos + 1, (count - 1) as nat);
    }
}

/// A parameter list ends at or after where it starts, within the tokens.
pub proof fn lemma_param_list_advance(toks: Seq<TokenView>, pos: int, acc: Seq<ParamView>)
    requires
        0 <= pos,
    ensures
        param_list(toks, pos, acc) matches Ok((_, p)) ==> pos <= p && (pos <= toks.len() ==> p
            <= toks.len()),
    decreases toks.len() - pos,
{
    if pos < toks.len() {
        if let TokenView::String(s) = toks[pos] {
            let words = whitespace_words(s);
            if words.len() == 2 {
                if let Some(kind) = param_kind(words[0], words[1]) {
                    lemma_values_advance(kind, toks, pos + 1);
                    if let Ok((v, p)) = param_values(kind, toks, pos + 1) {
                        lemma_param_list_advance(
                            toks,
                            p,
                            acc.push(ParamView { kind, name: words[1], values: v }),
                        );
                    }
                }
            }
        }
    }
}

/// Each directive takes up at least one token.
pub proof fn lemma_directive_advance(toks: Seq<TokenView>, pos: int, st: ParserStateView)
    requires
        0 <= pos,
    ensures
        directive(toks, pos, st) matches Ok((_, p, _)) ==> pos < p <= toks.len(),
{
    let q = pos + 1;
    lemma_param_list_advance(toks, q + 1, Seq::empty());
    lemma_param_list_advance(toks, q + 2, Seq::empty());
    lemma_param_list_advance(toks, q + 3, Seq::empty());
    lemma_number_args_advance(toks, q, 9);
    lemma_number_args_advance(toks, q, 4);
    lemma_number_args_advance(toks, q, 3);
}

/// Directives from `pos` on, after those already read, `acc`: up to and
/// including the next `Include`, after which the index of the next token is
/// given, or up to where parsing stops; with the state after them.
pub open spec fn directives(toks: Seq<TokenView>, pos: int, st: ParserStateView, acc: Seq<DirectiveView>) -> (
    Seq<DirectiveView>,
    Result<int, Halt>,
    ParserStateView,
)
    decreases toks.len() - pos,
    when 0 <= pos
{
    match directive(toks, pos, st) {
        Err(h) => (acc, Err(h), st),
        Ok((d, p, next)) => {
            proof {
                lemma_directive_advance(toks, pos, st);
            }
            let acc2 = match d {
                Some(x) => acc.push(x),
                None => acc,
            };
            if d matches Some(DirectiveView::Include(_)) {
                (acc2, Ok(p), next)
            } else {
                directives(toks, p, next, acc2)
            }
        },
    }
}

// ---------------------------------------------------------------------------
// Reading directives
// ---------------------------------------------------------------------------

fn parse_string_arg(tokens: &[Token], pos: usize) -> (r: Result<usize, Halt>)
    ensures
        match r {
            Ok(p) => string_arg(token_views(tokens@), pos as int) == Ok::<int, Halt>(p as int),
            Err(h) => string_arg(token_views(tokens@), pos as int) == Err::<int, Halt>(h),
        },
{
    if pos >= tokens.len() {
        Err(Halt::OutOfTokens)
    } else if let Token::String(_) = &tokens[pos] {
        Ok(pos + 1)
    } else {
        Err(unexpected_at(pos))
    }
}

fn parse_number_args(tokens: &[Token], pos: usize, count: usize) -> (r: Result<usize, Halt>)
    ensures
        match r {
            Ok(p) => number_args(token_views(tokens@), pos as int, count as nat) == Ok::<int, Halt>(
                p as int,
            ),
            Err(h) => number_args(token_views(tokens@), pos as int, count as nat) == Err::<
                int,
                Halt,
            >(h),
        },
{
    let ghost toks = token_views(tokens@);
    let mut p = pos;
    let mut left = count;
    while left > 0
        invariant
            toks == token_views(tokens@),
            p as int + left as int == pos as int + count as int,
            number_args(toks, p as int, left as nat) == number_args(toks, pos as int, count as nat),
        decreases left,
    {
        if p >= tokens.len() {
            return Err(Halt::OutOfTokens);
        }
        if let Token::Number(_) = &tokens[p] {
            p = p + 1;
            left = left - 1;
        } else {
            return Err(unexpected_at(p));
        }
    }
    Ok(p)
}

fn parse_named_params(tokens: &[Token], pos: usize) -> (r: Result<(Vec<Param>, usize), Halt>)
    ensures
        params_view(r) == named_params(token_views(tokens@), pos as int),
{
    let p = parse_string_arg(tokens, pos)?;
    parse_param_list(tokens, p)
}

/// The view of the outcome of reading one directive.
pub open spec fn step_view(r: Result<(Option<Directive>, usize), Halt>, st: ParserStateView) -> Result<
    (Option<DirectiveView>, int, ParserStateView),
    Halt,
> {
    match r {
        Ok((d, p)) => Ok(
            (
                match d {
                    Some(x) => Some(x@),
                    None => None,
                },
                p as int,
                st,
            ),
        ),
        Err(h) => Err(h),
    }
}

impl ParserState {
    /// Reads the directive that starts at `pos`. Returns it, if it is one the
    /// caller acts on, with the index after it.
    #[verifier::rlimit(40)]
    pub fn parse_directive(&mut self, tokens: &[Token], pos: usize) -> (r: Result<(Option<Directive>, usize), Halt>)
        requires
            old(self).wf(),
        ensures
            final(self).wf(),
            step_view(r, final(self)@) == directive(token_views(tokens@), pos as int, old(self)@),
            r is Err ==> final(self)@ == old(self)@,
    {
        let ghost toks = token_views(tokens@);
        if pos >= tokens.len() {
            return Err(Halt::OutOfTokens);
        }
        let q = pos + 1;
        match &tokens[pos] {
            Token::ActiveTransform => {
                if q >= tokens.len() {
                    return Err(Halt::OutOfTokens);
                }
                let times = match &tokens[q] {
                    Token::All => TransformTimes::All,
                    Token::StartTime => TransformTimes::StartTime,
                    Token::EndTime => TransformTimes::EndTime,
                    _ => {
                        return Err(unexpected_at(q));
                    },
                };
                self.times = times;
                Ok((None, q + 1))
            },
            Token::AreaLightSource | Token::Integrator | Token::Sampler => {
                let (_, p) = parse_named_params(tokens, q)?;
                Ok((Some(Directive::Ignored(pos)), p))
            },
            Token::AttributeBegin => {
                self.times_stack.push(self.times);
                let _saved = self.times_stack.len();
                self.depth = self.depth + 1;
                Ok((Some(Directive::AttributeBegin), q))
            },
            Token::AttributeEnd => {
                if self.depth == 0 {
                    Ok((Some(Directive::UnmatchedAttributeEnd), q))
                } else {
                    let times = self.times_stack.pop().unwrap();
                    self.times = times;
                    self.depth = self.depth - 1;
                    Ok((Some(Directive::AttributeEnd), q))
                }
            },
            Token::Camera => {
                if q >= tokens.len() {
                    return Err(Halt::OutOfTokens);
                }
                match &tokens[q] {
                    Token::String(name) => {
                        if !bytes_equal(name.as_slice(), "perspective".as_bytes()) {
                            return Err(Halt::NotPerspective);
                        }
                    },
                    _ => {
                        return Err(unexpected_at(q));
                    },
                }
                let (ps, p) = parse_param_list(tokens, q + 1)?;
                Ok((Some(Directive::Camera(ps)), p))
            },
            Token::Film => {
                let (ps, p) = parse_named_params(tokens, q)?;
                Ok((Some(Directive::Film(ps)), p))
            },
            Token::Include => {
                let p = parse_string_arg(tokens, q)?;
                Ok((Some(Directive::Include(q)), p))
            },
            Token::LightSource => {
                let (ps, p) = parse_named_params(tokens, q)?;
                Ok((Some(Directive::LightSource(q, ps)), p))
            },
            Token::LookAt => {
                if self.times == TransformTimes::All || self.times == TransformTimes::StartTime {
                    let p = parse_number_args(tokens, q, 9)?;
                    Ok((Some(Directive::LookAt(q)), p))
                } else {
                    Ok((None, q))
                }
            },
            Token::NamedMaterial => {
                let p = parse_string_arg(tokens, q)?;
                Ok((Some(Directive::NamedMaterial(q)), p))
            },
            Token::Material => {
                let (ps, p) = parse_named_params(tokens, q)?;
                Ok((Some(Directive::Material(q, ps)), p))
            },
            Token::MakeNamedMaterial => {
                let d = parse_string_arg(tokens, q)?;
                if d >= tokens.len() {
                    return Err(Halt::OutOfTokens);
                }
                match &tokens[d] {
                    Token::String(decl) => {
                        if !bytes_equal(decl.as_slice(), "string type".as_bytes()) {
                            return Err(
                                Halt::Failed(
                                    ParserError {
                                        error_type: ParserErrorType::UnknownParamType,
                                        culprit: Culprit::Token(pos),
                                        at: d,
                                    },
                                ),
                            );
                        }
                    },
                    _ => {
                        return Err(unexpected_at(d));
                    },
                }
                let (ps, p) = parse_named_params(tokens, d + 1)?;
                Ok((Some(Directive::MakeNamedMaterial(q, d + 1, ps)), p))
            },
            Token::Rotate => {
                let p = parse_number_args(tokens, q, 4)?;
                Ok((Some(Directive::Rotate(q)), p))
            },
            Token::Shape => {
                let (ps, p) = parse_named_params(tokens, q)?;
                Ok((Some(Directive::Shape(q, ps)), p))
            },
            Token::Scale => {
                let p = parse_number_args(tokens, q, 3)?;
                Ok((Some(Directive::Scale(q)), p))
            },
            Token::Texture => {
                let a = parse_string_arg(tokens, q)?;
                let b = parse_string_arg(tokens, a)?;
                let (_, p) = parse_named_params(tokens, b)?;
                Ok((Some(Directive::Ignored(pos)), p))
            },
            Token::Translate => {
                let p = parse_number_args(tokens, q, 3)?;
                Ok((Some(Directive::Translate(q)), p))
            },
            Token::TransformBegin => {
                self.times_stack.push(self.times);
                let _saved = self.times_stack.len();
                self.transform_depth = self.transform_depth + 1;
                Ok((Some(Directive::TransformBegin), q))
            },
            Token::TransformEnd => {
                if self.transform_depth == 0 {
                    Ok((Some(Directive::UnmatchedTransformEnd), q))
                } else {
                    let times = self.times_stack.pop().unwrap();
                    self.times = times;
                    self.transform_depth = self.transform_depth - 1;
                    Ok((Some(Directive::TransformEnd), q))
                }
            },
            Token::WorldBegin => Ok((Some(Directive::WorldBegin), q)),
            Token::WorldEnd => Ok((None, q)),
            _ => Err(
                Halt::Failed(
                    ParserError {
                        error_type: ParserErrorType::UnimplementedToken,
                        culprit: Culprit::Token(pos),
                        at: pos,
                    },
                ),
            ),
        }
    }
}

/// The view of the outcome of reading directives.
pub open spec fn run_view(r: Result<usize, Halt>) -> Result<int, Halt> {
    match r {
        Ok(p) => Ok(p as int),
        Err(h) => Err(h),
    }
}

impl ParserState {
    /// Reads directives from `pos` on and appends those the caller acts on to
    /// `out`: up to and including the next `Include`, after which it returns
    /// the index of the next token, or up to where parsing stops, which it
    /// returns as the error.
    pub fn parse_directives(&mut self, tokens: &[Token], pos: usize, out: &mut Vec<Directive>) -> (r: Result<usize, Halt>)
        requires
            old(self).wf(),
        ensures
            final(self).wf(),
            (directive_views(final(out)@), run_view(r), final(self)@) == directives(
                token_views(tokens@),
                pos as int,
                old(self)@,
                directive_views(old(out)@),
            ),
    {
        let ghost toks = token_views(tokens@);
        let mut p = pos;
        let mut result: Result<usize, Halt> = Err(Halt::OutOfTokens);
        loop
            invariant_except_break
                self.wf(),
                toks == token_views(tokens@),
                directives(toks, p as int, self@, directive_views(out@)) == directives(
                    toks,
                    pos as int,
                    old(self)@,
                    directive_views(old(out)@),
                ),
            invariant
                self.wf(),
            ensures
                (directive_views(out@), run_view(result), self@) == directives(
                    toks,
                    pos as int,
                    old(self)@,
                    directive_views(old(out)@),
                ),
            decreases tokens@.len() - p,
        {
            let ghost st = self@;
            let ghost before = directive_views(out@);
            proof {
                lemma_directive_advance(toks, p as int, st);
            }
            match self.parse_directive(tokens, p) {
                Err(h) => {
                    result = Err(h);
                    break;
                },
                Ok((d, next)) => {
                    p = next;
                    match d {
                        Some(x) => {
                            let opens_file = matches!(x, Directive::Include(_));
                            let ghost xv = x@;
                            out.push(x);
                            proof {
                                assert(directive_views(out@) =~= before.push(xv));
                            }
                            if opens_file {
                                result = Ok(next);
                                break;
                            }
                        },
                        None => {},
                    }
                },
            }
        }
        result
    }
}

// ---------------------------------------------------------------------------
// What the parser hands back refers to tokens of the right kind
// ---------------------------------------------------------------------------

/// Every index in `ix` is that of a number token.
pub open spec fn all_numbers(toks: Seq<TokenView>, ix: Seq<usize>) -> bool {
    forall|k: int| 0 <= k < ix.len() ==> ix[k] < toks.len() && #[trigger] toks[ix[k] as int] is Number
}

/// Every index in `ix` is that of a string token.
pub open spec fn all_strings(toks: Seq<TokenView>, ix: Seq<usize>) -> bool {
    forall|k: int| 0 <= k < ix.len() ==> ix[k] < toks.len() && #[trigger] toks[ix[k] as int] is String
}

/// The values of a parameter of kind `kind` are of its type: booleans for
/// `bool`; string tokens for strings and textures; a string token or number
/// tokens for spectra; number tokens for the rest, in pairs for `uv` and in
/// triples for colors, points and normals.
pub open spec fn values_fit(toks: Seq<TokenView>, kind: ParamKind, v: ParamValuesView) -> bool {
    match kind {
        ParamKind::Bool => v is Bools,
        ParamKind::Float | ParamKind::Integer | ParamKind::Blackbody => v matches ParamValuesView::Tokens(
            ix,
        ) && all_numbers(toks, ix),
        ParamKind::Uv => v matches ParamValuesView::Tokens(ix) && all_numbers(toks, ix) && ix.len() % 2
            == 0,
        ParamKind::Rgb | ParamKind::Point | ParamKind::Normal => v matches ParamValuesView::Tokens(ix)
            && all_numbers(toks, ix) && ix.len() % 3 == 0,
        ParamKind::Str | ParamKind::Texture => v matches ParamValuesView::Tokens(ix) && all_strings(
            toks,
            ix,
        ),
        ParamKind::Spectrum => match v {
            ParamValuesView::SpectrumFile(i) => i < toks.len() && toks[i as int] is String,
            ParamValuesView::Tokens(ix) => all_numbers(toks, ix),
            ParamValuesView::Bools(_) => false,
        },
    }
}

proof fn lemma_number_items_fit(toks: Seq<TokenView>, pos: int, acc: Seq<usize>)
    requires
        0 <= pos,
        toks.len() <= usize::MAX,
        all_numbers(toks, acc),
    ensures
        number_items(toks, pos, acc) matches Ok((v, _)) ==> all_numbers(toks, v),
    decreases toks.len() - pos,
{
    if pos < toks.len() && toks[pos] is Number {
        let next = acc.push(pos as usize);
        assert(all_numbers(toks, next)) by {
            assert forall|k: int| 0 <= k < next.len() implies next[k] < toks.len() && #[trigger] toks[next[k] as int] is Number by {
                if k < acc.len() {
                    assert(next[k] == acc[k]);
                }
            }
        }
        lemma_number_items_fit(toks, pos + 1, next);
    }
}

proof fn lemma_string_items_fit(toks: Seq<TokenView>, pos: int, acc: Seq<usize>)
    requires
        0 <= pos,
        toks.len() <= usize::MAX,
        all_strings(toks, acc),
    ensures
        string_items(toks, pos, acc) matches Ok((v, _)) ==> all_strings(toks, v),
    decreases toks.len() - pos,
{
    if pos < toks.len() && toks[pos] is String {
        let next = acc.push(pos as usize);
        assert(all_strings(toks, next)) by {
            assert forall|k: int| 0 <= k < next.len() implies next[k] < toks.len() && #[trigger] toks[next[k] as int] is String by {
                if k < acc.len() {
                    assert(next[k] == acc[k]);
                }
            }
        }
        lemma_string_items_fit(toks, pos + 1, next);
    }
}

proof fn lemma_tuple_items_fit(toks: Seq<TokenView>, pos: int, arity: int, j: int, acc: Seq<usize>)
    requires
        0 <= pos,
        toks.len() <= usize::MAX,
        arity == 2 || arity == 3,
        0 <= j < arity,
        (acc.len() as int) % arity == j,
        all_numbers(toks, acc),
    ensures
        tuple_items(toks, pos, arity, j, acc) matches Ok((v, _)) ==> all_numbers(toks, v) && (v.len()
            as int) % arity == 0,
    decreases toks.len() - pos,
{
    if pos < toks.len() && toks[pos] is Number {
        let next = acc.push(pos as usize);
        assert(all_numbers(toks, next)) by {
            assert forall|k: int| 0 <= k < next.len() implies next[k] < toks.len() && #[trigger] toks[next[k] as int] is Number by {
                if k < acc.len() {
                    assert(next[k] == acc[k]);
                }
            }
        }
        let j2 = if j + 1 == arity {
            0
        } else {
            j + 1
        };
        assert((next.len() as int) % arity == j2);
        lemma_tuple_items_fit(toks, pos + 1, arity, j2, next);
    }
}

/// The values read for a parameter are of the parameter's type.
pub proof fn lemma_values_fit(kind: ParamKind, toks: Seq<TokenView>, pos: int)
    requires
        0 <= pos,
        toks.len() <= usize::MAX,
    ensures
        param_values(kind, toks, pos) matches Ok((v, _)) ==> values_fit(toks, kind, v),
{
    let empty = Seq::<usize>::empty();
    lemma_number_items_fit(toks, pos + 1, empty);
    lemma_string_items_fit(toks, pos + 1, empty);
    lemma_tuple_items_fit(toks, pos + 1, 2, 0, empty);
    lemma_tuple_items_fit(toks, pos + 1, 3, 0, empty);
    assert(all_numbers(toks, seq![pos as usize]) <== (pos < toks.len() && toks[pos] is Number));
    assert(all_strings(toks, seq![pos as usize]) <== (pos < toks.len() && toks[pos] is String));
}

/// Every parameter of a parameter list has values of its type, given that
/// those already read, `acc`, do.
pub proof fn lemma_param_list_fit(toks: Seq<TokenView>, pos: int, acc: Seq<ParamView>)
    requires
        0 <= pos,
        toks.len() <= usize::MAX,
        forall|k: int| 0 <= k < acc.len() ==> values_fit(toks, #[trigger] acc[k].kind, acc[k].values),
    ensures
        param_list(toks, pos, acc) matches Ok((ps, _)) ==> forall|k: int|
            0 <= k < ps.len() ==> values_fit(toks, #[trigger] ps[k].kind, ps[k].values),
    decreases toks.len() - pos,
{
    if pos < toks.len() {
        if let TokenView::String(s) = toks[pos] {
            let words = whitespace_words(s);
            if words.len() == 2 {
                if let Some(kind) = param_kind(words[0], words[1]) {
                    lemma_values_advance(kind, toks, pos + 1);
                    lemma_values_fit(kind, toks, pos + 1);
                    if let Ok((v, p)) = param_values(kind, toks, pos + 1) {
                        let next = acc.push(ParamView { kind, name: words[1], values: v });
                        assert forall|k: int| 0 <= k < next.len() implies values_fit(toks, #[trigger] next[k].kind, next[k].values) by {
                            if k < acc.len() {
                                assert(next[k] == acc[k]);
                            }
                        }
                        lemma_param_list_fit(toks, p, next);
                    }
                }
            }
        }
    }
}

/// Every parameter in `ps` has values of its type.
pub open spec fn params_fit(toks: Seq<TokenView>, ps: Seq<ParamView>) -> bool {
    forall|k: int| 0 <= k < ps.len() ==> values_fit(toks, #[trigger] ps[k].kind, ps[k].values)
}

/// `count` number tokens start at index `i`.
pub open spec fn numbers_at(toks: Seq<TokenView>, i: int, count: int) -> bool {
    forall|k: int| 0 <= k < count ==> i + k < toks.len() && #[trigger] toks[i + k] is Number
}

/// `i` is the index of a string token.
pub open spec fn string_at(toks: Seq<TokenView>, i: int) -> bool {
    0 <= i < toks.len() && toks[i] is String
}

/// The indices in a directive are those of tokens of the kinds it uses: its
/// names are strings, its numeric arguments numbers, and its parameters have
/// values of their types.
pub open spec fn directive_fits(toks: Seq<TokenView>, d: DirectiveView) -> bool {
    match d {
        DirectiveView::Camera(ps) | DirectiveView::Film(ps) => params_fit(toks, ps),
        DirectiveView::Include(i) | DirectiveView::NamedMaterial(i) => string_at(toks, i as int),
        DirectiveView::LightSource(i, ps) | DirectiveView::Material(i, ps) | DirectiveView::Shape(
            i,
            ps,
        ) => string_at(toks, i as int) && params_fit(toks, ps),
        DirectiveView::MakeNamedMaterial(i, j, ps) => string_at(toks, i as int) && string_at(
            toks,
            j as int,
        ) && params_fit(toks, ps),
        DirectiveView::LookAt(i) => numbers_at(toks, i as int, 9),
        DirectiveView::Rotate(i) => numbers_at(toks, i as int, 4),
        DirectiveView::Scale(i) | DirectiveView::Translate(i) => numbers_at(toks, i as int, 3),
        DirectiveView::Ignored(i) => i < toks.len(),
        _ => true,
    }
}

proof fn lemma_number_args_fit(toks: Seq<TokenView>, pos: int, count: nat)
    requires
        0 <= pos,
    ensures
        number_args(toks, pos, count) is Ok ==> numbers_at(toks, pos, count as int),
    decreases count,
{
    if count > 0 && pos < toks.len() && toks[pos] is Number {
        lemma_number_args_fit(toks, pos + 1, (count - 1) as nat);
        if number_args(toks, pos, count) is Ok {
            assert forall|k: int| 0 <= k < count implies pos + k < toks.len() && #[trigger] toks[pos + k] is Number by {
                if k > 0 {
                    assert(toks[(pos + 1) + (k - 1)] is Number);
                }
            }
        }
    }
}

/// Every directive read refers to tokens of the kinds it uses.
#[verifier::rlimit(40)]
pub proof fn lemma_directive_fit(toks: Seq<TokenView>, pos: int, st: ParserStateView)
    requires
        0 <= pos,
        toks.len() <= usize::MAX,
    ensures
        directive(toks, pos, st) matches Ok((Some(d), _, _)) ==> directive_fits(toks, d),
{
    let q = pos + 1;
    let empty = Seq::<ParamView>::empty();
    lemma_param_list_fit(toks, q + 1, empty);
    lemma_param_list_fit(toks, q + 2, empty);
    lemma_param_list_fit(toks, q + 3, empty);
    lemma_number_args_fit(toks, q, 9);
    lemma_number_args_fit(toks, q, 4);
    lemma_number_args_fit(toks, q, 3);
}

/// Every directive read from `pos` on refers to tokens of the kinds it uses,
/// given that those already read, `acc`, do.
pub proof fn lemma_directives_fit(toks: Seq<TokenView>, pos: int, st: ParserStateView, acc: Seq<DirectiveView>)
    requires
        0 <= pos,
        toks.len() <= usize::MAX,
        forall|k: int| 0 <= k < acc.len() ==> directive_fits(toks, #[trigger] acc[k]),
    ensures
        forall|k: int|
            0 <= k < directives(toks, pos, st, acc).0.len() ==> directive_fits(
                toks,
                #[trigger] directives(toks, pos, st, acc).0[k],
            ),
    decreases toks.len() - pos,
{
    lemma_directive_advance(toks, pos, st);
    lemma_directive_fit(toks, pos, st);
    if let Ok((d, p, next)) = directive(toks, pos, st) {
        let acc2 = match d {
            Some(x) => acc.push(x),
            None => acc,
        };
        assert forall|k: int| 0 <= k < acc2.len() implies directive_fits(toks, #[trigger] acc2[k]) by {
            if k < acc.len() {
                assert(acc2[k] == acc[k]);
            }
        }
        if d matches Some(DirectiveView::Include(_)) {
            assert(directives(toks, pos, st, acc).0 == acc2);
        } else {
            lemma_directives_fit(toks, p, next, acc2);
            assert(directives(toks, pos, st, acc).0 == directives(toks, p, next, acc2).0);
        }
    } else {
        assert(directives(toks, pos, st, acc).0 == acc);
    }
}

/// An `AttributeEnd` undoes its `AttributeBegin`: whatever transform times
/// were made active in between, once the saved states are as the
/// `AttributeBegin` left them, the `AttributeEnd` gives back the state from
/// before the block.
pub proof fn lemma_attribute_block_restores(
    toks: Seq<TokenView>,
    begin: int,
    end: int,
    st: ParserStateView,
    inner: ParserStateView,
)
    requires
        0 <= begin < toks.len(),
        0 <= end < toks.len(),
        toks[begin] is AttributeBegin,
        toks[end] is AttributeEnd,
        directive(toks, begin, st) matches Ok((_, _, after_begin)) && inner.times_stack
            == after_begin.times_stack && inner.depth == after_begin.depth && inner.transform_depth
            == after_begin.transform_depth,
    ensures
        directive(toks, end, inner) matches Ok((Some(DirectiveView::AttributeEnd), _, after_end))
            && after_end == st,
{
    assert(inner.times_stack.drop_last() =~= st.times_stack);
}

/// A `TransformEnd` undoes its `TransformBegin` in the same way: once the
/// saved states are as the `TransformBegin` left them, the `TransformEnd`
/// gives back the state from before the block, whatever transform times were
/// made active in between.
pub proof fn lemma_transform_block_restores(
    toks: Seq<TokenView>,
    begin: int,
    end: int,
    st: ParserStateView,
    inner: ParserStateView,
)
    requires
        0 <= begin < toks.len(),
        0 <= end < toks.len(),
        toks[begin] is TransformBegin,
        toks[end] is TransformEnd,
        directive(toks, begin, st) matches Ok((_, _, after_begin)) && inner.times_stack
            == after_begin.times_stack && inner.depth == after_begin.depth && inner.transform_depth
            == after_begin.transform_depth,
    ensures
        directive(toks, end, inner) matches Ok((Some(DirectiveView::TransformEnd), _, after_end))
            && after_end == st,
{
    assert(inner.times_stack.drop_last() =~= st.times_stack);
}

} // verus!
