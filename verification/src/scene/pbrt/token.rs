//! Tokens of the pbrt-v3 scene format and how a word becomes one.
use vstd::prelude::*;
use vstd::string::StringSliceAdditionalSpecFns;

use super::number::{is_digit, is_float_literal, is_float_literal_bytes, DOT, MINUS};

verus! {

/// A lexical token of the pbrt-v3 scene format.
#[derive(Debug)]
pub enum Token {
    /// A numeric literal; holds its text, which the `f64` grammar accepts.
    Number(Vec<u8>),
    /// The bytes between the quotes of a quoted string.
    String(Vec<u8>),
    LeftBracket,
    RightBracket,
    Accelerator,
    ActiveTransform,
    All,
    AreaLightSource,
    AttributeBegin,
    AttributeEnd,
    Camera,
    ConcatTransform,
    CoordinateSystem,
    CoordSysTransform,
    EndTime,
    Film,
    Identity,
    Include,
    LightSource,
    LookAt,
    MakeNamedMaterial,
    MakeNamedMedium,
    Material,
    MediumInterface,
    NamedMaterial,
    ObjectBegin,
    ObjectEnd,
    ObjectInstance,
    PixelFilter,
    ReverseOrientation,
    Rotate,
    Sampler,
    Scale,
    Shape,
    StartTime,
    Integrator,
    Texture,
    Transform,
    TransformBegin,
    TransformEnd,
    TransformTimes,
    Translate,
    WorldBegin,
    WorldEnd,
}

/// The mathematical value of a [`Token`].
pub enum TokenView {
    Number(Seq<u8>),
    String(Seq<u8>),
    LeftBracket,
    RightBracket,
    Accelerator,
    ActiveTransform,
    All,
    AreaLightSource,
    AttributeBegin,
    AttributeEnd,
    Camera,
    ConcatTransform,
    CoordinateSystem,
    CoordSysTransform,
    EndTime,
    Film,
    Identity,
    Include,
    LightSource,
    LookAt,
    MakeNamedMaterial,
    MakeNamedMedium,
    Material,
    MediumInterface,
    NamedMaterial,
    ObjectBegin,
    ObjectEnd,
    ObjectInstance,
    PixelFilter,
    ReverseOrientation,
    Rotate,
    Sampler,
    Scale,
    Shape,
    StartTime,
    Integrator,
    Texture,
    Transform,
    TransformBegin,
    TransformEnd,
    TransformTimes,
    Translate,
    WorldBegin,
    WorldEnd,
}

impl View for Token {
    type V = TokenView;

    open spec fn view(&self) -> TokenView {
        match self {
            Token::Number(t) => TokenView::Number(t@),
            Token::String(s) => TokenView::String(s@),
            Token::LeftBracket => TokenView::LeftBracket,
            Token::RightBracket => TokenView::RightBracket,
            Token::Accelerator => TokenView::Accelerator,
            Token::ActiveTransform => TokenView::ActiveTransform,
            Token::All => TokenView::All,
            Token::AreaLightSource => TokenView::AreaLightSource,
            Token::AttributeBegin => TokenView::AttributeBegin,
            Token::AttributeEnd => TokenView::AttributeEnd,
            Token::Camera => TokenView::Camera,
            Token::ConcatTransform => TokenView::ConcatTransform,
            Token::CoordinateSystem => TokenView::CoordinateSystem,
            Token::CoordSysTransform => TokenView::CoordSysTransform,
            Token::EndTime => TokenView::EndTime,
            Token::Film => TokenView::Film,
            Token::Identity => TokenView::Identity,
            Token::Include => TokenView::Include,
            Token::LightSource => TokenView::LightSource,
            Token::LookAt => TokenView::LookAt,
            Token::MakeNamedMaterial => TokenView::MakeNamedMaterial,
            Token::MakeNamedMedium => TokenView::MakeNamedMedium,
            Token::Material => TokenView::Material,
            Token::MediumInterface => TokenView::MediumInterface,
            Token::NamedMaterial => TokenView::NamedMaterial,
            Token::ObjectBegin => TokenView::ObjectBegin,
            Token::ObjectEnd => TokenView::ObjectEnd,
            Token::ObjectInstance => TokenView::ObjectInstance,
            Token::PixelFilter => TokenView::PixelFilter,
            Token::ReverseOrientation => TokenView::ReverseOrientation,
            Token::Rotate => TokenView::Rotate,
            Token::Sampler => TokenView::Sampler,
            Token::Scale => TokenView::Scale,
            Token::Shape => TokenView::Shape,
            Token::StartTime => TokenView::StartTime,
            Token::Integrator => TokenView::Integrator,
            Token::Texture => TokenView::Texture,
            Token::Transform => TokenView::Transform,
            Token::TransformBegin => TokenView::TransformBegin,
            Token::TransformEnd => TokenView::TransformEnd,
            Token::TransformTimes => TokenView::TransformTimes,
            Token::Translate => TokenView::Translate,
            Token::WorldBegin => TokenView::WorldBegin,
            Token::WorldEnd => TokenView::WorldEnd,
        }
    }
}

/// The keyword token whose name is `t`, if any.
#[verifier::opaque]
pub open spec fn keyword(t: Seq<u8>) -> Option<TokenView> {
    if t == "Accelerator".spec_bytes() {
        Some(TokenView::Accelerator)
    } else if t == "ActiveTransform".spec_bytes() {
        Some(TokenView::ActiveTransform)
    } else if t == "All".spec_bytes() {
        Some(TokenView::All)
    } else if t == "AreaLightSource".spec_bytes() {
        Some(TokenView::AreaLightSource)
    } else if t == "AttributeBegin".spec_bytes() {
        Some(TokenView::AttributeBegin)
    } else if t == "AttributeEnd".spec_bytes() {
        Some(TokenView::AttributeEnd)
    } else if t == "Camera".spec_bytes() {
        Some(TokenView::Camera)
    } else if t == "ConcatTransform".spec_bytes() {
        Some(TokenView::ConcatTransform)
    } else if t == "CoordinateSystem".spec_bytes() {
        Some(TokenView::CoordinateSystem)
    } else if t == "CoordSysTransform".spec_bytes() {
        Some(TokenView::CoordSysTransform)
    } else if t == "EndTime".spec_bytes() {
        Some(TokenView::EndTime)
    } else if t == "Film".spec_bytes() {
        Some(TokenView::Film)
    } else if t == "Identity".spec_bytes() {
        Some(TokenView::Identity)
    } else if t == "Include".spec_bytes() {
        Some(TokenView::Include)
    } else if t == "Integrator".spec_bytes() {
        Some(TokenView::Integrator)
    } else if t == "LightSource".spec_bytes() {
        Some(TokenView::LightSource)
    } else if t == "LookAt".spec_bytes() {
        Some(TokenView::LookAt)
    } else if t == "MakeNamedMedium".spec_bytes() {
        Some(TokenView::MakeNamedMedium)
    } else if t == "MakeNamedMaterial".spec_bytes() {
        Some(TokenView::MakeNamedMaterial)
    } else if t == "Material".spec_bytes() {
        Some(TokenView::Material)
    } else if t == "MediumInterface".spec_bytes() {
        Some(TokenView::MediumInterface)
    } else if t == "NamedMaterial".spec_bytes() {
        Some(TokenView::NamedMaterial)
    } else if t == "ObjectBegin".spec_bytes() {
        Some(TokenView::ObjectBegin)
    } else if t == "ObjectEnd".spec_bytes() {
        Some(TokenView::ObjectEnd)
    } else if t == "ObjectInstance".spec_bytes() {
        Some(TokenView::ObjectInstance)
    } else if t == "PixelFilter".spec_bytes() {
        Some(TokenView::PixelFilter)
    } else if t == "ReverseOrientation".spec_bytes() {
        Some(TokenView::ReverseOrientation)
    } else if t == "Rotate".spec_bytes() {
        Some(TokenView::Rotate)
    } else if t == "Sampler".spec_bytes() {
        Some(TokenView::Sampler)
    } else if t == "Scale".spec_bytes() {
        Some(TokenView::Scale)
    } else if t == "Shape".spec_bytes() {
        Some(TokenView::Shape)
    } else if t == "StartTime".spec_bytes() {
        Some(TokenView::StartTime)
    } else if t == "Texture".spec_bytes() {
        Some(TokenView::Texture)
    } else if t == "TransformBegin".spec_bytes() {
        Some(TokenView::TransformBegin)
    } else if t == "TransformEnd".spec_bytes() {
        Some(TokenView::TransformEnd)
    } else if t == "TransformTimes".spec_bytes() {
        Some(TokenView::TransformTimes)
    } else if t == "Transform".spec_bytes() {
        Some(TokenView::Transform)
    } else if t == "Translate".spec_bytes() {
        Some(TokenView::Translate)
    } else if t == "WorldBegin".spec_bytes() {
        Some(TokenView::WorldBegin)
    } else if t == "WorldEnd".spec_bytes() {
        Some(TokenView::WorldEnd)
    } else {
        None
    }
}

/// The keyword token whose name is `t`, if any.
#[verifier::rlimit(80)]
fn keyword_token(t: &[u8]) -> (r: Option<Token>)
    ensures
        match r {
            Some(tok) => keyword(t@) == Some(tok@),
            None => keyword(t@) is None,
        },
{
    reveal(keyword);
    if bytes_equal(t, "Accelerator".as_bytes()) {
        return Some(Token::Accelerator);
    }
    if bytes_equal(t, "ActiveTransform".as_bytes()) {
        return Some(Token::ActiveTransform);
    }
    if bytes_equal(t, "All".as_bytes()) {
        return Some(Token::All);
    }
    if bytes_equal(t, "AreaLightSource".as_bytes()) {
        return Some(Token::AreaLightSource);
    }
    if bytes_equal(t, "AttributeBegin".as_bytes()) {
        return Some(Token::AttributeBegin);
    }
    if bytes_equal(t, "AttributeEnd".as_bytes()) {
        return Some(Token::AttributeEnd);
    }
    if bytes_equal(t, "Camera".as_bytes()) {
        return Some(Token::Camera);
    }
    if bytes_equal(t, "ConcatTransform".as_bytes()) {
        return Some(Token::ConcatTransform);
    }
    if bytes_equal(t, "CoordinateSystem".as_bytes()) {
        return Some(Token::CoordinateSystem);
    }
    if bytes_equal(t, "CoordSysTransform".as_bytes()) {
        return Some(Token::CoordSysTransform);
    }
    if bytes_equal(t, "EndTime".as_bytes()) {
        return Some(Token::EndTime);
    }
    if bytes_equal(t, "Film".as_bytes()) {
        return Some(Token::Film);
    }
    if bytes_equal(t, "Identity".as_bytes()) {
        return Some(Token::Identity);
    }
    if bytes_equal(t, "Include".as_bytes()) {
        return Some(Token::Include);
    }
    if bytes_equal(t, "Integrator".as_bytes()) {
        return Some(Token::Integrator);
    }
    if bytes_equal(t, "LightSource".as_bytes()) {
        return Some(Token::LightSource);
    }
    if bytes_equal(t, "LookAt".as_bytes()) {
        return Some(Token::LookAt);
    }
    if bytes_equal(t, "MakeNamedMedium".as_bytes()) {
        return Some(Token::MakeNamedMedium);
    }
    if bytes_equal(t, "MakeNamedMaterial".as_bytes()) {
        return Some(Token::MakeNamedMaterial);
    }
    if bytes_equal(t, "Material".as_bytes()) {
        return Some(Token::Material);
    }
    if bytes_equal(t, "MediumInterface".as_bytes()) {
        return Some(Token::MediumInterface);
    }
    if bytes_equal(t, "NamedMaterial".as_bytes()) {
        return Some(Token::NamedMaterial);
    }
    if bytes_equal(t, "ObjectBegin".as_bytes()) {
        return Some(Token::ObjectBegin);
    }
    if bytes_equal(t, "ObjectEnd".as_bytes()) {
        return Some(Token::ObjectEnd);
    }
    if bytes_equal(t, "ObjectInstance".as_bytes()) {
        return Some(Token::ObjectInstance);
    }
    if bytes_equal(t, "PixelFilter".as_bytes()) {
        return Some(Token::PixelFilter);
    }
    if bytes_equal(t, "ReverseOrientation".as_bytes()) {
        return Some(Token::ReverseOrientation);
    }
    if bytes_equal(t, "Rotate".as_bytes()) {
        return Some(Token::Rotate);
    }
    if bytes_equal(t, "Sampler".as_bytes()) {
        return Some(Token::Sampler);
    }
    if bytes_equal(t, "Scale".as_bytes()) {
        return Some(Token::Scale);
    }
    if bytes_equal(t, "Shape".as_bytes()) {
        return Some(Token::Shape);
    }
    if bytes_equal(t, "StartTime".as_bytes()) {
        return Some(Token::StartTime);
    }
    if bytes_equal(t, "Texture".as_bytes()) {
        return Some(Token::Texture);
    }
    if bytes_equal(t, "TransformBegin".as_bytes()) {
        return Some(Token::TransformBegin);
    }
    if bytes_equal(t, "TransformEnd".as_bytes()) {
        return Some(Token::TransformEnd);
    }
    if bytes_equal(t, "TransformTimes".as_bytes()) {
        return Some(Token::TransformTimes);
    }
    if bytes_equal(t, "Transform".as_bytes()) {
        return Some(Token::Transform);
    }
    if bytes_equal(t, "Translate".as_bytes()) {
        return Some(Token::Translate);
    }
    if bytes_equal(t, "WorldBegin".as_bytes()) {
        return Some(Token::WorldBegin);
    }
    if bytes_equal(t, "WorldEnd".as_bytes()) {
        return Some(Token::WorldEnd);
    }
    None
}

/// Why a word could not be turned into a [`Token`].
pub enum TokenError<'a> {
    InvalidNumber,
    UnknownIdentifier(&'a [u8]),
}

pub enum TokenErrorView {
    InvalidNumber,
    UnknownIdentifier(Seq<u8>),
}

pub open spec fn token_error_view(e: TokenError) -> TokenErrorView {
    match e {
        TokenError::InvalidNumber => TokenErrorView::InvalidNumber,
        TokenError::UnknownIdentifier(i) => TokenErrorView::UnknownIdentifier(i@),
    }
}

pub open spec fn token_result_view(r: Result<Token, TokenError>) -> Result<TokenView, TokenErrorView> {
    match r {
        Ok(t) => Ok(t@),
        Err(e) => Err(token_error_view(e)),
    }
}

/// A word that starts like a number (`-`, `.` or a digit) is read as one.
pub open spec fn starts_number(t: Seq<u8>) -> bool {
    t.len() > 0 && (t[0] == MINUS || t[0] == DOT || is_digit(t[0]))
}

/// What a whitespace-delimited word stands for.
pub open spec fn classify(t: Seq<u8>) -> Result<TokenView, TokenErrorView> {
    match keyword(t) {
        Some(k) => Ok(k),
        None => if starts_number(t) {
            if is_float_literal(t) {
                Ok(TokenView::Number(t))
            } else {
                Err(TokenErrorView::InvalidNumber)
            }
        } else {
            Err(TokenErrorView::UnknownIdentifier(t))
        },
    }
}

/// Whether two byte slices are equal.
pub(crate) fn bytes_equal(a: &[u8], b: &[u8]) -> (r: bool)
    ensures
        r == (a@ == b@),
{
    if a.len() != b.len() {
        return false;
    }
    let mut i: usize = 0;
    while i < a.len()
        invariant
            i <= a@.len(),
            a@.len() == b@.len(),
            forall|k: int| 0 <= k < i ==> a@[k] == b@[k],
        decreases a@.len() - i,
    {
        if a[i] != b[i] {
            return false;
        }
        i += 1;
    }
    assert(a@ =~= b@);
    true
}

impl Token {
    /// Reads the word `t` as a keyword, a number, or fails.
    pub fn try_from<'a>(t: &'a [u8]) -> (r: Result<Token, TokenError<'a>>)
        requires
            t@.len() > 0,
        ensures
            token_result_view(r) == classify(t@),
    {
        match keyword_token(t) {
            Some(k) => Ok(k),
            None => {
                let c = t[0];
                if c == MINUS || c == DOT || (48 <= c && c <= 57) {
                    if is_float_literal_bytes(t) {
                        Ok(Token::Number(vstd::slice::slice_to_vec(t)))
                    } else {
                        Err(TokenError::InvalidNumber)
                    }
                } else {
                    Err(TokenError::UnknownIdentifier(t))
                }
            },
        }
    }
}

} // verus!
