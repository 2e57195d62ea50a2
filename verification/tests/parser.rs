use yuki::scene::pbrt::lexer::Lexer;
use yuki::scene::pbrt::parser::{
    is_valid_index_count, parse_param_list, Culprit, Directive, Halt, ParamKind, ParamValues, ParserErrorType, ParserState,
};
use yuki::scene::pbrt::token::Token;

fn tokens(input: &str) -> Vec<Token> {
    let mut lexer = Lexer::new(input.as_bytes());
    lexer.read_all().0
}

fn parse(input: &str) -> (Vec<Directive>, Result<usize, Halt>) {
    let toks = tokens(input);
    let mut state = ParserState::new();
    let mut out = Vec::new();
    let r = state.parse_directives(&toks, 0, &mut out);
    (out, r)
}

#[test]
fn parses_a_parameter_list() {
    let toks = tokens("\"float fov\" 45 \"integer indices\" [0 1 2] \"bool on\" \"true\" \"rgb Kd\" [.1 .2 .3] Shape ");
    let (params, next) = parse_param_list(&toks, 0).unwrap();
    assert_eq!(params.len(), 4);
    assert_eq!(next, 16);
    assert!(matches!(toks[next], Token::Shape));
    assert_eq!(params[0].kind, ParamKind::Float);
    assert_eq!(params[0].name, b"fov");
    assert!(matches!(&params[0].values, ParamValues::Tokens(v) if v == &vec![1]));
    assert_eq!(params[1].kind, ParamKind::Integer);
    assert!(matches!(&params[1].values, ParamValues::Tokens(v) if v == &vec![4, 5, 6]));
    assert_eq!(params[2].kind, ParamKind::Bool);
    assert!(matches!(&params[2].values, ParamValues::Bools(v) if v == &vec![true]));
    assert_eq!(params[3].kind, ParamKind::Rgb);
    assert!(matches!(&params[3].values, ParamValues::Tokens(v) if v == &vec![12, 13, 14]));
}

#[test]
fn uv_floats_are_pairs() {
    let toks = tokens("\"float uv\" [0 0 1 0] WorldEnd ");
    let (params, _) = parse_param_list(&toks, 0).unwrap();
    assert_eq!(params[0].kind, ParamKind::Uv);
    let toks = tokens("\"float uv\" [0 0 1] WorldEnd ");
    let r = parse_param_list(&toks, 0);
    assert!(matches!(r, Err(Halt::Failed(e)) if e.error_type == ParserErrorType::UnexpectedToken && e.at == 5));
}

#[test]
fn spectrum_from_file_or_numbers() {
    let toks = tokens("\"spectrum Kd\" \"copper.spd\" \"spectrum Ks\" [300 .3 800 .6] WorldEnd ");
    let (params, _) = parse_param_list(&toks, 0).unwrap();
    assert!(matches!(params[0].values, ParamValues::SpectrumFile(1)));
    assert!(matches!(&params[1].values, ParamValues::Tokens(v) if v.len() == 4));
}

#[test]
fn bad_declarations() {
    let toks = tokens("\"float\" 1 ");
    let r = parse_param_list(&toks, 0);
    assert!(matches!(r, Err(Halt::Failed(e)) if e.culprit == Culprit::Declaration(0)));
    let toks = tokens("\"quaternion q\" 1 ");
    let r = parse_param_list(&toks, 0);
    assert!(matches!(r, Err(Halt::Failed(e)) if e.error_type == ParserErrorType::UnknownParamType
        && e.culprit == Culprit::TypeAndName(0)));
    let toks = tokens("\"bool b\" \"yes\" ");
    let r = parse_param_list(&toks, 0);
    assert!(matches!(r, Err(Halt::Failed(e)) if e.culprit == Culprit::QuotedWord(1)));
}

#[test]
fn parses_a_scene() {
    let scene = "LookAt 0 0 5  0 0 0  0 1 0\n\
                 Camera \"perspective\" \"float fov\" [30]\n\
                 Film \"image\" \"integer xresolution\" 400\n\
                 WorldBegin\n\
                 AttributeBegin\n\
                 Material \"matte\" \"rgb Kd\" [.5 .5 .5]\n\
                 Translate 0 1 0\n\
                 Shape \"sphere\" \"float radius\" 1\n\
                 AttributeEnd\n\
                 WorldEnd\n";
    let (ds, r) = parse(scene);
    assert_eq!(r, Err(Halt::OutOfTokens));
    assert_eq!(ds.len(), 9);
    assert!(matches!(ds[0], Directive::LookAt(1)));
    assert!(matches!(&ds[1], Directive::Camera(ps) if ps.len() == 1));
    assert!(matches!(&ds[2], Directive::Film(ps) if ps.len() == 1));
    assert!(matches!(ds[3], Directive::WorldBegin));
    assert!(matches!(ds[4], Directive::AttributeBegin));
    assert!(matches!(&ds[5], Directive::Material(_, ps) if ps.len() == 1));
    assert!(matches!(ds[6], Directive::Translate(_)));
    assert!(matches!(&ds[7], Directive::Shape(_, ps) if ps.len() == 1));
    assert!(matches!(ds[8], Directive::AttributeEnd));
}

#[test]
fn stops_after_include() {
    let (ds, r) = parse("WorldBegin Include \"geometry.pbrt\" WorldEnd ");
    assert_eq!(ds.len(), 2);
    assert!(matches!(ds[1], Directive::Include(2)));
    assert_eq!(r, Ok(3));
}

#[test]
fn only_perspective_cameras() {
    let (_, r) = parse("Camera \"orthographic\" ");
    assert_eq!(r, Err(Halt::NotPerspective));
}

#[test]
fn unmatched_ends_are_ignored() {
    let (ds, r) = parse("AttributeEnd TransformEnd WorldEnd ");
    assert_eq!(r, Err(Halt::OutOfTokens));
    assert!(matches!(ds[0], Directive::UnmatchedAttributeEnd));
    assert!(matches!(ds[1], Directive::UnmatchedTransformEnd));
}

#[test]
fn look_at_only_at_start_time() {
    let (ds, r) = parse("ActiveTransform EndTime LookAt 0 0 5 0 0 0 0 1 0 ");
    assert!(ds.is_empty());
    assert!(matches!(r, Err(Halt::Failed(e)) if e.error_type == ParserErrorType::UnimplementedToken && e.at == 3));
    let (ds, _) = parse("AttributeBegin ActiveTransform EndTime AttributeEnd LookAt 0 0 5 0 0 0 0 1 0 ");
    assert!(matches!(ds[2], Directive::LookAt(5)));
}

#[test]
fn make_named_material_needs_string_type() {
    let (ds, r) = parse("MakeNamedMaterial \"gold\" \"string type\" \"metal\" \"float roughness\" .1 WorldEnd ");
    assert!(matches!(&ds[0], Directive::MakeNamedMaterial(1, 3, ps) if ps.len() == 1));
    assert_eq!(r, Err(Halt::OutOfTokens));
    let (_, r) = parse("MakeNamedMaterial \"gold\" \"string kind\" \"metal\" ");
    assert!(matches!(r, Err(Halt::Failed(e)) if e.error_type == ParserErrorType::UnknownParamType
        && e.culprit == Culprit::Token(0) && e.at == 2));
}

#[test]
fn ignored_definitions() {
    let (ds, _) = parse("Sampler \"halton\" \"integer pixelsamples\" 16 Texture \"t\" \"spectrum\" \"checkerboard\" WorldEnd ");
    assert!(matches!(ds[0], Directive::Ignored(0)));
    assert!(matches!(ds[1], Directive::Ignored(4)));
}

#[test]
fn unexpected_argument() {
    let (_, r) = parse("Scale 1 \"two\" 3 ");
    assert!(matches!(r, Err(Halt::Failed(e)) if e.error_type == ParserErrorType::UnexpectedToken && e.at == 2));
}

#[test]
fn triangle_mesh_index_counts() {
    assert!(is_valid_index_count(3));
    assert!(is_valid_index_count(12));
    assert!(!is_valid_index_count(0));
    assert!(!is_valid_index_count(2));
    assert!(!is_valid_index_count(7));
}

#[test]
fn transform_block_outside_attribute_block() {
    let (ds, _) = parse("TransformBegin ActiveTransform EndTime TransformEnd LookAt 0 0 5 0 0 0 0 1 0 ");
    assert!(matches!(ds[0], Directive::TransformBegin));
    assert!(matches!(ds[1], Directive::TransformEnd));
    assert!(matches!(ds[2], Directive::LookAt(5)));
    let (ds, _) = parse("AttributeBegin TransformEnd AttributeEnd ");
    assert!(matches!(ds[1], Directive::UnmatchedTransformEnd));
    assert!(matches!(ds[2], Directive::AttributeEnd));
}

#[test]
fn input_ending_after_a_parameter_list_keeps_the_directive() {
    let (ds, r) = parse("Shape \"sphere\" \"float radius\" [ 2 ]\n");
    assert_eq!(r, Err(Halt::OutOfTokens));
    assert_eq!(ds.len(), 1);
    assert!(matches!(&ds[0], Directive::Shape(1, ps) if ps.len() == 1 && ps[0].name == b"radius"));
    let (ds, _) = parse("Shape \"sphere\"");
    assert!(matches!(&ds[0], Directive::Shape(1, ps) if ps.is_empty()));
}
