use yuki::scene::pbrt::number::is_float_literal_bytes;

#[test]
fn accepts_float_literals() {
    for t in ["0", "12", "-3", "+4", "1.5", ".5", "5.", "1e10", "1E-2", "-2.5e+3", "inf", "-Infinity", "NaN", "+nan"] {
        assert!(is_float_literal_bytes(t.as_bytes()), "{}", t);
    }
}

#[test]
fn rejects_non_literals() {
    for t in ["", "-", ".", "e5", "1e", "1.2.3", "1x", "--1", "in", "1 ", "0x10"] {
        assert!(!is_float_literal_bytes(t.as_bytes()), "{}", t);
    }
}

#[test]
fn literals_parse_as_floats() {
    for t in ["0", "-2.5e+3", ".5", "inf", "NaN"] {
        assert!(t.parse::<f64>().is_ok());
    }
}
