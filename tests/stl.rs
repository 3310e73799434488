use robowire::decimal::is_decimal_number;
use robowire::stl::{is_end_marker, parse_stl, StlError};
use robowire::text::{fields, split_on, trim};

const CUBE_CORNER: &str = "solid corner
  facet normal 0 0 -1
    outer loop
      vertex 1 0 5
      vertex -1 0 5
      vertex 0 1 5
    endloop
  endfacet
  facet normal 0.5 -0.25 1e-3
    outer loop
      vertex 2.5 3 4
      vertex 5 6 7
      vertex 8 9 -10.75
    endloop
  endfacet
endsolid corner
";

fn text_of(fields: &[Vec<u8>]) -> Vec<String> {
    fields.iter().map(|f| String::from_utf8(f.clone()).unwrap()).collect()
}

#[test]
fn parses_two_facets() {
    let facets = parse_stl(CUBE_CORNER.as_bytes()).unwrap();
    assert_eq!(facets.len(), 2);
    assert_eq!(
        text_of(&facets[0].fields),
        vec!["0", "0", "-1", "1", "0", "5", "-1", "0", "5", "0", "1", "5"]
    );
    assert_eq!(
        text_of(&facets[1].fields),
        vec!["0.5", "-0.25", "1e-3", "2.5", "3", "4", "5", "6", "7", "8", "9", "-10.75"]
    );
}

#[test]
fn empty_solid_has_no_facets() {
    let facets = parse_stl(b"solid nothing\nendsolid nothing\n").unwrap();
    assert!(facets.is_empty());
    let facets = parse_stl(b"solid x\r\n   endsolid\r\n").unwrap();
    assert!(facets.is_empty());
}

#[test]
fn missing_end_is_an_error() {
    assert_eq!(parse_stl(b"").err(), Some(StlError::MissingEnd));
    assert_eq!(parse_stl(b"solid x").err(), Some(StlError::MissingEnd));
    let cut = CUBE_CORNER.replace("endsolid corner\n", "");
    assert_eq!(parse_stl(cut.as_bytes()).err(), Some(StlError::MissingEnd));
}

#[test]
fn wrong_normal_field_count_is_an_error() {
    let bad = CUBE_CORNER.replace("facet normal 0 0 -1", "facet normal 0 0");
    assert_eq!(parse_stl(bad.as_bytes()).err(), Some(StlError::BadNormalLine { line: 2 }));
    let doubled = CUBE_CORNER.replace("facet normal 0.5", "facet  normal 0.5");
    assert_eq!(parse_stl(doubled.as_bytes()).err(), Some(StlError::BadNormalLine { line: 9 }));
}

#[test]
fn wrong_vertex_field_count_is_an_error() {
    let bad = CUBE_CORNER.replace("vertex 0 1 5", "vertex 0 1 5 1");
    assert_eq!(parse_stl(bad.as_bytes()).err(), Some(StlError::BadVertexLine { line: 6 }));
    let truncated = b"solid t\nfacet normal 0 0 1\nouter loop\nvertex 1 2 3\n";
    assert_eq!(parse_stl(truncated).err(), Some(StlError::BadVertexLine { line: 5 }));
}

#[test]
fn split_keeps_empty_pieces() {
    let parts = split_on(b"a  b ", b' ');
    assert_eq!(parts, vec![b"a".to_vec(), vec![], b"b".to_vec(), vec![]]);
    assert_eq!(split_on(b"", b'\n'), vec![Vec::<u8>::new()]);
}

#[test]
fn trim_strips_both_ends() {
    assert_eq!(trim(b" \t vertex 1 2 3\r\n"), b"vertex 1 2 3".to_vec());
    assert_eq!(trim(b"   "), Vec::<u8>::new());
    assert_eq!(trim(b"x"), b"x".to_vec());
}

#[test]
fn fields_of_a_vertex_line() {
    let f = fields(b"      vertex 1 -2 3.5\r\n");
    assert_eq!(f, vec![b"vertex".to_vec(), b"1".to_vec(), b"-2".to_vec(), b"3.5".to_vec()]);
    assert_eq!(fields(b""), vec![Vec::<u8>::new()]);
}

#[test]
fn end_marker_is_exact() {
    assert!(is_end_marker(b"endsolid"));
    assert!(!is_end_marker(b"endsolids"));
    assert!(!is_end_marker(b"endsoliD"));
    assert!(!is_end_marker(b""));
}

#[test]
fn non_numeric_coordinate_is_an_error() {
    let bad = CUBE_CORNER.replace("vertex 5 6 7", "vertex 5 six 7");
    assert_eq!(parse_stl(bad.as_bytes()).err(), Some(StlError::BadNumber { line: 12 }));
    let bad = CUBE_CORNER.replace("facet normal 0 0 -1", "facet normal 0 0 -");
    assert_eq!(parse_stl(bad.as_bytes()).err(), Some(StlError::BadNumber { line: 2 }));
}

#[test]
fn decimal_numbers() {
    for ok in ["0", "-1", "+2", "3.", ".5", "-0.25", "1e-3", "6.02E23", "7e+1", "12.5e3"] {
        assert!(is_decimal_number(ok.as_bytes()), "{ok}");
        assert!(ok.parse::<f64>().is_ok());
    }
    for bad in ["", "-", ".", "e3", "1e", "1e+", "1.2.3", "--1", "1-", "one", "1 ", "."] {
        assert!(!is_decimal_number(bad.as_bytes()), "{bad}");
    }
}
