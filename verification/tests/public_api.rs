use digipin::{
    cell_path, compact, find_grid_position, grid_char, is_valid, level_position, normalize,
    render_digipin, DigiPinError,
};

const BENGALURU: &str = "4P3-JK8-52C9";

fn bengaluru_path() -> Vec<(usize, usize)> {
    vec![
        (2, 1),
        (3, 2),
        (1, 1),
        (1, 0),
        (2, 0),
        (0, 3),
        (2, 2),
        (1, 2),
        (0, 1),
        (0, 2),
    ]
}

#[test]
fn normalizes_flexible_input() {
    assert_eq!(normalize(" 4p3 jk8 52c9 ").unwrap(), "4P3-JK8-52C9");
}

#[test]
fn normalize_rejects_wrong_length() {
    assert_eq!(normalize("ABC"), Err(DigiPinError::InvalidLength));
    assert_eq!(normalize(""), Err(DigiPinError::InvalidLength));
    assert_eq!(normalize("4P3-JK8-52C9F"), Err(DigiPinError::InvalidLength));
}

#[test]
fn normalize_reports_first_invalid_character() {
    assert_eq!(
        normalize("4P3-JK8-52CZ"),
        Err(DigiPinError::InvalidCharacter { character: 'Z' })
    );
    assert_eq!(
        normalize("AP3-JK8-52CZ"),
        Err(DigiPinError::InvalidCharacter { character: 'A' })
    );
}

#[test]
fn normalize_counts_length_in_utf8_bytes() {
    // Five two-byte characters make ten bytes: the length passes, the symbol does not.
    assert_eq!(
        normalize("ééééé"),
        Err(DigiPinError::InvalidCharacter { character: 'é' })
    );
    // Nine ASCII symbols and one two-byte character make eleven bytes.
    assert_eq!(normalize("4P3JK852Cé"), Err(DigiPinError::InvalidLength));
}

#[test]
fn normalize_is_idempotent_on_examples() {
    let once = normalize("4p3jk852c9").unwrap();
    assert_eq!(once, BENGALURU);
    assert_eq!(normalize(&once).unwrap(), once);
}

#[test]
fn is_valid_matches_normalize() {
    assert!(is_valid("4p3jk852c9"));
    assert!(is_valid(BENGALURU));
    assert!(is_valid("\t4P3\n-JK8 - 52C9 "));
    assert!(!is_valid("4P3-JK8-52CZ"));
    assert!(!is_valid("ABC"));
}

#[test]
fn compact_drops_separators_and_upper_cases() {
    assert_eq!(compact(" 4p3-jk8\t52c9\n"), "4P3JK852C9");
    assert_eq!(compact("a\u{a0}b\u{2003}c"), "ABC");
    assert_eq!(compact("é-ß"), "éß");
}

#[test]
fn grid_lookup_is_a_bijection() {
    assert_eq!(find_grid_position('F'), Some((0, 0)));
    assert_eq!(find_grid_position('4'), Some((2, 1)));
    assert_eq!(find_grid_position('T'), Some((3, 3)));
    assert_eq!(find_grid_position('Z'), None);
    assert_eq!(find_grid_position('f'), None);
    for row in 0..4 {
        for col in 0..4 {
            assert_eq!(find_grid_position(grid_char(row, col)), Some((row, col)));
        }
    }
    assert_eq!(grid_char(0, 3), '8');
    assert_eq!(grid_char(3, 2), 'P');
}

#[test]
fn cell_path_reads_the_grid_positions() {
    assert_eq!(cell_path(BENGALURU).unwrap(), bengaluru_path());
    assert_eq!(cell_path(" 4p3 jk8 52c9 ").unwrap(), bengaluru_path());
    assert_eq!(cell_path("ABC"), Err(DigiPinError::InvalidLength));
    assert_eq!(
        cell_path("4P3-JK8-52CZ"),
        Err(DigiPinError::InvalidCharacter { character: 'Z' })
    );
}

#[test]
fn render_then_read_round_trips() {
    let path = bengaluru_path();
    let code = render_digipin(&path);
    assert_eq!(code, BENGALURU);
    assert_eq!(cell_path(&code).unwrap(), path);
    assert_eq!(normalize(&code).unwrap(), code);

    let corner = vec![(3, 3); 10];
    let code = render_digipin(&corner);
    assert_eq!(code, "TTT-TTT-TTTT");
    assert_eq!(cell_path(&code).unwrap(), corner);
}

#[test]
fn level_position_clamps_into_the_grid() {
    assert_eq!(level_position(0, 0), (3, 0));
    assert_eq!(level_position(2, 1), (1, 1));
    assert_eq!(level_position(3, 3), (0, 3));
    assert_eq!(level_position(4, 4), (0, 3));
    assert_eq!(level_position(-2, -1), (3, 0));
    assert_eq!(level_position(i32::MAX, i32::MIN), (0, 0));
}

#[test]
fn error_messages() {
    assert_eq!(
        DigiPinError::LatitudeOutOfRange.message(),
        "latitude out of range"
    );
    assert_eq!(
        DigiPinError::LongitudeOutOfRange.message(),
        "longitude out of range"
    );
    assert_eq!(DigiPinError::InvalidLength.message(), "invalid DIGIPIN length");
    assert_eq!(
        DigiPinError::InvalidCharacter { character: 'Z' }.message(),
        "invalid DIGIPIN character 'Z'"
    );
}
