use mfqp::sanitize_component;
use mfqp::to_lowercase;
use mfqp::Paper;

#[test]
fn sanitize_collapses_and_trims() {
    assert_eq!(sanitize_component("  Data   Structures "), "Data_Structures");
    assert_eq!(sanitize_component("a\t\n b"), "a_b");
    assert_eq!(sanitize_component(""), "");
    assert_eq!(sanitize_component("   "), "");
}

#[test]
fn sanitize_is_idempotent_on_examples() {
    let once = sanitize_component("  Data   Structures ");
    let twice = sanitize_component(&once);
    assert_eq!(once, twice);
    let plain = sanitize_component("already_clean");
    assert_eq!(plain, "already_clean");
    assert_eq!(sanitize_component(&plain), plain);
}

#[test]
fn filename_joins_sanitized_fields() {
    let paper = Paper::from_fields(
        "CS".to_string(),
        "http://x/a.pdf".to_string(),
        "Data Structures".to_string(),
        "Autumn".to_string(),
        "2019".to_string(),
    );
    assert_eq!(paper.filename(), "Data_Structures_CS_Autumn_2019.pdf");
}

#[test]
fn filename_of_empty_paper() {
    let paper = Paper::new();
    assert_eq!(paper.filename(), "___.pdf");
    assert_eq!(paper.link(), "");
}

#[test]
fn display_shows_all_fields() {
    let paper = Paper::from_fields(
        "CS".to_string(),
        "http://x/a.pdf".to_string(),
        "Data Structures".to_string(),
        "Autumn".to_string(),
        "2019".to_string(),
    );
    assert_eq!(
        paper.display_string(),
        "Department: CS  Name: Data Structures\nSemester: Autumn  Year: 2019"
    );
}

#[test]
fn lowercase_folds_ascii_only() {
    assert_eq!(to_lowercase("MiXeD 123"), "mixed 123");
    assert_eq!(to_lowercase("ABC"), "abc");
    assert_eq!(to_lowercase("déjà"), "déjà");
}
