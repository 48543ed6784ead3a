use mfqp::interpret_json;
use mfqp::JsonField;
use mfqp::JsonRecord;
use mfqp::Paper;

fn record(pairs: &[(&str, &str)]) -> JsonRecord {
    JsonRecord {
        fields: pairs
            .iter()
            .map(|(k, v)| JsonField { key: k.to_string(), value: v.to_string() })
            .collect(),
    }
}

fn sample_catalog() -> Vec<JsonRecord> {
    vec![record(&[
        ("Paper", "Data Structures"),
        ("Department", "CS"),
        ("Semester", "Autumn"),
        ("Year", "2019"),
        ("Link", "http://x/a.pdf"),
    ])]
}

#[test]
fn matches_exact_name() {
    let catalog = sample_catalog();
    let mut list: Vec<Paper> = Vec::new();
    interpret_json(&catalog, &mut list, "Data Structures");
    assert_eq!(list.len(), 1);
    assert_eq!(list[0].filename(), "Data_Structures_CS_Autumn_2019.pdf");
    assert_eq!(list[0].link(), "http://x/a.pdf");
}

#[test]
fn no_match_for_unrelated_query() {
    let catalog = sample_catalog();
    let mut list: Vec<Paper> = Vec::new();
    interpret_json(&catalog, &mut list, "zzzzz");
    assert_eq!(list.len(), 0);
}

#[test]
fn empty_query_matches_nothing() {
    let catalog = sample_catalog();
    let mut list: Vec<Paper> = Vec::new();
    interpret_json(&catalog, &mut list, "");
    assert_eq!(list.len(), 0);
}

#[test]
fn query_case_is_ignored() {
    let catalog = sample_catalog();
    let mut lower: Vec<Paper> = Vec::new();
    interpret_json(&catalog, &mut lower, "data structures");
    let mut upper: Vec<Paper> = Vec::new();
    interpret_json(&catalog, &mut upper, "DATA STRUCTURES");
    assert_eq!(lower.len(), 1);
    assert_eq!(upper.len(), 1);
    assert_eq!(lower[0].filename(), upper[0].filename());
}

#[test]
fn missing_paper_field_never_matches() {
    let catalog = vec![record(&[("Department", "CS"), ("Year", "2019")])];
    let mut list: Vec<Paper> = Vec::new();
    interpret_json(&catalog, &mut list, "CS");
    assert_eq!(list.len(), 0);
}

#[test]
fn weak_matches_stay_below_threshold() {
    let catalog = vec![
        record(&[("Paper", "Data Structures"), ("Department", "CS"), ("Link", "http://x/a.pdf")]),
        record(&[
            ("Paper", "Quantum Mechanics"),
            ("Department", "PH"),
            ("Link", "http://x/q.pdf"),
        ]),
    ];
    let mut list: Vec<Paper> = Vec::new();
    interpret_json(&catalog, &mut list, "Data Structures");
    assert_eq!(list.len(), 1);
    assert_eq!(list[0].link(), "http://x/a.pdf");
}

#[test]
fn duplicate_keys_concatenate() {
    let catalog = vec![record(&[
        ("Paper", "Data Structures"),
        ("Department", "C"),
        ("Department", "S"),
    ])];
    let mut list: Vec<Paper> = Vec::new();
    interpret_json(&catalog, &mut list, "Data Structures");
    assert_eq!(list.len(), 1);
    assert_eq!(list[0].filename(), "Data_Structures_CS__.pdf");
}

#[test]
fn matches_append_to_existing_list() {
    let catalog = sample_catalog();
    let mut list: Vec<Paper> = Vec::new();
    interpret_json(&catalog, &mut list, "Data Structures");
    interpret_json(&catalog, &mut list, "Data Structures");
    assert_eq!(list.len(), 2);
    assert_eq!(list[0].filename(), list[1].filename());
}

#[test]
fn unknown_keys_are_ignored() {
    let catalog = vec![record(&[
        ("Paper", "Data Structures"),
        ("Campus", "North"),
        ("Department", "CS"),
    ])];
    let mut list: Vec<Paper> = Vec::new();
    interpret_json(&catalog, &mut list, "Data Structures");
    assert_eq!(list.len(), 1);
    assert_eq!(list[0].filename(), "Data_Structures_CS__.pdf");
}
