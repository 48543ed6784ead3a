use vstd::prelude::*;
use vstd::string::*;

use crate::paper::Paper;
use crate::paper::PaperView;
use crate::text::lemma_lower_seq_of_upper;
use crate::text::lower_seq;
use crate::text::to_lowercase;
use crate::text::upper_seq;

verus! {

// The fuzzy matcher: scan a decoded catalog and keep every record whose name
// scores above a fixed threshold against the query, in catalog order.

/// A decoded field of one catalog object: a key and its string value.
pub struct JsonField {
    pub key: String,
    pub value: String,
}

/// One decoded catalog object: its fields, in source order. A value that is
/// not a string decodes to the empty string.
pub struct JsonRecord {
    pub fields: Vec<JsonField>,
}

/// The score a record's name must strictly exceed to count as a match.
pub const SCORE_THRESHOLD: isize = 500;

/// The best-match score of a case-sensitive fuzzy search of `query` inside
/// `target`, or None when no full match of the query exists. The score is
/// left unspecified: it is whatever the search library computes, a function
/// of the two strings alone.
pub uninterp spec fn fuzzy_score(query: Seq<char>, target: Seq<char>) -> Option<isize>;

/// Relies on sublime_fuzzy::FuzzySearch::best_match: a case-sensitive search
/// computes its best-match score from the query and target strings alone,
/// and finds nothing when either of them is empty.
#[verifier::external_body]
fn best_match_score(query: &str, target: &str) -> (r: Option<isize>)
    ensures
        r == fuzzy_score(query@, target@),
        query@.len() == 0 ==> r is None,
        target@.len() == 0 ==> r is None,
{
    match sublime_fuzzy::FuzzySearch::new(query, target).case_sensitive().best_match() {
        Some(m) => Some(m.score()),
        None => None,
    }
}

/// The value of the first field named `key`, if any.
pub open spec fn first_value(fields: Seq<JsonField>, key: Seq<char>) -> Option<Seq<char>>
    decreases fields.len(),
{
    if fields.len() == 0 {
        None
    } else if fields[0].key@ == key {
        Some(fields[0].value@)
    } else {
        first_value(fields.drop_first(), key)
    }
}

/// The concatenation of the values of every field named `key`, in order.
pub open spec fn concat_values(fields: Seq<JsonField>, key: Seq<char>) -> Seq<char>
    decreases fields.len(),
{
    if fields.len() == 0 {
        Seq::empty()
    } else {
        concat_values(fields.drop_last(), key) + if fields.last().key@ == key {
            fields.last().value@
        } else {
            Seq::<char>::empty()
        }
    }
}

/// Whether a record's name matches the query: its first field named "Paper"
/// exists and scores strictly above the threshold, case folded on both sides.
/// A record without that field never matches.
pub open spec fn record_matches(r: JsonRecord, query: Seq<char>) -> bool {
    match first_value(r.fields@, "Paper"@) {
        Some(name) => match fuzzy_score(lower_seq(query), lower_seq(name)) {
            Some(score) => score > SCORE_THRESHOLD,
            None => false,
        },
        None => false,
    }
}

/// The paper a matched record decodes to: each recognized key contributes its
/// values, concatenated in field order; unrecognized keys are ignored.
pub open spec fn paper_view_of(r: JsonRecord) -> PaperView {
    PaperView {
        department: concat_values(r.fields@, "Department"@),
        link: concat_values(r.fields@, "Link"@),
        name: concat_values(r.fields@, "Paper"@),
        semester: concat_values(r.fields@, "Semester"@),
        year: concat_values(r.fields@, "Year"@),
    }
}

/// The papers the matcher selects: the matching records, in catalog order.
pub open spec fn interpret_spec(records: Seq<JsonRecord>, query: Seq<char>) -> Seq<PaperView>
    decreases records.len(),
{
    if records.len() == 0 {
        Seq::empty()
    } else {
        let rest = interpret_spec(records.drop_last(), query);
        if record_matches(records.last(), query) {
            rest.push(paper_view_of(records.last()))
        } else {
            rest
        }
    }
}

/// The views of a sequence of papers.
pub open spec fn views_of(papers: Seq<Paper>) -> Seq<PaperView> {
    papers.map_values(|p: Paper| p@)
}

/// The value of the first field named `key`, if any.
fn first_field_value<'a>(fields: &'a Vec<JsonField>, key: &String) -> (r: Option<&'a String>)
    ensures
        match r {
            Some(v) => first_value(fields@, key@) == Some(v@),
            None => first_value(fields@, key@) is None,
        },
{
    let mut i: usize = 0;
    proof {
        assert(fields@.skip(0) =~= fields@);
    }
    while i < fields.len()
        invariant
            0 <= i <= fields@.len(),
            first_value(fields@, key@) == first_value(fields@.skip(i as int), key@),
        decreases fields@.len() - i,
    {
        let ghost rest = fields@.skip(i as int);
        assert(rest.len() > 0 && rest[0] == fields@[i as int]);
        assert(rest.drop_first() =~= fields@.skip(i as int + 1));
        if fields[i].key == *key {
            return Some(&fields[i].value);
        }
        i = i + 1;
    }
    assert(fields@.skip(fields@.len() as int) =~= Seq::<JsonField>::empty());
    None
}

/// The five recognized field keys are pairwise distinct.
proof fn lemma_distinct_keys()
    ensures
        "Department"@ != "Link"@,
        "Department"@ != "Paper"@,
        "Department"@ != "Semester"@,
        "Department"@ != "Year"@,
        "Link"@ != "Paper"@,
        "Link"@ != "Semester"@,
        "Link"@ != "Year"@,
        "Paper"@ != "Semester"@,
        "Paper"@ != "Year"@,
        "Semester"@ != "Year"@,
{
    reveal_strlit("Department");
    reveal_strlit("Link");
    reveal_strlit("Paper");
    reveal_strlit("Semester");
    reveal_strlit("Year");
    assert("Department"@.len() == 10);
    assert("Link"@.len() == 4);
    assert("Paper"@.len() == 5);
    assert("Semester"@.len() == 8);
    assert("Year"@.len() == 4);
    assert("Link"@[0] == 'L');
    assert("Year"@[0] == 'Y');
}

/// Scanning one more field extends the concatenation for `key` by that
/// field's value exactly when the field is named `key`.
proof fn lemma_concat_values_step(fields: Seq<JsonField>, i: int, key: Seq<char>)
    requires
        0 <= i < fields.len(),
    ensures
        concat_values(fields.take(i + 1), key) == concat_values(fields.take(i), key) + (
        if fields[i].key@ == key {
            fields[i].value@
        } else {
            Seq::<char>::empty()
        }),
{
    assert(fields.take(i + 1).drop_last() =~= fields.take(i));
    assert(fields.take(i + 1).last() == fields[i]);
}

/// Scanning one more record extends the match list by that record's paper
/// exactly when the record matches.
proof fn lemma_interpret_step(records: Seq<JsonRecord>, i: int, query: Seq<char>)
    requires
        0 <= i < records.len(),
    ensures
        interpret_spec(records.take(i + 1), query) == (if record_matches(records[i], query) {
            interpret_spec(records.take(i), query).push(paper_view_of(records[i]))
        } else {
            interpret_spec(records.take(i), query)
        }),
{
    assert(records.take(i + 1).drop_last() =~= records.take(i));
    assert(records.take(i + 1).last() == records[i]);
}

/// The paper a record decodes to.
fn build_paper(record: &JsonRecord) -> (r: Paper)
    ensures
        r@ == paper_view_of(*record),
{
    let key_department = String::from_str("Department");
    let key_link = String::from_str("Link");
    let key_paper = String::from_str("Paper");
    let key_semester = String::from_str("Semester");
    let key_year = String::from_str("Year");
    let mut department = String::new();
    let mut link = String::new();
    let mut name = String::new();
    let mut semester = String::new();
    let mut year = String::new();
    let mut i: usize = 0;
    while i < record.fields.len()
        invariant
            0 <= i <= record.fields@.len(),
            key_department@ == "Department"@,
            key_link@ == "Link"@,
            key_paper@ == "Paper"@,
            key_semester@ == "Semester"@,
            key_year@ == "Year"@,
            department@ == concat_values(record.fields@.take(i as int), "Department"@),
            link@ == concat_values(record.fields@.take(i as int), "Link"@),
            name@ == concat_values(record.fields@.take(i as int), "Paper"@),
            semester@ == concat_values(record.fields@.take(i as int), "Semester"@),
            year@ == concat_values(record.fields@.take(i as int), "Year"@),
        decreases record.fields@.len() - i,
    {
        let ghost next = record.fields@.take(i as int + 1);
        let field = &record.fields[i];
        if field.key == key_department {
            department.append(field.value.as_str());
        } else if field.key == key_link {
            link.append(field.value.as_str());
        } else if field.key == key_paper {
            name.append(field.value.as_str());
        } else if field.key == key_semester {
            semester.append(field.value.as_str());
        } else if field.key == key_year {
            year.append(field.value.as_str());
        }
        proof {
            lemma_distinct_keys();
            lemma_concat_values_step(record.fields@, i as int, "Department"@);
            lemma_concat_values_step(record.fields@, i as int, "Link"@);
            lemma_concat_values_step(record.fields@, i as int, "Paper"@);
            lemma_concat_values_step(record.fields@, i as int, "Semester"@);
            lemma_concat_values_step(record.fields@, i as int, "Year"@);
            assert(department@ =~= concat_values(next, "Department"@));
            assert(link@ =~= concat_values(next, "Link"@));
            assert(name@ =~= concat_values(next, "Paper"@));
            assert(semester@ =~= concat_values(next, "Semester"@));
            assert(year@ =~= concat_values(next, "Year"@));
        }
        i = i + 1;
    }
    proof {
        assert(record.fields@.take(record.fields@.len() as int) =~= record.fields@);
    }
    let r = Paper::from_fields(department, link, name, semester, year);
    proof {
        assert(r@ =~= paper_view_of(*record));
    }
    r
}

/// Scan the decoded catalog and append to `list` every record whose name
/// fuzzily matches `input`, in catalog order. A record without a "Paper"
/// field is skipped and never an error; an empty `input` matches nothing.
pub fn interpret_json(records: &Vec<JsonRecord>, list: &mut Vec<Paper>, input: &str)
    ensures
        views_of(final(list)@) == views_of(old(list)@) + interpret_spec(records@, input@),
        input@.len() == 0 ==> final(list)@ == old(list)@,
{
    let lower_query = to_lowercase(input);
    let key_paper = String::from_str("Paper");
    proof {
        assert(records@.take(0) =~= Seq::<JsonRecord>::empty());
        assert(views_of(list@) =~= views_of(list@) + interpret_spec(records@.take(0), input@));
        if input@.len() == 0 {
            assert(lower_query@ =~= Seq::<char>::empty());
        }
    }
    let mut i: usize = 0;
    while i < records.len()
        invariant
            0 <= i <= records@.len(),
            lower_query@ == lower_seq(input@),
            key_paper@ == "Paper"@,
            views_of(list@) == views_of(old(list)@) + interpret_spec(
                records@.take(i as int),
                input@,
            ),
            input@.len() == 0 ==> list@ == old(list)@,
            input@.len() == 0 ==> lower_query@.len() == 0,
        decreases records@.len() - i,
    {
        let ghost done = records@.take(i as int);
        let ghost next = records@.take(i as int + 1);
        let record = &records[i];
        let mut matched = false;
        match first_field_value(&record.fields, &key_paper) {
            Some(name) => {
                let lower_name = to_lowercase(name.as_str());
                match best_match_score(lower_query.as_str(), lower_name.as_str()) {
                    Some(score) => {
                        if score > SCORE_THRESHOLD {
                            matched = true;
                        }
                        proof {
                            assert(matched == record_matches(records@[i as int], input@));
                        }
                    },
                    None => {
                        proof {
                            assert(!record_matches(records@[i as int], input@));
                        }
                    },
                }
            },
            None => {
                proof {
                    assert(!record_matches(records@[i as int], input@));
                }
            },
        }
        if matched {
            let paper = build_paper(record);
            let ghost prev = list@;
            list.push(paper);
            proof {
                lemma_interpret_step(records@, i as int, input@);
                assert(views_of(list@) =~= views_of(prev).push(paper@));
                assert(views_of(list@) =~= views_of(old(list)@) + interpret_spec(next, input@));
            }
        } else {
            proof {
                lemma_interpret_step(records@, i as int, input@);
                assert(interpret_spec(next, input@) == interpret_spec(done, input@));
                assert(views_of(list@) =~= views_of(old(list)@) + interpret_spec(next, input@));
            }
        }
        i = i + 1;
    }
    proof {
        assert(records@.take(records@.len() as int) =~= records@);
    }
}

/// Every paper the matcher returns comes from a catalog record whose name
/// scored strictly above the threshold; no record at or below it is ever
/// included.
pub proof fn lemma_matches_above_threshold(records: Seq<JsonRecord>, query: Seq<char>, k: int)
    requires
        0 <= k < interpret_spec(records, query).len(),
    ensures
        exists|j: int|
            0 <= j < records.len() && #[trigger] record_matches(records[j], query)
                && interpret_spec(records, query)[k] == paper_view_of(records[j]),
    decreases records.len(),
{
    let rest = interpret_spec(records.drop_last(), query);
    if record_matches(records.last(), query) && k == rest.len() {
        let j = records.len() - 1;
        assert(records[j] == records.last());
        assert(0 <= j < records.len() && record_matches(records[j], query) && interpret_spec(
            records,
            query,
        )[k] == paper_view_of(records[j]));
    } else {
        lemma_matches_above_threshold(records.drop_last(), query, k);
        let j = choose|j: int|
            0 <= j < records.drop_last().len() && #[trigger] record_matches(
                records.drop_last()[j],
                query,
            ) && rest[k] == paper_view_of(records.drop_last()[j]);
        assert(records.drop_last()[j] == records[j]);
        assert(interpret_spec(records, query)[k] == rest[k]);
    }
}

/// The match set is insensitive to the ASCII case of the query: upper-casing
/// the query selects exactly the same papers.
pub proof fn lemma_match_case_insensitive(records: Seq<JsonRecord>, query: Seq<char>)
    ensures
        interpret_spec(records, query) == interpret_spec(records, upper_seq(query)),
    decreases records.len(),
{
    lemma_lower_seq_of_upper(query);
    if records.len() > 0 {
        lemma_match_case_insensitive(records.drop_last(), query);
    }
}

} // verus!
