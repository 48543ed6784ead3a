use mfqp::outcome::outcome_messages;
use mfqp::outcome::Severity;
use mfqp::Batch;
use mfqp::Paper;

fn sample_paper() -> Paper {
    Paper::from_fields(
        "CS".to_string(),
        "http://x/a.pdf".to_string(),
        "Data Structures".to_string(),
        "Autumn".to_string(),
        "2019".to_string(),
    )
}

#[test]
fn success_reports_one_message() {
    let paper = sample_paper();
    let msgs = outcome_messages(&paper, &Ok(1024));
    assert_eq!(msgs.len(), 1);
    assert_eq!(msgs[0].severity, Severity::Success);
    assert_eq!(msgs[0].text, "Downloaded Data_Structures_CS_Autumn_2019.pdf");
}

#[test]
fn failure_reports_cause_and_link() {
    let paper = sample_paper();
    let msgs = outcome_messages(&paper, &Err("connection refused".to_string()));
    assert_eq!(msgs.len(), 2);
    assert_eq!(msgs[0].severity, Severity::Failure);
    assert_eq!(
        msgs[0].text,
        "Failed to download Data_Structures_CS_Autumn_2019.pdf because: connection refused"
    );
    assert_eq!(msgs[1].severity, Severity::Info);
    assert_eq!(msgs[1].text, "Link for manual download: http://x/a.pdf");
}

#[test]
fn batch_counts_success_and_failure() {
    let paper = sample_paper();
    let mut batch = Batch::new(2);
    assert!(!batch.is_done());
    let first = batch.on_completion(&paper, &Ok(512));
    assert_eq!(first.len(), 1);
    assert!(!batch.is_done());
    let second = batch.on_completion(&paper, &Err("http status 404".to_string()));
    assert_eq!(second.len(), 2);
    assert!(batch.is_done());
    assert_eq!(batch.successes, 1);
    assert_eq!(batch.failures, 1);
}

#[test]
fn early_failure_never_blocks_later_outcomes() {
    let paper = sample_paper();
    let mut batch = Batch::new(3);
    let first = batch.on_completion(&paper, &Err("timed out".to_string()));
    assert_eq!(first.len(), 2);
    let second = batch.on_completion(&paper, &Ok(10));
    assert_eq!(second.len(), 1);
    assert_eq!(second[0].severity, Severity::Success);
    let third = batch.on_completion(&paper, &Ok(20));
    assert_eq!(third.len(), 1);
    assert!(batch.is_done());
    assert_eq!(batch.successes, 2);
    assert_eq!(batch.failures, 1);
}

#[test]
fn empty_batch_is_done_at_once() {
    let batch = Batch::new(0);
    assert!(batch.is_done());
    assert_eq!(batch.successes, 0);
    assert_eq!(batch.failures, 0);
}

#[test]
fn only_terminal_severities_are_emphasized() {
    assert!(Severity::Success.emphasized());
    assert!(Severity::Failure.emphasized());
    assert!(!Severity::Info.emphasized());
}
