use imap_correlate::quota::{
    get_quota, get_quota_root, is_tagged_completion, QuotaCorrelator, QuotaError,
    QuotaRootCorrelator,
};
use imap_correlate::response::{Quota, QuotaResource, QuotaRoot, RequestId, ResponseData};
use imap_correlate::sink::UnilateralSink;

fn tag(s: &str) -> RequestId {
    RequestId(s.to_string())
}

fn quota(root: &str, usage: u64, limit: u64) -> Quota {
    Quota {
        root_name: root.to_string(),
        resources: vec![QuotaResource {
            name: "STORAGE".to_string(),
            usage,
            limit,
        }],
    }
}

fn quota_record(root: &str, usage: u64, limit: u64) -> ResponseData {
    ResponseData::Quota(quota(root, usage, limit))
}

fn root_record(mailbox: &str, roots: &[&str]) -> ResponseData {
    ResponseData::QuotaRoot(QuotaRoot {
        mailbox_name: mailbox.to_string(),
        quota_root_names: roots.iter().map(|r| r.to_string()).collect(),
    })
}

fn done(t: &str) -> ResponseData {
    ResponseData::Done { tag: tag(t) }
}

fn other(text: &str) -> ResponseData {
    ResponseData::Other {
        text: text.to_string(),
    }
}

#[test]
fn get_quota_returns_the_quota_before_the_completion() {
    let mut sink = UnilateralSink::new();
    let records = vec![quota_record("", 5, 100), done("A1")];
    let result = get_quota(records, &tag("A1"), &mut sink);
    assert_eq!(result, Ok(quota("", 5, 100)));
    assert_eq!(sink.len(), 0);
}

#[test]
fn get_quota_with_completion_but_no_quota_is_empty_result() {
    let mut sink = UnilateralSink::new();
    let records = vec![done("A1")];
    let result = get_quota(records, &tag("A1"), &mut sink);
    assert_eq!(result, Err(QuotaError::EmptyResult));
    assert_eq!(sink.len(), 0);
}

#[test]
fn get_quota_without_completion_is_missing_completion() {
    let mut sink = UnilateralSink::new();
    let records = vec![quota_record("", 5, 100)];
    let result = get_quota(records, &tag("A1"), &mut sink);
    assert_eq!(result, Err(QuotaError::MissingCompletion));
}

#[test]
fn get_quota_still_diverts_when_the_completion_never_comes() {
    let mut sink = UnilateralSink::new();
    let records = vec![other("* 1 RECENT"), quota_record("", 5, 100)];
    let result = get_quota(records, &tag("A1"), &mut sink);
    assert_eq!(result, Err(QuotaError::MissingCompletion));
    assert_eq!(sink.records(), &vec![other("* 1 RECENT")]);
}

#[test]
fn get_quota_ignores_a_quota_after_the_completion() {
    let mut sink = UnilateralSink::new();
    let records = vec![done("A1"), quota_record("", 5, 100)];
    let result = get_quota(records, &tag("A1"), &mut sink);
    assert_eq!(result, Err(QuotaError::EmptyResult));
    assert_eq!(sink.len(), 0);
}

#[test]
fn get_quota_diverts_unrelated_records_and_still_succeeds() {
    let mut sink = UnilateralSink::new();
    let unrelated = done("B9");
    let records = vec![unrelated.clone(), quota_record("", 7, 64), done("A1")];
    let result = get_quota(records, &tag("A1"), &mut sink);
    assert_eq!(result, Ok(quota("", 7, 64)));
    assert_eq!(sink.records(), &vec![unrelated]);
}

#[test]
fn get_quota_keeps_sink_order() {
    let mut sink = UnilateralSink::new();
    let records = vec![
        other("* 3 EXISTS"),
        other("* 1 RECENT"),
        quota_record("", 1, 2),
        done("A1"),
    ];
    let result = get_quota(records, &tag("A1"), &mut sink);
    assert_eq!(result, Ok(quota("", 1, 2)));
    assert_eq!(
        sink.records(),
        &vec![other("* 3 EXISTS"), other("* 1 RECENT")]
    );
}

#[test]
fn get_quota_first_quota_wins() {
    let mut sink = UnilateralSink::new();
    let records = vec![
        quota_record("first", 1, 10),
        quota_record("second", 2, 20),
        done("A1"),
    ];
    let result = get_quota(records, &tag("A1"), &mut sink);
    assert_eq!(result, Ok(quota("first", 1, 10)));
    // The extra quota record is neither the result nor a unilateral record.
    assert_eq!(sink.len(), 0);
}

#[test]
fn get_quota_stops_at_the_completion() {
    let mut sink = UnilateralSink::new();
    let records = vec![
        quota_record("", 5, 100),
        done("A1"),
        other("* BYE after the completion"),
    ];
    let result = get_quota(records, &tag("A1"), &mut sink);
    assert_eq!(result, Ok(quota("", 5, 100)));
    // Nothing past the completion reaches the sink.
    assert_eq!(sink.len(), 0);
}

#[test]
fn get_quota_root_gathers_both_collections_in_order() {
    let mut sink = UnilateralSink::new();
    let records = vec![
        root_record("INBOX", &["User quota"]),
        quota_record("User quota", 1, 10),
        quota_record("User quota", 2, 20),
        done("A1"),
    ];
    let result = get_quota_root(records, &tag("A1"), &mut sink);
    let (roots, quotas) = result.expect("the completion was present");
    assert_eq!(
        roots,
        vec![QuotaRoot {
            mailbox_name: "INBOX".to_string(),
            quota_root_names: vec!["User quota".to_string()],
        }]
    );
    assert_eq!(
        quotas,
        vec![quota("User quota", 1, 10), quota("User quota", 2, 20)]
    );
    assert_eq!(sink.len(), 0);
}

#[test]
fn get_quota_root_with_no_records_is_empty_but_ok() {
    let mut sink = UnilateralSink::new();
    let records = vec![done("A1")];
    let result = get_quota_root(records, &tag("A1"), &mut sink);
    let (roots, quotas) = result.expect("the completion was present");
    assert_eq!(roots, vec![]);
    assert_eq!(quotas, vec![]);
}

#[test]
fn get_quota_root_without_completion_is_missing_completion() {
    let mut sink = UnilateralSink::new();
    let records = vec![root_record("INBOX", &[])];
    let result = get_quota_root(records, &tag("A1"), &mut sink);
    assert_eq!(result, Err(QuotaError::MissingCompletion));
}

#[test]
fn get_quota_root_diverts_what_is_neither_kind() {
    let mut sink = UnilateralSink::new();
    let records = vec![other("* 2 EXPUNGE"), root_record("INBOX", &[]), done("A1")];
    let result = get_quota_root(records, &tag("A1"), &mut sink);
    assert!(result.is_ok());
    assert_eq!(sink.records(), &vec![other("* 2 EXPUNGE")]);
}

#[test]
fn completion_matches_only_the_exact_tag() {
    assert!(is_tagged_completion(&done("A1"), &tag("A1")));
    assert!(!is_tagged_completion(&done("A2"), &tag("A1")));
    assert!(!is_tagged_completion(&other("A1 OK"), &tag("A1")));
    assert!(!is_tagged_completion(&quota_record("", 1, 2), &tag("A1")));
}

#[test]
fn sink_hands_records_out_in_arrival_order() {
    let mut sink = UnilateralSink::new();
    sink.push(other("first"));
    sink.push(other("second"));
    assert_eq!(sink.len(), 2);
    assert_eq!(sink.into_records(), vec![other("first"), other("second")]);
}

#[test]
fn quota_correlator_streams_one_command() {
    let mut sink = UnilateralSink::new();
    let mut correlator = QuotaCorrelator::new(tag("A1"));
    assert!(!correlator.step(other("* 1 EXISTS"), &mut sink));
    assert!(!correlator.step(quota_record("", 5, 100), &mut sink));
    assert!(correlator.step(done("A1"), &mut sink));
    assert_eq!(correlator.finish(), Ok(quota("", 5, 100)));
    assert_eq!(sink.records(), &vec![other("* 1 EXISTS")]);
}

#[test]
fn quota_correlator_without_completion_reports_it() {
    let mut sink = UnilateralSink::new();
    let mut correlator = QuotaCorrelator::new(tag("A1"));
    assert!(!correlator.step(quota_record("", 5, 100), &mut sink));
    assert_eq!(correlator.finish(), Err(QuotaError::MissingCompletion));
}

#[test]
fn quota_root_correlator_streams_one_command() {
    let mut sink = UnilateralSink::new();
    let mut correlator = QuotaRootCorrelator::new(tag("A1"));
    assert!(!correlator.step(root_record("INBOX", &["User quota"]), &mut sink));
    assert!(!correlator.step(quota_record("User quota", 1, 10), &mut sink));
    assert!(correlator.step(done("A1"), &mut sink));
    let (roots, quotas) = correlator.finish().expect("the completion was observed");
    assert_eq!(roots.len(), 1);
    assert_eq!(quotas, vec![quota("User quota", 1, 10)]);
    assert_eq!(sink.len(), 0);
}
