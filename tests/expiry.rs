use chrono::{Local, NaiveDate, TimeZone};
use trashexpiry::engine::{
    assess, outcome_of, plan_entry, DeleteError, DeletionStep, EntryOutcome, EntryPlan,
    RunReport,
};
use trashexpiry::paths::{file_extension, file_stem, TrashPath};
use trashexpiry::policy::{Decision, PolicyConfig};
use trashexpiry::record::{DescriptorKey, ParseError, TrashRecord};
use trashexpiry::timestamp::age_days;

fn path(s: &str) -> TrashPath {
    TrashPath {
        absolute: s.starts_with('/'),
        parts: s.split('/').filter(|p| !p.is_empty()).map(|p| p.to_string()).collect(),
    }
}

fn text_of(p: &TrashPath) -> String {
    let joined = p.parts.join("/");
    if p.absolute {
        format!("/{}", joined)
    } else {
        joined
    }
}

fn local(y: i32, m: u32, d: u32) -> i64 {
    let naive = NaiveDate::from_ymd_opt(y, m, d).unwrap().and_hms_opt(0, 0, 0).unwrap();
    Local.from_local_datetime(&naive).single().unwrap().timestamp()
}

const INFO: &str = "/home/u/.local/share/Trash/info/notes.txt.trashinfo";
const GOOD: &str = "[Trash Info]\nPath=/home/u/notes.txt\nDeletionDate=2024-01-01T00:00:00\n";

fn config(warn: i64, delete: i64) -> PolicyConfig {
    PolicyConfig { warn_after_days: warn, delete_after_days: delete }
}

fn expire(record: &TrashRecord, payload_ok: bool, descriptor_ok: bool) -> DeletionStep {
    let _ = record;
    let mut step = DeletionStep::start(false);
    while !step.is_finished() {
        let ok = match step {
            DeletionStep::RemoveDescriptor => descriptor_ok,
            _ => payload_ok,
        };
        step = step.next(ok);
    }
    step
}

#[test]
fn payload_path_is_sibling_files_entry() {
    let p = path(INFO).payload_path().unwrap();
    assert_eq!(text_of(&p), "/home/u/.local/share/Trash/files/notes.txt");
}

#[test]
fn payload_path_relative_and_short() {
    assert_eq!(text_of(&path("info/a.trashinfo").payload_path().unwrap()), "files/a");
    assert!(path("a.trashinfo").payload_path().is_none());
    assert!(path("/a.trashinfo").payload_path().is_none());
    assert!(path("/t/info/..").payload_path().is_none());
}

#[test]
fn payload_path_depends_on_path_alone() {
    let a = TrashRecord::parse(path(INFO), GOOD).unwrap();
    let other = "[Trash Info]\nPath=/elsewhere\nDeletionDate=2020-05-05T10:00:00\n";
    let b = TrashRecord::parse(path(INFO), other).unwrap();
    assert_eq!(text_of(a.payload_path()), text_of(b.payload_path()));
    assert_eq!(text_of(a.payload_path()), text_of(&path(INFO).payload_path().unwrap()));
}

#[test]
fn stems_and_extensions() {
    assert_eq!(file_stem("a.tar.gz"), "a.tar");
    assert_eq!(file_stem(".bashrc"), ".bashrc");
    assert_eq!(file_stem("plain"), "plain");
    assert_eq!(file_stem("dot."), "dot");
    assert_eq!(file_extension("x.trashinfo"), Some("trashinfo".to_string()));
    assert_eq!(file_extension(".trashinfo"), None);
    assert_eq!(file_extension("plain"), None);
}

#[test]
fn descriptor_names() {
    assert!(path("/t/info/x.trashinfo").is_descriptor());
    assert!(!path("/t/info/x.TRASHINFO").is_descriptor());
    assert!(!path("/t/info/x").is_descriptor());
    assert!(!path("/t/info/.trashinfo").is_descriptor());
    assert!(!path("/t/info/x.trashinfo.bak").is_descriptor());
}

#[test]
fn parse_reads_fields() {
    let r = TrashRecord::parse(path(INFO), GOOD).unwrap();
    assert_eq!(r.original_path(), "/home/u/notes.txt");
    assert_eq!(r.deletion_timestamp(), local(2024, 1, 1));
    assert_eq!(text_of(r.metadata_path()), INFO);
}

#[test]
fn parse_malformed() {
    let r = TrashRecord::parse(path(INFO), "[Trash Info\nPath=/x\n");
    assert_eq!(r.err(), Some(ParseError::Malformed));
}

#[test]
fn parse_missing_section() {
    let r = TrashRecord::parse(path(INFO), "Path=/x\nDeletionDate=2024-01-01T00:00:00\n");
    assert_eq!(r.err(), Some(ParseError::MissingSection));
}

#[test]
fn parse_missing_path_key() {
    let r = TrashRecord::parse(path(INFO), "[Trash Info]\nDeletionDate=2024-01-01T00:00:00\n");
    assert_eq!(r.err(), Some(ParseError::MissingKey(DescriptorKey::Path)));
}

#[test]
fn parse_bad_timestamp() {
    let r = TrashRecord::parse(path(INFO), "[Trash Info]\nPath=/x\nDeletionDate=2024-01-01 00:00:00\n");
    assert_eq!(r.err(), Some(ParseError::BadTimestamp));
    let r = TrashRecord::parse(path(INFO), "[Trash Info]\nPath=/x\nDeletionDate=2024-13-01T00:00:00\n");
    assert_eq!(r.err(), Some(ParseError::BadTimestamp));
}

#[test]
fn parse_bad_path_derivation() {
    let r = TrashRecord::parse(path("notes.trashinfo"), GOOD);
    assert_eq!(r.err(), Some(ParseError::BadPathDerivation));
}

#[test]
fn age_is_whole_days_truncated() {
    assert_eq!(age_days(0, 86399), 0);
    assert_eq!(age_days(0, 86400), 1);
    assert_eq!(age_days(0, 69 * 86400 + 5), 69);
    assert_eq!(age_days(86400 * 2, 0), -2);
    assert_eq!(age_days(100, 0), 0);
    assert_eq!(age_days(i64::MIN, i64::MAX), 213503982334601);
}

#[test]
fn age_is_monotonic_in_now() {
    let d = 1_000_000;
    let mut last = age_days(d, d - 10 * 86400);
    let mut now = d - 10 * 86400;
    while now < d + 10 * 86400 {
        now += 3607;
        let a = age_days(d, now);
        assert!(a >= last);
        last = a;
    }
}

#[test]
fn expiry_takes_precedence_over_warning() {
    assert_eq!(config(100, 60).classify(70), Decision::Expire);
    assert_eq!(config(50, 60).classify(60), Decision::Expire);
    assert_eq!(config(50, 60).classify(55), Decision::Warn { days_left: 5 });
    assert_eq!(config(50, 60).classify(49), Decision::Fresh);
    assert_eq!(config(100, 60).classify(59), Decision::Fresh);
}

#[test]
fn warning_days_left_does_not_overflow() {
    assert_eq!(
        config(i64::MIN, i64::MAX).classify(i64::MIN),
        Decision::Warn { days_left: (i64::MAX as i128) - (i64::MIN as i128) }
    );
}

#[test]
fn repeated_assessment_agrees() {
    let r = TrashRecord::parse(path(INFO), GOOD).unwrap();
    let now = local(2024, 2, 25);
    let c = config(50, 60);
    let first = assess(&r, now, &c);
    let second = assess(&r, now, &c);
    assert_eq!(first, second);
    assert_eq!(first.decision, Decision::Warn { days_left: 5 });
}

#[test]
fn payload_failure_keeps_descriptor() {
    let r = TrashRecord::parse(path(INFO), GOOD).unwrap();
    let end = expire(&r, false, true);
    assert_eq!(end, DeletionStep::Failed(DeleteError::PayloadRemovalFailed));
    let mut step = DeletionStep::start(true);
    assert_eq!(step, DeletionStep::RemovePayloadTree);
    step = step.next(false);
    assert_eq!(step.next(true), step);
    assert_ne!(step, DeletionStep::RemoveDescriptor);
    assert!(TrashRecord::parse(path(INFO), GOOD).is_ok());
}

#[test]
fn descriptor_failure_is_distinct() {
    let r = TrashRecord::parse(path(INFO), GOOD).unwrap();
    let end = expire(&r, true, false);
    assert_eq!(end, DeletionStep::Failed(DeleteError::DescriptorRemovalFailed));
    assert_eq!(
        outcome_of(Decision::Expire, end),
        EntryOutcome::DeleteFailed(DeleteError::DescriptorRemovalFailed)
    );
}

#[test]
fn config_defaults() {
    assert_eq!(PolicyConfig::default(), config(50, 60));
    let (c, reports) = PolicyConfig::load(&Vec::new());
    assert_eq!(c, config(50, 60));
    assert!(reports.is_empty());
}

#[test]
fn config_layers_compose_by_key() {
    let files = vec!["delete_after_days=90\n".to_string(), "warn_after_days=80\n".to_string()];
    let (c, _) = PolicyConfig::load(&files);
    assert_eq!(c, PolicyConfig { delete_after_days: 90, warn_after_days: 80 });
}

#[test]
fn config_later_file_wins() {
    let files = vec![
        "delete_after_days=90\nwarn_after_days=10\n".to_string(),
        "delete_after_days = +30\n".to_string(),
    ];
    assert_eq!(PolicyConfig::load(&files).0, config(10, 30));
}

#[test]
fn config_bad_integer_is_ignored() {
    let mut c = PolicyConfig::default();
    let report = c.apply_override("delete_after_days=ninety\nwarn_after_days=-5\n");
    assert!(!report.unreadable);
    assert_eq!(report.bad_delete, Some("ninety".to_string()));
    assert_eq!(report.bad_warn, None);
    assert_eq!(c, config(-5, 60));
    let report = c.apply_override("delete_after_days=99999999999999999999\n");
    assert_eq!(report.bad_delete, Some("99999999999999999999".to_string()));
    assert_eq!(c, config(-5, 60));
}

#[test]
fn config_unreadable_file_changes_nothing() {
    let mut c = config(1, 2);
    let report = c.apply_override("[broken\ndelete_after_days=9\n");
    assert!(report.unreadable);
    assert_eq!(c, config(1, 2));
}

#[test]
fn config_section_keys_are_not_overrides() {
    let mut c = PolicyConfig::default();
    let _ = c.apply_override("[other]\ndelete_after_days=5\n");
    assert_eq!(c, config(50, 60));
}

#[test]
fn scenario_old_item_expires() {
    let r = TrashRecord::parse(path(INFO), GOOD).unwrap();
    let a = assess(&r, local(2024, 3, 10), &config(50, 60));
    assert_eq!(a.age_days, 69);
    assert_eq!(a.decision, Decision::Expire);
    let end = expire(&r, true, true);
    assert_eq!(end, DeletionStep::Done);
    let mut report = RunReport::new();
    report.note(outcome_of(a.decision, end));
    assert_eq!(report.erased, 1);
    assert_eq!(report.exit_status(), 0);
}

#[test]
fn scenario_young_item_is_fresh() {
    let r = TrashRecord::parse(path(INFO), GOOD).unwrap();
    let a = assess(&r, local(2024, 1, 20), &config(50, 60));
    assert_eq!(a.age_days, 19);
    assert_eq!(a.decision, Decision::Fresh);
    let mut report = RunReport::new();
    report.note(outcome_of(a.decision, DeletionStep::Done));
    assert_eq!(report.fresh, 1);
    assert_eq!(report.erased, 0);
    assert_eq!(report.exit_status(), 0);
}

#[test]
fn scenario_missing_date_counts_error() {
    let text = "[Trash Info]\nPath=/home/u/notes.txt\n";
    let e = TrashRecord::parse(path(INFO), text).err().unwrap();
    assert_eq!(e, ParseError::MissingKey(DescriptorKey::DeletionDate));
    let mut report = RunReport::new();
    report.note(EntryOutcome::ParseFailed(e));
    assert_eq!(report.errors, 1);
    let next = TrashRecord::parse(path(INFO), GOOD).unwrap();
    let a = assess(&next, local(2024, 1, 20), &config(50, 60));
    report.note(outcome_of(a.decision, DeletionStep::Done));
    assert_eq!(report.fresh, 1);
    assert_ne!(report.exit_status(), 0);
}

#[test]
fn report_tallies_each_outcome() {
    let mut report = RunReport::new();
    report.note(EntryOutcome::Skipped);
    report.note(EntryOutcome::Unlisted);
    report.note(EntryOutcome::Warned);
    report.note(EntryOutcome::Unreadable);
    report.note(EntryOutcome::DeleteFailed(DeleteError::PayloadRemovalFailed));
    assert_eq!(report.skipped, 2);
    assert_eq!(report.warned, 1);
    assert_eq!(report.errors, 2);
    assert_eq!(report.exit_status(), 1);
    let mut full = RunReport { erased: u64::MAX, ..RunReport::new() };
    full.note(EntryOutcome::Erased);
    assert_eq!(full.erased, u64::MAX);
}

#[test]
fn plan_parse_failure_is_settled_error() {
    let parsed = TrashRecord::parse(path(INFO), "[Trash Info]\nPath=/x\n");
    match plan_entry(parsed, local(2024, 3, 10), &config(50, 60)) {
        EntryPlan::Settled(o) => {
            assert_eq!(o, EntryOutcome::ParseFailed(ParseError::MissingKey(DescriptorKey::DeletionDate)))
        }
        _ => panic!("a parse failure is settled"),
    }
}

#[test]
fn plan_follows_assessment() {
    let c = config(50, 60);
    let plan = plan_entry(TrashRecord::parse(path(INFO), GOOD), local(2024, 3, 10), &c);
    match plan {
        EntryPlan::Expire(r, a) => {
            assert_eq!(r.original_path(), "/home/u/notes.txt");
            assert_eq!(a.age_days, 69);
        }
        _ => panic!("an old record expires"),
    }
    let plan = plan_entry(TrashRecord::parse(path(INFO), GOOD), local(2024, 2, 25), &c);
    match plan {
        EntryPlan::Warn(_, a) => assert_eq!(a.decision, Decision::Warn { days_left: 5 }),
        _ => panic!("a record past the warning threshold is reported"),
    }
    let plan = plan_entry(TrashRecord::parse(path(INFO), GOOD), local(2024, 1, 20), &c);
    match plan {
        EntryPlan::Settled(o) => assert_eq!(o, EntryOutcome::Fresh),
        _ => panic!("a young record is left alone"),
    }
}

#[test]
fn load_reports_each_file() {
    let files = vec![
        "delete_after_days=abc\n".to_string(),
        "[broken\n".to_string(),
        "warn_after_days=7\n".to_string(),
    ];
    let (c, reports) = PolicyConfig::load(&files);
    assert_eq!(c, config(7, 60));
    assert_eq!(reports.len(), 3);
    assert_eq!(reports[0].bad_delete, Some("abc".to_string()));
    assert!(!reports[0].unreadable);
    assert!(reports[1].unreadable);
    assert_eq!(reports[2].bad_delete, None);
    assert_eq!(reports[2].bad_warn, None);
}

#[test]
fn deletion_instant_is_near_the_fields_read_as_utc() {
    let r = TrashRecord::parse(path(INFO), "[Trash Info]\nPath=/x\nDeletionDate=2024-01-01T00:00:00\n").unwrap();
    let utc = 19723 * 86400;
    assert!(r.deletion_timestamp() > utc - 86400 && r.deletion_timestamp() < utc + 86400);
    let later = TrashRecord::parse(path(INFO), "[Trash Info]\nPath=/x\nDeletionDate=2024-03-10T00:00:00\n").unwrap();
    assert_eq!(later.deletion_timestamp() - r.deletion_timestamp(), 69 * 86400);
}
