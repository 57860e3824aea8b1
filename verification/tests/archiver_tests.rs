use log_zipper::archiver::Action;
use log_zipper::archiver::Event;
use log_zipper::archiver::FailKind;
use log_zipper::archiver::Job;
use log_zipper::archiver::Outcome;
use log_zipper::archiver::Phase;
use log_zipper::stamp::Stamp;
use log_zipper::zipc::zip_read_single;

fn stamp() -> Stamp {
    Stamp { year: 2023, month: 4, day: 5, hour: 6, minute: 7, second: 8 }
}

#[test]
fn full_pipeline_compresses_and_deletes() {
    let mut job = Job::new("app.log".to_string(), stamp());
    assert_eq!(job.phase, Phase::Probing);

    let a = job.step(Event::Probed { in_use: false });
    assert_eq!(a, Action::ReadChunk);

    let a = job.step(Event::Chunk { bytes: b"he".to_vec() });
    assert_eq!(a, Action::ReadChunk);
    let a = job.step(Event::Chunk { bytes: b"llo".to_vec() });
    assert_eq!(a, Action::ReadChunk);

    let a = job.step(Event::SourceEof);
    assert_eq!(a, Action::BuildAndSave);

    let (target, archive) = job.build_archive();
    assert_eq!(target, "2023-04-05_06-07-08_app.log.zip");
    let (name, bytes) = zip_read_single(&archive).expect("archive should read back");
    assert_eq!(name, "app.log");
    assert_eq!(bytes, b"hello".to_vec());

    let a = job.step(Event::ArchiveSaved);
    assert_eq!(a, Action::DeleteSource);

    let a = job.step(Event::SourceDeleted);
    assert_eq!(a, Action::Finish { outcome: Outcome::Compressed { delete_failed: false } });
    assert_eq!(job.phase, Phase::Finished);
}

#[test]
fn in_use_file_is_skipped_without_any_write() {
    let mut job = Job::new("busy.log".to_string(), stamp());
    let a = job.step(Event::Probed { in_use: true });
    assert_eq!(a, Action::Finish { outcome: Outcome::SkippedInUse });
    assert_eq!(job.phase, Phase::Finished);
}

#[test]
fn read_failure_fails_the_file_without_deletion() {
    let mut job = Job::new("app.log".to_string(), stamp());
    job.step(Event::Probed { in_use: false });
    job.step(Event::Chunk { bytes: b"part".to_vec() });
    let a = job.step(Event::SourceReadFailed);
    assert_eq!(a, Action::Finish { outcome: Outcome::Failed { kind: FailKind::SourceRead } });
    assert_eq!(job.phase, Phase::Finished);
}

#[test]
fn archive_failure_fails_the_file_without_deletion() {
    let mut job = Job::new("app.log".to_string(), stamp());
    job.step(Event::Probed { in_use: false });
    job.step(Event::Chunk { bytes: b"hello".to_vec() });
    job.step(Event::SourceEof);
    let a = job.step(Event::ArchiveFailed);
    assert_eq!(a, Action::Finish { outcome: Outcome::Failed { kind: FailKind::Archive } });
    assert_eq!(job.phase, Phase::Finished);
}

#[test]
fn failed_deletion_is_a_warning_not_a_failure() {
    let mut job = Job::new("app.log".to_string(), stamp());
    job.step(Event::Probed { in_use: false });
    job.step(Event::Chunk { bytes: b"hello".to_vec() });
    job.step(Event::SourceEof);
    job.step(Event::ArchiveSaved);
    let a = job.step(Event::SourceDeleteFailed);
    assert_eq!(a, Action::Finish { outcome: Outcome::Compressed { delete_failed: true } });
    assert_eq!(job.phase, Phase::Finished);
}

#[test]
fn empty_source_builds_an_empty_entry() {
    let mut job = Job::new("empty.log".to_string(), stamp());
    job.step(Event::Probed { in_use: false });
    job.step(Event::SourceEof);
    let (target, archive) = job.build_archive();
    assert_eq!(target, "2023-04-05_06-07-08_empty.log.zip");
    let (name, bytes) = zip_read_single(&archive).expect("archive should read back");
    assert_eq!(name, "empty.log");
    assert_eq!(bytes.len(), 0);
}
