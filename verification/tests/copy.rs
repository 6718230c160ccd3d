use async_chat::copy::{Copier, CopyStep, ReadOutcome, BUFSIZ};

#[test]
fn copier_counts_what_was_written() {
    let mut copier = Copier::new();
    assert_eq!(copier.next(ReadOutcome::Read(0)), CopyStep::Finish(0));
    assert_eq!(copier.next(ReadOutcome::Read(5)), CopyStep::Write(5));
    copier.wrote(5);
    assert_eq!(copier.next(ReadOutcome::Again), CopyStep::Retry);
    assert_eq!(copier.next(ReadOutcome::Read(BUFSIZ)), CopyStep::Write(8192));
    copier.wrote(BUFSIZ);
    assert_eq!(copier.next(ReadOutcome::Read(0)), CopyStep::Finish(8197));
}

#[test]
fn copier_fails_on_a_failed_read() {
    let copier = Copier::new();
    assert_eq!(copier.next(ReadOutcome::Failed), CopyStep::Fail);
    assert_eq!(copier.next(ReadOutcome::Read(BUFSIZ + 1)), CopyStep::Fail);
}

#[test]
fn copier_count_stops_at_the_largest_number() {
    let mut copier = Copier::new();
    for _ in 0..5 {
        copier.wrote(usize::MAX);
    }
    if usize::BITS == 64 {
        assert_eq!(copier.next(ReadOutcome::Read(0)), CopyStep::Finish(u64::MAX));
    }
}
