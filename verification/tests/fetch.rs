use downloader::fetch::{fetch_step, FetchStep, FETCH_COUNT};

#[test]
fn a_run_takes_a_hundred_batches_at_most() {
    assert_eq!(FETCH_COUNT, 100);
}

#[test]
fn a_good_batch_within_the_limit_is_taken() {
    assert_eq!(fetch_step(0, false), FetchStep::Take);
    assert_eq!(fetch_step(99, false), FetchStep::Take);
}

#[test]
fn a_failed_delivery_within_the_limit_is_reported() {
    assert_eq!(fetch_step(0, true), FetchStep::ReportAndStop);
    assert_eq!(fetch_step(99, true), FetchStep::ReportAndStop);
}

#[test]
fn nothing_is_taken_beyond_the_limit() {
    assert_eq!(fetch_step(100, false), FetchStep::Stop);
    assert_eq!(fetch_step(100, true), FetchStep::Stop);
    assert_eq!(fetch_step(usize::MAX, false), FetchStep::Stop);
    assert_eq!(fetch_step(usize::MAX, true), FetchStep::Stop);
}
