//! Synchronization attempts against an in-process peer.

use timesimp::Settings;
use timesimp::SignedDuration;
use timesimp::Timesimp;

#[derive(Debug, Default)]
struct TestSimp {
    offset: Option<SignedDuration>,
}

#[derive(Debug)]
struct TestError;

impl Timesimp for TestSimp {
    type Err = TestError;

    fn load_offset(&self) -> Result<Option<SignedDuration>, TestError> {
        Ok(self.offset)
    }

    fn store_offset(&mut self, offset: SignedDuration) -> Result<(), TestError> {
        self.offset = Some(offset);
        Ok(())
    }

    fn query_server(&self, request: timesimp::Request) -> Result<timesimp::Response, TestError> {
        self.answer_client(request)
    }

    fn sleep(_duration_ns: u64) {}
}

/// A peer whose transport always fails.
#[derive(Debug)]
struct FailingSimp {
    offset: Option<SignedDuration>,
}

impl Timesimp for FailingSimp {
    type Err = TestError;

    fn load_offset(&self) -> Result<Option<SignedDuration>, TestError> {
        Ok(self.offset)
    }

    fn store_offset(&mut self, offset: SignedDuration) -> Result<(), TestError> {
        self.offset = Some(offset);
        Ok(())
    }

    fn query_server(&self, _request: timesimp::Request) -> Result<timesimp::Response, TestError> {
        Err(TestError)
    }

    fn sleep(_duration_ns: u64) {}
}

#[test]
fn null_offset() {
    let mut simp = TestSimp::default();

    let offset = simp.attempt_sync(Settings::default()).unwrap();
    assert!(
        offset.unwrap() > SignedDuration::from_micros(-50)
            && offset.unwrap() < SignedDuration::from_micros(50),
        "offset = {offset:?}"
    );
}

#[test]
fn zero_offset() {
    let mut simp = TestSimp {
        offset: Some(SignedDuration::from_micros(0)),
    };

    let offset = simp.attempt_sync(Settings::default()).unwrap();
    assert!(
        offset.unwrap() > SignedDuration::from_micros(-50)
            && offset.unwrap() < SignedDuration::from_micros(50),
        "offset = {offset:?}"
    );
}

#[test]
fn negative_starting_offset() {
    let mut simp = TestSimp {
        offset: Some(SignedDuration::from_secs(-5)),
    };

    let offset = simp.attempt_sync(Settings::default()).unwrap().unwrap();
    let shifted_ns = offset.as_nanos() + 5_000_000_000;
    assert!(
        -50_000 < shifted_ns && shifted_ns < 50_000,
        "offset + 5s = {shifted_ns}ns"
    );
}

#[test]
fn positive_starting_offset() {
    let mut simp = TestSimp {
        offset: Some(SignedDuration::from_secs(5)),
    };

    let offset = simp.attempt_sync(Settings::default()).unwrap().unwrap();
    let shifted_ns = offset.as_nanos() - 5_000_000_000;
    assert!(
        -50_000 < shifted_ns && shifted_ns < 50_000,
        "offset - 5s = {shifted_ns}ns"
    );
}

#[test]
fn all_queries_fail() {
    // With no valid sample at all, the attempt reports no confident result
    // and leaves the stored offset untouched.
    let mut stored = FailingSimp {
        offset: Some(SignedDuration::from_secs(7)),
    };
    let result = stored.attempt_sync(Settings::default()).unwrap();
    assert!(result.is_none());
    assert_eq!(stored.offset, Some(SignedDuration::from_secs(7)));

    let mut empty = FailingSimp { offset: None };
    let result = empty.attempt_sync(Settings::default()).unwrap();
    assert!(result.is_none());
    assert_eq!(empty.offset, None);
}
