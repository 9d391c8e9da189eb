use xattr::sizing::{Reply, Sizing, SizingError, Step, MAX_BUFFER, MAX_CALLS};

/// Runs a sizing loop around `op`, as the accessors do, and counts the calls.
fn fetch<E>(mut op: impl FnMut(&mut [u8]) -> Reply<E>) -> (Result<Vec<u8>, SizingError<E>>, usize) {
    let mut s = Sizing::new();
    let mut buf = vec![0u8; s.capacity()];
    let mut calls = 0;
    loop {
        calls += 1;
        match s.on_reply(op(&mut buf)) {
            Step::Call(n) => buf = vec![0u8; n],
            Step::Finish(n) => {
                buf.truncate(n);
                return (Ok(buf), calls);
            }
            Step::Fail(e) => return (Err(e), calls),
        }
    }
}

/// An operation on a value that triples in size on each of the first `k`
/// calls after the probe, then stays as it is.
fn growing(k: usize) -> impl FnMut(&mut [u8]) -> Reply<()> {
    let mut call = 0usize;
    move |buf: &mut [u8]| {
        let value = value_of_size(10 * 3usize.pow(call.min(k) as u32));
        call += 1;
        if buf.is_empty() {
            Reply::Wrote(value.len())
        } else if value.len() > buf.len() {
            Reply::TooSmall
        } else {
            buf[..value.len()].copy_from_slice(&value);
            Reply::Wrote(value.len())
        }
    }
}

fn steady(value: Vec<u8>) -> impl FnMut(&mut [u8]) -> Reply<()> {
    move |buf: &mut [u8]| {
        if buf.is_empty() {
            Reply::Wrote(value.len())
        } else if value.len() > buf.len() {
            Reply::TooSmall
        } else {
            buf[..value.len()].copy_from_slice(&value);
            Reply::Wrote(value.len())
        }
    }
}

fn value_of_size(n: usize) -> Vec<u8> {
    (0..n).map(|i| (i % 251) as u8).collect()
}

fn final_value(k: usize) -> Vec<u8> {
    value_of_size(10 * 3usize.pow(k as u32))
}

#[test]
fn converges_when_value_never_changes() {
    let (r, calls) = fetch(growing(0));
    assert_eq!(r, Ok(final_value(0)));
    assert!(calls <= MAX_CALLS);
}

#[test]
fn converges_after_one_change() {
    let (r, calls) = fetch(growing(1));
    assert_eq!(r, Ok(final_value(1)));
    assert!(calls <= MAX_CALLS);
}

#[test]
fn converges_after_five_changes() {
    let (r, calls) = fetch(growing(5));
    assert_eq!(r, Ok(final_value(5)));
    assert!(calls <= MAX_CALLS);
}

#[test]
fn never_settling_value_exhausts() {
    let mut call = 0u32;
    let (r, calls) = fetch(|buf: &mut [u8]| {
        call += 1;
        if buf.is_empty() {
            Reply::<()>::Wrote(64)
        } else {
            Reply::TooSmall
        }
    });
    assert_eq!(r, Err(SizingError::Exhausted));
    assert!(calls <= MAX_CALLS);
    assert_eq!(call as usize, calls);
}

#[test]
fn value_reporting_ever_more_bytes_exhausts() {
    let mut size = 1usize;
    let (r, calls) = fetch(|buf: &mut [u8]| {
        size = buf.len() + 1;
        Reply::<()>::Wrote(size)
    });
    assert_eq!(r, Err(SizingError::Exhausted));
    assert!(calls <= MAX_CALLS);
}

#[test]
fn steady_value_comes_back_exactly() {
    for v in [vec![], vec![0u8], vec![1, 0, 2, 0], (0..=255u8).collect::<Vec<u8>>()] {
        let (r, _) = fetch(steady(v.clone()));
        assert_eq!(r, Ok(v));
    }
}

#[test]
fn steady_value_takes_three_calls() {
    let (r, calls) = fetch(steady(vec![1, 2]));
    assert_eq!(r, Ok(vec![1, 2]));
    assert_eq!(calls, 3);
}

#[test]
fn empty_value_is_done_after_probe() {
    let (r, calls) = fetch(steady(Vec::new()));
    assert_eq!(r, Ok(Vec::new()));
    assert_eq!(calls, 1);
}

#[test]
fn os_error_is_passed_on() {
    let (r, calls) = fetch(|_: &mut [u8]| Reply::Failed("not found"));
    assert_eq!(r, Err(SizingError::Os("not found")));
    assert_eq!(calls, 1);
    let mut first = true;
    let (r, _) = fetch(|_: &mut [u8]| {
        if first {
            first = false;
            Reply::Wrote(4)
        } else {
            Reply::Failed(61)
        }
    });
    assert_eq!(r, Err(SizingError::Os(61)));
}

#[test]
fn steps_of_the_loop() {
    let mut s = Sizing::new();
    assert_eq!(s.capacity(), 0);
    assert_eq!(s.on_reply::<()>(Reply::Wrote(5)), Step::Call(5));
    assert_eq!(s.capacity(), 5);
    assert_eq!(s.on_reply::<()>(Reply::Wrote(5)), Step::Call(10));
    assert_eq!(s.on_reply::<()>(Reply::TooSmall), Step::Call(20));
    assert_eq!(s.on_reply::<()>(Reply::Wrote(19)), Step::Finish(19));
}

#[test]
fn probe_too_small_starts_at_one_byte() {
    let mut s = Sizing::new();
    assert_eq!(s.on_reply::<()>(Reply::TooSmall), Step::Call(1));
    assert_eq!(s.on_reply::<()>(Reply::Wrote(0)), Step::Finish(0));
}

#[test]
fn probe_above_bound_fails() {
    let mut s = Sizing::new();
    assert_eq!(s.on_reply::<()>(Reply::Wrote(MAX_BUFFER + 1)), Step::Fail(SizingError::Exhausted));
    let mut s = Sizing::new();
    assert_eq!(s.on_reply::<()>(Reply::Wrote(MAX_BUFFER)), Step::Call(MAX_BUFFER));
    assert_eq!(s.on_reply::<()>(Reply::TooSmall), Step::Fail(SizingError::Exhausted));
}

#[test]
fn largest_buffer_can_finish() {
    let mut s = Sizing::new();
    assert_eq!(s.on_reply::<()>(Reply::Wrote(MAX_BUFFER / 2)), Step::Call(MAX_BUFFER / 2));
    assert_eq!(s.on_reply::<()>(Reply::TooSmall), Step::Call(MAX_BUFFER));
    assert_eq!(s.on_reply::<()>(Reply::Wrote(MAX_BUFFER - 1)), Step::Finish(MAX_BUFFER - 1));
}

#[test]
fn two_attributes_fetched_whole() {
    let (a, _) = fetch(steady(vec![0x01, 0x02]));
    let (b, _) = fetch(steady(Vec::new()));
    assert_eq!(a, Ok(vec![0x01, 0x02]));
    assert_eq!(b, Ok(Vec::new()));
}
