//! Calls that signals interrupt.

use std::io;

use herdr_tether::interrupt::{fill_buf, Budget, FillStep, Retry, RetryStep};

fn interrupted() -> io::Error {
    io::Error::from(io::ErrorKind::Interrupted)
}

/// Makes a call again as long as the budget allows. The clock advances by a
/// millisecond with each interruption.
fn retried<T>(budget: Budget, mut call: impl FnMut() -> io::Result<T>) -> io::Result<T> {
    let mut retry = Retry::new(budget);
    let mut now = 1_000_000;
    loop {
        match call() {
            Err(error) if error.kind() == io::ErrorKind::Interrupted => {
                if retry.retry_interrupted(now) == RetryStep::TimedOut {
                    return Err(io::Error::new(io::ErrorKind::TimedOut, error));
                }
                now += 1_000_000;
            }
            outcome => return outcome,
        }
    }
}

#[test]
fn a_non_blocking_call_is_retried_until_it_reports_something_else() {
    let mut attempts = 0;
    let outcome = retried(Budget::Immediate, || {
        attempts += 1;
        if attempts < 4 {
            return Err(interrupted());
        }
        Ok(attempts)
    });
    assert_eq!(outcome.unwrap(), 4);
}

#[test]
fn an_error_that_is_not_an_interruption_is_reported_as_it_is() {
    let mut attempts = 0;
    let outcome = retried(Budget::Within(30_000_000_000), || {
        attempts += 1;
        Err::<(), _>(io::Error::from(io::ErrorKind::ConnectionReset))
    });
    assert_eq!(outcome.unwrap_err().kind(), io::ErrorKind::ConnectionReset);
    assert_eq!(attempts, 1, "a reported failure must not be retried");
}

#[test]
fn an_already_spent_window_does_not_buy_another_wait() {
    let mut attempts = 0;
    let outcome = retried(Budget::Within(0), || {
        attempts += 1;
        Err::<(), _>(interrupted())
    });
    let error = outcome.unwrap_err();
    assert_eq!(error.kind(), io::ErrorKind::TimedOut);
    assert_eq!(
        error
            .get_ref()
            .and_then(|source| source.downcast_ref::<io::Error>())
            .map(io::Error::kind),
        Some(io::ErrorKind::Interrupted),
        "the interruption must survive as the source"
    );
    assert_eq!(attempts, 1);
}

#[test]
fn a_bounded_wait_ends_instead_of_restarting_its_window_per_signal() {
    let mut attempts = 0;
    let outcome = retried(Budget::Within(20_000_000), || {
        attempts += 1;
        Err::<(), _>(interrupted())
    });
    assert_eq!(outcome.unwrap_err().kind(), io::ErrorKind::TimedOut);
    assert!(attempts > 1, "the window must allow retries before it is spent");
    assert_eq!(attempts, 21);
}

#[test]
fn a_deadline_bounded_wait_stops_at_the_callers_deadline() {
    let mut attempts = 0;
    let outcome = retried(Budget::Until(1_000_000), || {
        attempts += 1;
        Err::<(), _>(interrupted())
    });
    assert_eq!(outcome.unwrap_err().kind(), io::ErrorKind::TimedOut);
    assert_eq!(attempts, 1, "a due deadline must not buy another wait");
}

#[test]
fn an_interrupted_poll_before_the_deadline_is_retried() {
    let mut attempts = 0;
    let outcome = retried(Budget::Until(30_000_000_000), || {
        attempts += 1;
        if attempts == 1 {
            return Err(interrupted());
        }
        Ok::<Option<u8>, io::Error>(None)
    });
    assert_eq!(outcome.unwrap(), None);
    assert_eq!(attempts, 2);
}

/// A reader that reports an interruption before each byte it yields.
struct SignalInterrupted {
    remaining: &'static [u8],
    interrupted: bool,
}

impl io::Read for SignalInterrupted {
    fn read(&mut self, buffer: &mut [u8]) -> io::Result<usize> {
        if !self.interrupted {
            self.interrupted = true;
            return Err(interrupted());
        }
        self.interrupted = false;
        if buffer.is_empty() || self.remaining.is_empty() {
            return Ok(0);
        }
        buffer[0] = self.remaining[0];
        self.remaining = &self.remaining[1..];
        Ok(1)
    }
}

/// Fills the buffer of a reader, and hands out what it then holds.
fn filled(reader: &mut dyn io::BufRead) -> io::Result<Vec<u8>> {
    let available = retried(Budget::Within(30_000_000_000), || Ok(reader.fill_buf()?.len()))?;
    match fill_buf(available) {
        FillStep::EndOfInput => Ok(Vec::new()),
        FillStep::Buffered => Ok(reader.fill_buf()?.to_vec()),
    }
}

#[test]
fn filling_a_buffer_retries_an_interrupted_read() {
    let mut reader =
        io::BufReader::new(SignalInterrupted { remaining: b"ok", interrupted: false });
    assert_eq!(filled(&mut reader).unwrap(), b"o");
}

#[test]
fn filling_a_buffer_reports_end_of_input_as_an_empty_slice() {
    let mut reader = io::BufReader::new(SignalInterrupted { remaining: b"", interrupted: false });
    assert!(filled(&mut reader).unwrap().is_empty());
}
