use rust_server_api::retry::{FetchError, Retry, RetryPolicy, RetryStep, CRAWL_BACKOFF_MS, CRAWL_MAX_ATTEMPTS};

fn run(policy: RetryPolicy, outcomes: &[Result<&str, &str>]) -> Result<String, FetchError> {
    let mut retry = Retry::new(policy);
    for o in outcomes {
        match o {
            Ok(v) => return Ok(v.to_string()),
            Err(e) => match retry.on_failure(e.to_string()) {
                RetryStep::Wait(ms) => assert_eq!(ms, policy.backoff_ms),
                RetryStep::GiveUp(err) => return Err(err),
            },
        }
    }
    panic!("outcomes ran out")
}

#[test]
fn success_on_the_fifth_attempt() {
    let p = RetryPolicy { max_attempts: 5, backoff_ms: 1000 };
    let r = run(p, &[Err("e1"), Err("e2"), Err("e3"), Err("e4"), Ok("bytes")]);
    assert_eq!(r, Ok("bytes".to_string()));
}

#[test]
fn five_failures_exhaust_the_budget() {
    let p = RetryPolicy { max_attempts: 5, backoff_ms: 1000 };
    let r = run(p, &[Err("e1"), Err("e2"), Err("e3"), Err("e4"), Err("e5"), Ok("late")]);
    assert_eq!(r, Err(FetchError::Exhausted { attempts: 5, last: "e5".to_string() }));
}

#[test]
fn waits_use_the_fixed_delay() {
    let mut retry = Retry::new(RetryPolicy::crawl());
    assert_eq!(retry.on_failure("x".to_string()), RetryStep::Wait(CRAWL_BACKOFF_MS));
    assert_eq!(retry.on_failure("y".to_string()), RetryStep::Wait(1000));
    assert_eq!(retry.attempts_failed(), 2);
    assert_eq!(CRAWL_MAX_ATTEMPTS, 5);
}

#[test]
fn zero_budget_still_tries_once() {
    let mut retry = Retry::new(RetryPolicy { max_attempts: 0, backoff_ms: 5 });
    assert_eq!(
        retry.on_failure("boom".to_string()),
        RetryStep::GiveUp(FetchError::Exhausted { attempts: 1, last: "boom".to_string() })
    );
}
