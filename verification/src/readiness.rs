//! Wait-for-ready. The `ImageHealthcheck` strategy reads the image's
//! `HEALTHCHECK` instruction and polls with its own interval / timeout /
//! start-period, matching Docker daemon behaviour.

use vstd::prelude::*;

use crate::error::{Error, ErrorSpec, Result};
use crate::exec::ExecOutput;
use crate::json;
use crate::json::Json;
use crate::text;
use crate::time::{Duration, NANOS_PER_MILLI, NANOS_PER_SEC};
use crate::types::{TaskInfo, TaskStatus};

verus! {

/// Docker HEALTHCHECK defaults (matches the Docker daemon), in seconds.
pub const DEFAULT_HC_INTERVAL_SECS: u64 = 30;

pub const DEFAULT_HC_TIMEOUT_SECS: u64 = 30;

pub const TCP_CONNECT_TIMEOUT_SECS: u64 = 5;

/// Exponential backoff for non-healthcheck strategies.
pub const INITIAL_INTERVAL_MS: u64 = 100;

pub const MAX_INTERVAL_SECS: u64 = 2;

#[derive(Debug)]
pub enum ReadinessStrategy {
    /// Task in `Running` state.
    ProcessRunning,
    /// TCP connect to host port succeeds.
    TcpPort(u16),
    /// Command exits 0 inside the container.
    Exec(Vec<String>),
    /// Use the image's `HEALTHCHECK`. Falls back to `ProcessRunning` if the
    /// image has none.
    ImageHealthcheck,
}

/// Docker `HEALTHCHECK` extracted from an OCI image config.
#[derive(Debug)]
pub struct HealthCheck {
    /// Exec-ready args, with `CMD`/`CMD-SHELL` prefix already unwrapped.
    pub test: Vec<String>,
    pub interval: Duration,
    pub timeout: Duration,
    /// Grace period before checks start.
    pub start_period: Duration,
}

#[verifier::ext_equal]
pub struct HealthCheckSpec {
    pub test: Seq<Seq<char>>,
    /// Nanoseconds.
    pub interval: nat,
    pub timeout: nat,
    pub start_period: nat,
}

impl View for HealthCheck {
    type V = HealthCheckSpec;

    open spec fn view(&self) -> HealthCheckSpec {
        HealthCheckSpec {
            test: text::texts(self.test@),
            interval: self.interval.nanos(),
            timeout: self.timeout.nanos(),
            start_period: self.start_period.nanos(),
        }
    }
}

#[derive(Debug, Clone, Copy, PartialEq, Eq, Structural)]
pub enum HealthStatus {
    /// Exit code 0.
    Healthy,
    /// Check failed but the task is still inside its `start_period` grace
    /// window. Matches Docker's behavior: failing checks during start_period
    /// don't count toward the unhealthy threshold.
    Starting,
    /// Non-zero exit or timeout, past the start_period grace window.
    Unhealthy,
    /// Image has no `HEALTHCHECK`.
    NoHealthcheck,
}

/// The strings among the items of an array.
pub open spec fn strings_of(items: Seq<json::JsonSpec>) -> Seq<Seq<char>>
    decreases items.len(),
{
    if items.len() == 0 {
        Seq::empty()
    } else {
        match items.last() {
            json::JsonSpec::Str(s) => strings_of(items.drop_last()).push(s),
            _ => strings_of(items.drop_last()),
        }
    }
}

/// The command line of a healthcheck: what `CMD` or `CMD-SHELL` wraps, or the
/// words themselves; none for `NONE` and where nothing is left to run.
pub open spec fn check_command(test: Seq<Seq<char>>) -> Option<Seq<Seq<char>>> {
    if test.len() == 0 || test[0] == "NONE"@ {
        None
    } else if test[0] == "CMD"@ {
        if test.len() == 1 {
            None
        } else {
            Some(test.skip(1))
        }
    } else if test[0] == "CMD-SHELL"@ {
        if test.len() < 2 {
            None
        } else {
            Some(seq!["/bin/sh"@, "-c"@, test[1]])
        }
    } else {
        Some(test)
    }
}

/// `CMD` runs the words behind it and `CMD-SHELL` hands the word behind it to
/// the shell; words without such a prefix run as they are. There is no check
/// exactly if there are no words, the first is `NONE`, or nothing follows the
/// prefix.
pub proof fn law_check_command(word: Seq<char>, rest: Seq<Seq<char>>)
    ensures
        check_command(Seq::empty()) is None,
        check_command(seq!["NONE"@] + rest) is None,
        rest.len() == 0 ==> check_command(seq!["CMD"@] + rest) is None,
        rest.len() > 0 ==> check_command(seq!["CMD"@] + rest) == Some(rest),
        rest.len() == 0 ==> check_command(seq!["CMD-SHELL"@] + rest) is None,
        rest.len() > 0 ==> check_command(seq!["CMD-SHELL"@] + rest) == Some(
            seq!["/bin/sh"@, "-c"@, rest[0]],
        ),
        word != "NONE"@ && word != "CMD"@ && word != "CMD-SHELL"@ ==> check_command(
            seq![word] + rest,
        ) == Some(seq![word] + rest),
{
    reveal_strlit("NONE");
    reveal_strlit("CMD");
    reveal_strlit("CMD-SHELL");
    assert("NONE"@.len() == 4 && "CMD"@.len() == 3 && "CMD-SHELL"@.len() == 9);
    assert((seq!["NONE"@] + rest)[0] == "NONE"@);
    assert((seq!["CMD"@] + rest)[0] == "CMD"@);
    assert((seq!["CMD"@] + rest).skip(1) =~= rest);
    assert((seq!["CMD-SHELL"@] + rest)[0] == "CMD-SHELL"@);
    if rest.len() > 0 {
        assert((seq!["CMD-SHELL"@] + rest)[1] == rest[0]);
    }
    assert((seq![word] + rest)[0] == word);
}

/// A time of a healthcheck: nanoseconds, or the default.
pub open spec fn check_time(hc: json::JsonSpec, key: Seq<char>, default: nat) -> nat {
    match hc.get_u64(key) {
        Some(n) => n as nat,
        None => default,
    }
}

/// The healthcheck of an image with this configuration document.
pub open spec fn healthcheck(doc: json::JsonSpec) -> Option<HealthCheckSpec> {
    match doc.get("config"@) {
        Some(config) => match config.get("Healthcheck"@) {
            Some(hc) => match hc.get("Test"@) {
                Some(json::JsonSpec::Array(items)) => match check_command(strings_of(items)) {
                    Some(test) => Some(
                        HealthCheckSpec {
                            test,
                            interval: check_time(
                                hc,
                                "Interval"@,
                                (DEFAULT_HC_INTERVAL_SECS * NANOS_PER_SEC) as nat,
                            ),
                            timeout: check_time(
                                hc,
                                "Timeout"@,
                                (DEFAULT_HC_TIMEOUT_SECS * NANOS_PER_SEC) as nat,
                            ),
                            start_period: check_time(hc, "StartPeriod"@, 0),
                        },
                    ),
                    None => None,
                },
                _ => None,
            },
            None => None,
        },
        None => None,
    }
}

/// The healthcheck of an image is what its configuration holds under
/// `Healthcheck`: it runs the command in `Test`, every `Interval` and for at
/// most `Timeout` nanoseconds (30 seconds each if they are not given), and with
/// a grace window of `StartPeriod` nanoseconds (none if it is not given).
pub proof fn law_healthcheck(
    doc: json::JsonSpec,
    config: json::JsonSpec,
    hc: json::JsonSpec,
    items: Seq<json::JsonSpec>,
    test: Seq<Seq<char>>,
)
    requires
        doc.get("config"@) == Some(config),
        config.get("Healthcheck"@) == Some(hc),
        hc.get("Test"@) == Some(json::JsonSpec::Array(items)),
        check_command(strings_of(items)) == Some(test),
    ensures
        healthcheck(doc) matches Some(h) && {
            &&& h.test == test
            &&& hc.get_u64("Interval"@) matches Some(n) ==> h.interval == n
            &&& hc.get_u64("Interval"@) is None ==> h.interval == 30_000_000_000
            &&& hc.get_u64("Timeout"@) matches Some(n) ==> h.timeout == n
            &&& hc.get_u64("Timeout"@) is None ==> h.timeout == 30_000_000_000
            &&& hc.get_u64("StartPeriod"@) matches Some(n) ==> h.start_period == n
            &&& hc.get_u64("StartPeriod"@) is None ==> h.start_period == 0
        },
{
}

/// An image whose configuration holds no healthcheck, or one without a command,
/// has none.
pub proof fn law_no_healthcheck(
    doc: json::JsonSpec,
    config: json::JsonSpec,
    hc: json::JsonSpec,
    items: Seq<json::JsonSpec>,
)
    ensures
        doc.get("config"@) is None ==> healthcheck(doc) is None,
        doc.get("config"@) == Some(config) && config.get("Healthcheck"@) is None ==> healthcheck(
            doc,
        ) is None,
        doc.get("config"@) == Some(config) && config.get("Healthcheck"@) == Some(hc) && !(hc.get(
            "Test"@,
        ) matches Some(json::JsonSpec::Array(_))) ==> healthcheck(doc) is None,
        doc.get("config"@) == Some(config) && config.get("Healthcheck"@) == Some(hc) && hc.get(
            "Test"@,
        ) == Some(json::JsonSpec::Array(items)) && check_command(strings_of(items)) is None
            ==> healthcheck(doc) is None,
{
}

/// The words of a check are all strings of the array, in order.
pub proof fn law_strings_of(items: Seq<json::JsonSpec>, item: json::JsonSpec)
    ensures
        strings_of(Seq::empty()) == Seq::<Seq<char>>::empty(),
        item matches json::JsonSpec::Str(s) ==> strings_of(items.push(item)) == strings_of(
            items,
        ).push(s),
        item !is Str ==> strings_of(items.push(item)) == strings_of(items),
{
    assert(items.push(item).drop_last() =~= items);
}

fn collect_strings(items: &Vec<Json>) -> (out: Vec<String>)
    ensures
        text::texts(out@) == strings_of(Seq::new(items@.len(), |i: int| items@[i]@)),
{
    let ghost views = Seq::new(items@.len(), |i: int| items@[i]@);
    let mut out: Vec<String> = Vec::new();
    let n: usize = items.len();
    assert(views.take(0) =~= Seq::<json::JsonSpec>::empty());
    assert(text::texts(out@) =~= Seq::<Seq<char>>::empty());
    for i in 0..n
        invariant
            n == items@.len(),
            views == Seq::new(items@.len(), |i: int| items@[i]@),
            text::texts(out@) == strings_of(views.take(i as int)),
    {
        assert(views.take(i + 1).drop_last() =~= views.take(i as int));
        assert(views.take(i + 1).last() == items@[i as int]@);
        if let Some(s) = items[i].as_str() {
            let copy = s.clone();
            proof {
                text::lemma_texts_push(out@, copy);
            }
            out.push(copy);
        }
    }
    assert(views.take(n as int) =~= views);
    out
}

fn unwrap_command(test: Vec<String>) -> (out: Option<Vec<String>>)
    ensures
        match out {
            Some(args) => check_command(text::texts(test@)) == Some(text::texts(args@)),
            None => check_command(text::texts(test@)) is None,
        },
{
    let ghost words = text::texts(test@);
    assert(words.len() == test@.len());
    if test.len() == 0 {
        return None;
    }
    assert(words[0] == test@[0]@);
    if text::str_eq(test[0].as_str(), "NONE") {
        return None;
    }
    if text::str_eq(test[0].as_str(), "CMD") {
        if test.len() == 1 {
            return None;
        }
        let mut rest = test;
        let _prefix = rest.remove(0);
        assert(text::texts(rest@) =~= words.skip(1));
        return Some(rest);
    }
    if text::str_eq(test[0].as_str(), "CMD-SHELL") {
        if test.len() < 2 {
            return None;
        }
        let mut args: Vec<String> = Vec::new();
        args.push(String::from_str("/bin/sh"));
        args.push(String::from_str("-c"));
        args.push(test[1].clone());
        assert(words[1] == test@[1]@);
        assert(text::texts(args@) =~= seq!["/bin/sh"@, "-c"@, words[1]]);
        return Some(args);
    }
    Some(test)
}

fn time_or(hc: &Json, key: &str, default: Duration) -> (d: Duration)
    ensures
        d.nanos() == check_time(hc@, key@, default.nanos()),
{
    match hc.get_u64(key) {
        Some(n) => Duration::from_nanos(n),
        None => default,
    }
}

/// The healthcheck in a parsed image configuration.
pub fn find_healthcheck(doc: &Json) -> (out: Option<HealthCheck>)
    ensures
        match out {
            Some(hc) => healthcheck(doc@) == Some(hc@),
            None => healthcheck(doc@) is None,
        },
{
    let hc = match doc.get("config") {
        Some(config) => match config.get("Healthcheck") {
            Some(hc) => hc,
            None => {
                return None;
            },
        },
        None => {
            return None;
        },
    };
    match hc.get("Test") {
        Some(Json::Array(items)) => {
            assert(Seq::new(items@.len(), |i: int| items@[i]@) =~= hc@.get("Test"@)->0->Array_0);
            match unwrap_command(collect_strings(items)) {
                Some(test) => Some(
                    HealthCheck {
                        test,
                        interval: time_or(
                            hc,
                            "Interval",
                            Duration::from_secs(DEFAULT_HC_INTERVAL_SECS),
                        ),
                        timeout: time_or(
                            hc,
                            "Timeout",
                            Duration::from_secs(DEFAULT_HC_TIMEOUT_SECS),
                        ),
                        start_period: time_or(hc, "StartPeriod", Duration::from_secs(0)),
                    },
                ),
                None => None,
            }
        },
        _ => None,
    }
}

/// Docker stores the healthcheck under `config.Healthcheck` with fields
/// `Test`, `Interval`, `Timeout`, `Retries`, `StartPeriod` (times in ns).
/// Returns `None` if absent or `Test == ["NONE"]`.
pub fn parse_healthcheck(raw_config: &[u8]) -> (out: Option<HealthCheck>)
    ensures
        match json::document(raw_config@) {
            Ok(doc) => match out {
                Some(hc) => healthcheck(doc) == Some(hc@),
                None => healthcheck(doc) is None,
            },
            Err(_) => out is None,
        },
{
    match json::parse_json(raw_config) {
        Ok(doc) => find_healthcheck(&doc),
        Err(_) => None,
    }
}

/// How often, how long and from when on a check is run.
#[derive(Debug, Clone, Copy, PartialEq, Eq, Structural)]
pub struct PollTiming {
    pub initial_interval: Duration,
    pub start_period: Duration,
    pub check_timeout: Option<Duration>,
    pub use_backoff: bool,
}

impl PollTiming {
    /// Whether this is the timing of a check that brings none of its own.
    pub open spec fn is_default(self) -> bool {
        &&& self.initial_interval.nanos() == INITIAL_INTERVAL_MS * NANOS_PER_MILLI
        &&& self.start_period.nanos() == 0
        &&& self.check_timeout is None
        &&& self.use_backoff
    }
}

impl Default for PollTiming {
    fn default() -> (t: Self)
        ensures
            t.is_default(),
    {
        PollTiming {
            initial_interval: Duration::from_millis(INITIAL_INTERVAL_MS),
            start_period: Duration::from_secs(0),
            check_timeout: None,
            use_backoff: true,
        }
    }
}

/// `ReadinessStrategy` after `ImageHealthcheck` has been resolved.
#[derive(Debug)]
pub enum ResolvedCheck {
    ProcessRunning,
    TcpPort(u16),
    Exec(Vec<String>),
}

/// Whether `check` and `timing` are what a strategy comes down to, given the
/// healthcheck of the image.
pub open spec fn resolves(
    strategy: ReadinessStrategy,
    hc: Option<HealthCheckSpec>,
    check: ResolvedCheck,
    timing: PollTiming,
) -> bool {
    match strategy {
        ReadinessStrategy::ProcessRunning => check is ProcessRunning && timing.is_default(),
        ReadinessStrategy::TcpPort(p) => check == ResolvedCheck::TcpPort(p) && timing.is_default(),
        ReadinessStrategy::Exec(cmd) => check matches ResolvedCheck::Exec(args) && text::texts(
            args@,
        ) == text::texts(cmd@) && timing.is_default(),
        ReadinessStrategy::ImageHealthcheck => match hc {
            Some(h) => {
                &&& check matches ResolvedCheck::Exec(args) && text::texts(args@) == h.test
                &&& timing.initial_interval.nanos() == h.interval
                &&& timing.start_period.nanos() == h.start_period
                &&& timing.check_timeout matches Some(t) && t.nanos() == h.timeout
                &&& !timing.use_backoff
            },
            None => check is ProcessRunning && timing.is_default(),
        },
    }
}

/// A strategy of the caller's runs its own check with backoff from 100 ms on;
/// the image's healthcheck runs its command at its own times without backoff,
/// and where the image has none, the process just has to run.
pub proof fn law_strategies(
    hc: Option<HealthCheckSpec>,
    port: u16,
    cmd: Vec<String>,
    check: ResolvedCheck,
    timing: PollTiming,
)
    ensures
        ({
            let plain = timing.use_backoff && timing.initial_interval.nanos() == 100_000_000
                && timing.start_period.nanos() == 0 && timing.check_timeout is None;
            &&& resolves(ReadinessStrategy::ProcessRunning, hc, check, timing) <==> check
                is ProcessRunning && plain
            &&& resolves(ReadinessStrategy::TcpPort(port), hc, check, timing) <==> check
                == ResolvedCheck::TcpPort(port) && plain
            &&& resolves(ReadinessStrategy::Exec(cmd), hc, check, timing) ==> plain && (check
                matches ResolvedCheck::Exec(args) && text::texts(args@) == text::texts(cmd@))
            &&& hc is None ==> (resolves(ReadinessStrategy::ImageHealthcheck, hc, check, timing)
                <==> check is ProcessRunning && plain)
            &&& hc matches Some(h) ==> (resolves(
                ReadinessStrategy::ImageHealthcheck,
                hc,
                check,
                timing,
            ) ==> (check matches ResolvedCheck::Exec(args) && text::texts(args@) == h.test) && (
            timing.check_timeout matches Some(t) && t.nanos() == h.timeout)
                && timing.initial_interval.nanos() == h.interval && timing.start_period.nanos()
                == h.start_period && !timing.use_backoff)
        }),
{
}

/// For `ImageHealthcheck`, converts the image's HEALTHCHECK to an exec check
/// with Docker's interval/timeout/start-period. Falls back to `ProcessRunning`
/// if no HEALTHCHECK is defined.
pub fn resolve_strategy(strategy: &ReadinessStrategy, hc: Option<HealthCheck>) -> (out: (
    ResolvedCheck,
    PollTiming,
))
    ensures
        resolves(
            *strategy,
            match hc {
                Some(h) => Some(h@),
                None => None,
            },
            out.0,
            out.1,
        ),
{
    match strategy {
        ReadinessStrategy::ProcessRunning => (
            ResolvedCheck::ProcessRunning,
            PollTiming::default(),
        ),
        ReadinessStrategy::TcpPort(p) => (ResolvedCheck::TcpPort(*p), PollTiming::default()),
        ReadinessStrategy::Exec(cmd) => (
            ResolvedCheck::Exec(text::clone_strings(cmd)),
            PollTiming::default(),
        ),
        ReadinessStrategy::ImageHealthcheck => match hc {
            Some(h) => (
                ResolvedCheck::Exec(h.test),
                PollTiming {
                    initial_interval: h.interval,
                    start_period: h.start_period,
                    check_timeout: Some(h.timeout),
                    use_backoff: false,
                },
            ),
            None => (ResolvedCheck::ProcessRunning, PollTiming::default()),
        },
    }
}

/// What a look at the task decides.
#[derive(Debug)]
pub enum Look {
    /// The task runs: run the check.
    RunCheck,
    /// Neither running nor over: look again later.
    NotYet,
    Failed(Error),
}

/// Decides what a look at the task of a container means for waiting.
pub fn look_at_task(container_id: &str, task: &Option<TaskInfo>) -> (look: Look)
    ensures
        match *task {
            None => look matches Look::Failed(e) && e@ == ErrorSpec::TaskNotFound(container_id@),
            Some(t) => match t.status {
                TaskStatus::Stopped => look matches Look::Failed(e) && e@ == ErrorSpec::TaskExited(
                    container_id@,
                ),
                TaskStatus::Running => look is RunCheck,
                _ => look is NotYet,
            },
        },
{
    match task {
        None => Look::Failed(Error::TaskNotFound(String::from_str(container_id))),
        Some(t) => match t.status {
            TaskStatus::Stopped => Look::Failed(Error::TaskExited(String::from_str(container_id))),
            TaskStatus::Running => Look::RunCheck,
            _ => Look::NotYet,
        },
    }
}

/// The interval after `interval`: twice as long, up to the maximum.
pub open spec fn backed_off(interval: nat) -> nat {
    if 2 * interval <= MAX_INTERVAL_SECS * NANOS_PER_SEC {
        2 * interval
    } else {
        (MAX_INTERVAL_SECS * NANOS_PER_SEC) as nat
    }
}

pub fn next_interval(interval: Duration) -> (next: Duration)
    ensures
        next.nanos() == backed_off(interval.nanos()),
{
    interval.double().min(&Duration::from_secs(MAX_INTERVAL_SECS))
}

/// What follows a round that did not find the container ready: the error if
/// the time is up, else the interval to sleep now and the one for the next
/// round.
fn after_round(
    container_id: &str,
    elapsed: Duration,
    timeout: Duration,
    interval: Duration,
    use_backoff: bool,
) -> (out: Result<(Duration, Duration)>)
    ensures
        match out {
            Ok((sleep, next)) => {
                &&& elapsed.nanos() <= timeout.nanos()
                &&& sleep == interval
                &&& next.nanos() == if use_backoff {
                    backed_off(interval.nanos())
                } else {
                    interval.nanos()
                }
            },
            Err(e) => elapsed.nanos() > timeout.nanos() && e@ == ErrorSpec::Timeout(
                "container "@ + container_id@ + " did not become ready within "@ + timeout.shown(),
            ),
        },
{
    if elapsed.exceeds(&timeout) {
        let mut message = String::from_str("container ");
        message.append(container_id);
        message.append(" did not become ready within ");
        message.append(timeout.show().as_str());
        return Err(Error::Timeout(message));
    }
    let next = if use_backoff {
        next_interval(interval)
    } else {
        interval
    };
    Ok((interval, next))
}

/// What follows one round of waiting for a container to become ready.
#[derive(Debug)]
pub enum ReadyRound {
    Ready,
    Failed(Error),
    /// Sleep for `now`; after the next round, for `next`.
    Sleep { now: Duration, next: Duration },
}

/// One round of waiting for a container to become ready, from a look at its
/// task and, if that runs, from whether its check passed. The deadline is
/// looked at only behind the check.
pub fn wait_ready(
    container_id: &str,
    task: &Option<TaskInfo>,
    check_ok: bool,
    elapsed: Duration,
    timeout: Duration,
    interval: Duration,
    use_backoff: bool,
) -> (round: ReadyRound)
    ensures
        match *task {
            None => round matches ReadyRound::Failed(e) && e@ == ErrorSpec::TaskNotFound(container_id@),
            Some(t) => if t.status == TaskStatus::Stopped {
                round matches ReadyRound::Failed(e) && e@ == ErrorSpec::TaskExited(container_id@)
            } else if t.status == TaskStatus::Running && check_ok {
                round is Ready
            } else if elapsed.nanos() > timeout.nanos() {
                round matches ReadyRound::Failed(e) && e@ == ErrorSpec::Timeout(
                    "container "@ + container_id@ + " did not become ready within "@
                        + timeout.shown(),
                )
            } else {
                round matches ReadyRound::Sleep { now, next } && now == interval && next.nanos()
                    == if use_backoff {
                    backed_off(interval.nanos())
                } else {
                    interval.nanos()
                }
            },
        },
{
    match look_at_task(container_id, task) {
        Look::Failed(e) => {
            return ReadyRound::Failed(e);
        },
        Look::RunCheck => {
            if check_ok {
                return ReadyRound::Ready;
            }
        },
        Look::NotYet => {},
    }
    match after_round(container_id, elapsed, timeout, interval, use_backoff) {
        Ok((now, next)) => ReadyRound::Sleep { now, next },
        Err(e) => ReadyRound::Failed(e),
    }
}

/// With backoff the interval doubles up to two seconds; without, it stays.
pub proof fn law_backoff_doubles(interval: nat)
    ensures
        2 * interval <= 2_000_000_000 ==> backed_off(interval) == 2 * interval,
        2 * interval > 2_000_000_000 ==> backed_off(interval) == 2_000_000_000,
{
}

/// Intervals never shrink while they are below the maximum, and never exceed
/// it.
pub proof fn law_backoff(interval: nat)
    requires
        interval <= MAX_INTERVAL_SECS * NANOS_PER_SEC,
    ensures
        interval <= backed_off(interval) <= MAX_INTERVAL_SECS * NANOS_PER_SEC,
{
}

/// Whether an exec check passed: it ran in time and exited with 0. `None`
/// stands for one that ran out of time.
pub open spec fn passed(ran: Option<Result<ExecOutput>>) -> bool {
    ran matches Some(Ok(out)) && out.exit_code == 0
}

pub fn check_passed(ran: &Option<Result<ExecOutput>>) -> (ok: bool)
    ensures
        ok == passed(*ran),
        ok <==> (*ran matches Some(Ok(out)) && out.exit_code == 0),
{
    match ran {
        Some(Ok(out)) => out.exit_code == 0,
        _ => false,
    }
}

/// Whether a check passed on a running task: `connected` says whether the
/// connection for a port check was made, `ran` what came of the command of an
/// exec check.
pub fn run_check(
    check: &ResolvedCheck,
    connected: bool,
    ran: &Option<Result<ExecOutput>>,
) -> (ok: bool)
    ensures
        ok == match *check {
            ResolvedCheck::ProcessRunning => true,
            ResolvedCheck::TcpPort(_) => connected,
            ResolvedCheck::Exec(_) => passed(*ran),
        },
        check is Exec ==> (ok <==> (*ran matches Some(Ok(out)) && out.exit_code == 0)),
{
    match check {
        ResolvedCheck::ProcessRunning => true,
        ResolvedCheck::TcpPort(_) => connected,
        ResolvedCheck::Exec(_) => check_passed(ran),
    }
}

/// The health of a task after one run of its check.
pub open spec fn health(healthy: bool, start_period: nat, uptime: Option<nat>) -> HealthStatus {
    if healthy {
        HealthStatus::Healthy
    } else {
        match uptime {
            Some(t) if start_period > 0 && t < start_period => HealthStatus::Starting,
            _ => HealthStatus::Unhealthy,
        }
    }
}

/// Classifies the outcome of one run of a check. A failure counts as
/// `Starting` inside the grace window; where the uptime is not known (after a
/// restart of the client) it counts as `Unhealthy`.
pub fn classify_health(
    healthy: bool,
    start_period: Duration,
    uptime: Option<Duration>,
) -> (status: HealthStatus)
    ensures
        status == health(
            healthy,
            start_period.nanos(),
            match uptime {
                Some(t) => Some(t.nanos()),
                None => None,
            },
        ),
{
    if healthy {
        return HealthStatus::Healthy;
    }
    if !start_period.is_zero() {
        if let Some(t) = uptime {
            if start_period.exceeds(&t) {
                return HealthStatus::Starting;
            }
        }
    }
    HealthStatus::Unhealthy
}

/// The outcome of a one-shot probe: what the image's healthcheck, run once,
/// says of the task.
pub fn probe_health(
    hc: &Option<HealthCheck>,
    ran: &Option<Result<ExecOutput>>,
    uptime: Option<Duration>,
) -> (status: HealthStatus)
    ensures
        status == match *hc {
            None => HealthStatus::NoHealthcheck,
            Some(h) => health(
                passed(*ran),
                h.start_period.nanos(),
                match uptime {
                    Some(t) => Some(t.nanos()),
                    None => None,
                },
            ),
        },
        status == HealthStatus::NoHealthcheck <==> hc is None,
        status == HealthStatus::Healthy <==> hc is Some && (*ran matches Some(Ok(out))
            && out.exit_code == 0),
        status == HealthStatus::Starting <==> (*hc matches Some(h) && uptime matches Some(t)
            && t.nanos() < h.start_period.nanos() && !(*ran matches Some(Ok(out)) && out.exit_code
            == 0)),
{
    match hc {
        None => HealthStatus::NoHealthcheck,
        Some(h) => classify_health(check_passed(ran), h.start_period, uptime),
    }
}

/// An exec check passes exactly if its command ran to its end in time and
/// exited with 0, whatever it wrote.
pub proof fn law_check_passes_on_zero(out: ExecOutput, e: Error)
    ensures
        passed(Some(Ok(out))) <==> out.exit_code == 0,
        !passed(Some(Err(e))),
        !passed(None),
{
}

/// A probe says `Healthy` exactly if the command of the image's healthcheck
/// exited with 0. A run that failed, in whatever way, inside a grace window
/// that is known to last says `Starting`; any other says `Unhealthy`.
pub proof fn law_probe(
    ran: Option<Result<ExecOutput>>,
    start_period: nat,
    uptime: Option<nat>,
)
    ensures
        ({
            let status = health(passed(ran), start_period, uptime);
            let zero = ran matches Some(Ok(out)) && out.exit_code == 0;
            let in_grace = uptime matches Some(t) && t < start_period;
            &&& status == HealthStatus::Healthy <==> zero
            &&& status == HealthStatus::Starting <==> !zero && in_grace
            &&& status == HealthStatus::Unhealthy <==> !zero && !in_grace
        }),
{
}

/// Outside the grace window a task is healthy exactly if its check passes, and
/// a failing check never counts as healthy.
pub proof fn law_health(healthy: bool, start_period: nat, uptime: Option<nat>)
    ensures
        health(healthy, start_period, uptime) == HealthStatus::Healthy <==> healthy,
        (uptime matches Some(t) && t >= start_period) && !healthy ==> health(
            healthy,
            start_period,
            uptime,
        ) == HealthStatus::Unhealthy,
{
}

} // verus!
