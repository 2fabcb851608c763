//! The decisions around the network calls: retrying a fetch, probing the logon server,
//! and putting the fetched pages together.
use vstd::prelude::*;
use crate::statistics::{
    page_statistics, parse_statistics_from_html, statistics_view, RealmStatistics, StatisticsView,
};
use crate::status::{page_statuses, parse_warmane_status_html, statuses_view, RealmStatus};
use crate::text::{chars_of, decimal, push_all, push_decimal, string_from};

verus! {

/// How many times a page is asked for before giving up.
pub const FETCH_ATTEMPTS: u64 = 2;

/// What came of sending a request.
#[derive(Debug, Clone, Copy, PartialEq, Eq, Structural)]
pub enum FetchEvent {
    /// A response came back.
    Responded,
    /// The request could not be sent or answered.
    SendFailed,
}

/// What to do next while fetching a page.
#[derive(Debug, Clone, Copy, PartialEq, Eq, Structural)]
pub enum FetchStep {
    /// Read the response's body: its text, or its error, is the result.
    ReadBody,
    /// Wait `secs` seconds, then send attempt `next_attempt`.
    Retry { secs: u64, next_attempt: u64 },
    /// Wait `secs` seconds, then fail with the last error.
    GiveUp { secs: u64 },
}

/// What to do after attempt `attempt` (counted from 1): on a response, read it; on a failure,
/// wait as many seconds as the attempt's number, then try again or, after the last attempt,
/// give up.
pub fn fetch_step(attempt: u64, event: FetchEvent) -> (r: FetchStep)
    requires
        1 <= attempt <= FETCH_ATTEMPTS,
    ensures
        r == match event {
            FetchEvent::Responded => FetchStep::ReadBody,
            FetchEvent::SendFailed => if attempt < FETCH_ATTEMPTS {
                FetchStep::Retry { secs: attempt, next_attempt: (attempt + 1) as u64 }
            } else {
                FetchStep::GiveUp { secs: attempt }
            },
        },
{
    match event {
        FetchEvent::Responded => FetchStep::ReadBody,
        FetchEvent::SendFailed => if attempt < FETCH_ATTEMPTS {
            FetchStep::Retry { secs: attempt, next_attempt: attempt + 1 }
        } else {
            FetchStep::GiveUp { secs: attempt }
        },
    }
}

/// How long a connection to the logon server may take, in seconds.
pub const CONNECT_TIMEOUT_SECS: u64 = 2;

/// What came of a step of the reachability probe.
#[derive(Debug, Clone, Copy, PartialEq, Eq, Structural)]
pub enum ReachEvent {
    /// The TCP connection was made.
    Connected,
    /// The TCP connection was refused or failed.
    ConnectFailed,
    /// The TCP connection did not come in time.
    ConnectTimedOut,
    /// The `ping` command ran and exited, successfully or not.
    PingExited(bool),
    /// The `ping` command could not be run.
    PingNotRun,
}

/// What to do next while probing the logon server.
pub enum ReachStep {
    /// Open a TCP connection to `address`, waiting at most `timeout_secs` seconds.
    Connect { address: String, timeout_secs: u64 },
    /// Run `program` with `args`, its output discarded, and report how it exited.
    Ping { program: String, args: Vec<String> },
    /// The answer: whether the server is reachable.
    Done(bool),
}

/// Texts as plain values.
pub open spec fn strings_view(v: Seq<String>) -> Seq<Seq<char>> {
    v.map_values(|s: String| s@)
}

/// `ip:port`.
pub open spec fn socket_address(ip: Seq<char>, port: u16) -> Seq<char> {
    ip + ":"@ + decimal(port as nat)
}

/// The arguments of a single ping with a one-second timeout: `-n 1 -w 1000 <ip>` on Windows,
/// `-c 1 -W 1 <ip>` elsewhere.
pub open spec fn ping_args(ip: Seq<char>, windows: bool) -> Seq<Seq<char>> {
    if windows {
        seq!["-n"@, "1"@, "-w"@, "1000"@, ip]
    } else {
        seq!["-c"@, "1"@, "-W"@, "1"@, ip]
    }
}

/// `ip:port` (`format!("{}:{}", ip, port)`).
pub fn socket_address_exec(ip: &str, port: u16) -> (r: String)
    ensures
        r@ == socket_address(ip@, port),
{
    let mut v = chars_of(ip);
    push_all(&mut v, &chars_of(":"));
    push_decimal(&mut v, port as u64);
    string_from(&v)
}

/// The first step of the probe: connect to `ip:port`.
pub fn reach_start(ip: &str, port: u16) -> (r: ReachStep)
    ensures
        r matches ReachStep::Connect { address, timeout_secs } && address@ == socket_address(
            ip@,
            port,
        ) && timeout_secs == CONNECT_TIMEOUT_SECS && timeout_secs == 2,
{
    ReachStep::Connect { address: socket_address_exec(ip, port), timeout_secs: CONNECT_TIMEOUT_SECS }
}

/// The next step of the probe of `ip`: a connection answers `true`; a failed or late one
/// falls back to one `ping`, whose success is the answer; a `ping` that cannot be run
/// answers `false`.
pub fn reach_step(ip: &str, windows: bool, event: ReachEvent) -> (r: ReachStep)
    ensures
        match event {
            ReachEvent::Connected => r == ReachStep::Done(true),
            ReachEvent::ConnectFailed | ReachEvent::ConnectTimedOut => r matches ReachStep::Ping {
                program,
                args,
            } && program@ == "ping"@ && strings_view(args@) == ping_args(ip@, windows),
            ReachEvent::PingExited(ok) => r == ReachStep::Done(ok),
            ReachEvent::PingNotRun => r == ReachStep::Done(false),
        },
{
    match event {
        ReachEvent::Connected => ReachStep::Done(true),
        ReachEvent::ConnectFailed | ReachEvent::ConnectTimedOut => {
            let mut args: Vec<String> = Vec::new();
            if windows {
                args.push(string_from(&chars_of("-n")));
                args.push(string_from(&chars_of("1")));
                args.push(string_from(&chars_of("-w")));
                args.push(string_from(&chars_of("1000")));
            } else {
                args.push(string_from(&chars_of("-c")));
                args.push(string_from(&chars_of("1")));
                args.push(string_from(&chars_of("-W")));
                args.push(string_from(&chars_of("1")));
            }
            args.push(string_from(&chars_of(ip)));
            assert(strings_view(args@) =~= ping_args(ip@, windows));
            ReachStep::Ping { program: string_from(&chars_of("ping")), args }
        },
        ReachEvent::PingExited(ok) => ReachStep::Done(ok),
        ReachEvent::PingNotRun => ReachStep::Done(false),
    }
}


/// The statuses of the front page `status_html`, with the statistics of the information page
/// `info_html` when it was fetched and reads (none otherwise); it fails when the front page
/// does not read.
pub fn status_and_uptime_from_pages(status_html: &str, info_html: Option<&str>) -> (r: Result<
    (Vec<RealmStatus>, Vec<RealmStatistics>),
    String,
>)
    ensures
        match r {
            Ok((st, stats)) => {
                &&& page_statuses(status_html@) == Some(statuses_view(st@))
                &&& statistics_view(stats@) == match info_html {
                    Some(h) => match page_statistics(h@) {
                        Some(s) => s,
                        None => Seq::<StatisticsView>::empty(),
                    },
                    None => Seq::<StatisticsView>::empty(),
                }
            },
            Err(_) => page_statuses(status_html@) is None,
        },
{
    let (statuses, _) = parse_warmane_status_html(status_html)?;
    let stats = match info_html {
        Some(h) => match parse_statistics_from_html(h) {
            Ok(s) => s,
            Err(_) => Vec::new(),
        },
        None => Vec::new(),
    };
    assert(statistics_view(stats@) =~= match info_html {
        Some(h) => match page_statistics(h@) {
            Some(s) => s,
            None => Seq::<StatisticsView>::empty(),
        },
        None => Seq::<StatisticsView>::empty(),
    });
    Ok((statuses, stats))
}

} // verus!
