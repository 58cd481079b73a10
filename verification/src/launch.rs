//! How the command-line front end starts a cluster: the addresses it uses,
//! the ports it hands out and the argument lists of the coordinator and
//! worker processes.

use vstd::prelude::*;
use vstd::string::*;
use crate::observability::views;
use crate::text::{decimal, parse_unsigned, str_chars, u64_to_decimal};
use std::num::ParseIntError;

verus! {

/// The port of the coordinator's worker-facing service.
pub const COORDINATOR_PORT: u16 = 5000;

/// The port of a session's HTTP API, apart from the worker ports.
pub const SESSION_HTTP_PORT: u16 = 5100;

/// The flag that passes the verbose level on: none at level 0.
pub open spec fn verbose_flag(verbose: u8) -> Seq<Seq<char>> {
    if verbose >= 2 {
        seq!["--verbose=2"@]
    } else if verbose >= 1 {
        seq!["--verbose"@]
    } else {
        Seq::empty()
    }
}

/// The port that worker `index` listens on: the one after the
/// coordinator's, counting the index modulo 2^16 as a `u16` does.
pub open spec fn worker_port(index: usize) -> int {
    COORDINATOR_PORT + 1 + index as int % 65536
}

/// `host:port`.
pub fn host_port(host: &str, port: u16) -> (r: String)
    ensures
        r@ == host@ + ":"@ + decimal(port as nat),
{
    let mut s = String::from_str(host);
    s.append(":");
    let p = u64_to_decimal(port as u64);
    s.append(p.as_str());
    s
}

/// The base URL of a session's HTTP API on `host`.
pub fn session_url(host: &str) -> (r: String)
    ensures
        r@ == "http://"@ + host@ + ":"@ + decimal(SESSION_HTTP_PORT as nat),
{
    let mut s = String::from_str("http://");
    let hp = host_port(host, SESSION_HTTP_PORT);
    s.append(hp.as_str());
    s
}

/// `s` without its trailing slashes.
pub open spec fn trim_slashes(s: Seq<char>) -> Seq<char>
    decreases s.len(),
{
    if s.len() > 0 && s.last() == '/' {
        trim_slashes(s.drop_last())
    } else {
        s
    }
}

/// The job-submission endpoint of a session: its URL without trailing
/// slashes, then `/jobs`.
pub fn jobs_url(session: &str) -> (r: String)
    ensures
        r@ == trim_slashes(session@) + "/jobs"@,
{
    let n = session.unicode_len();
    let mut k = n;
    proof {
        reveal_strlit("/");
    }
    assert(session@.take(n as int) =~= session@);
    while k > 0 && session.get_char(k - 1) == '/'
        invariant
            k <= n,
            n == session@.len(),
            trim_slashes(session@.take(k as int)) == trim_slashes(session@),
        decreases k,
    {
        proof {
            assert(session@.take(k as int).drop_last() =~= session@.take(k - 1));
        }
        k -= 1;
    }
    let kept = session.substring_char(0, k);
    assert(session@.take(k as int) =~= session@.subrange(0, k as int));
    let mut s = String::from_str(kept);
    s.append("/jobs");
    s
}

/// The port that worker `index` listens on. The port is a `u16`: the index
/// counts modulo 2^16 and the sum must stay within range.
pub fn listen_port(index: usize) -> (r: u16)
    requires
        worker_port(index) <= u16::MAX,
    ensures
        r == worker_port(index),
{
    let i: u16 = (index % 65536) as u16;
    COORDINATOR_PORT + 1 + i
}

/// The metrics port of worker `index`: the base plus the index, which must
/// stay within range.
pub fn metrics_port(base: u16, index: usize) -> (r: u16)
    requires
        base + index as int % 65536 <= u16::MAX,
    ensures
        r == base + index as int % 65536,
{
    let i: u16 = (index % 65536) as u16;
    base + i
}

fn push_str(v: &mut Vec<String>, s: &str)
    ensures
        views(final(v)@) == views(old(v)@).push(s@),
{
    let ghost before = v@;
    v.push(String::from_str(s));
    assert(views(v@) =~= views(before).push(s@));
}

fn push_verbose(v: &mut Vec<String>, verbose: u8)
    ensures
        views(final(v)@) == views(old(v)@) + verbose_flag(verbose),
{
    if verbose >= 2 {
        push_str(v, "--verbose=2");
    } else if verbose >= 1 {
        push_str(v, "--verbose");
    }
    assert(views(v@) =~= views(old(v)@) + verbose_flag(verbose));
}

/// The coordinator's arguments: its address, the worker count, the HTTP
/// port when it serves sessions, and the verbose flag.
pub fn coordinator_args(addr: &str, workers: usize, http_port: Option<u16>, verbose: u8) -> (r: Vec<String>)
    ensures
        views(r@) == seq![addr@, decimal(workers as nat)] + (match http_port {
            Some(p) => seq!["--http-port"@, decimal(p as nat)],
            None => Seq::empty(),
        }) + verbose_flag(verbose),
{
    let mut v: Vec<String> = Vec::new();
    push_str(&mut v, addr);
    let w = u64_to_decimal(workers as u64);
    push_str(&mut v, w.as_str());
    let ghost base = views(v@);
    if let Some(p) = http_port {
        push_str(&mut v, "--http-port");
        let ps = u64_to_decimal(p as u64);
        push_str(&mut v, ps.as_str());
    }
    push_verbose(&mut v, verbose);
    assert(base =~= seq![addr@, decimal(workers as nat)]);
    v
}

/// The arguments that start worker `index` of a session: its id, the
/// coordinator, the graph, the worker count, its port, session mode, the
/// transport, its metrics port when metrics are on, and the verbose flag.
pub fn session_worker_args(
    index: usize,
    coordinator: &str,
    graph: &str,
    workers: usize,
    transport: &str,
    metrics_base: Option<u16>,
    verbose: u8,
) -> (r: Vec<String>)
    requires
        worker_port(index) <= u16::MAX,
        metrics_base matches Some(b) ==> b + index as int % 65536 <= u16::MAX,
    ensures
        views(r@) == seq![
            decimal(index as nat),
            coordinator@,
            graph@,
            decimal(workers as nat),
            decimal(worker_port(index) as nat),
            "--session"@,
            "--transport"@,
            transport@,
        ] + (match metrics_base {
            Some(b) => seq!["--metrics-port"@, decimal((b + index as int % 65536) as nat)],
            None => Seq::empty(),
        }) + verbose_flag(verbose),
{
    let mut v: Vec<String> = Vec::new();
    let id = u64_to_decimal(index as u64);
    push_str(&mut v, id.as_str());
    push_str(&mut v, coordinator);
    push_str(&mut v, graph);
    let w = u64_to_decimal(workers as u64);
    push_str(&mut v, w.as_str());
    let port = u64_to_decimal(listen_port(index) as u64);
    push_str(&mut v, port.as_str());
    push_str(&mut v, "--session");
    push_str(&mut v, "--transport");
    push_str(&mut v, transport);
    let ghost base = views(v@);
    if let Some(b) = metrics_base {
        push_str(&mut v, "--metrics-port");
        let m = u64_to_decimal(metrics_port(b, index) as u64);
        push_str(&mut v, m.as_str());
    }
    push_verbose(&mut v, verbose);
    assert(base =~= seq![
        decimal(index as nat),
        coordinator@,
        graph@,
        decimal(workers as nat),
        decimal(worker_port(index) as nat),
        "--session"@,
        "--transport"@,
        transport@,
    ]);
    v
}

/// The arguments that start worker `index` for a single job: its id, the
/// coordinator, the graph, the worker count, its port, the algorithm, the
/// transport, then the program, the checkpoint directory and the metrics
/// port when given, and the verbose flag.
pub fn submit_worker_args(
    index: usize,
    coordinator: &str,
    graph: &str,
    workers: usize,
    algo: &str,
    transport: &str,
    program: Option<&str>,
    checkpoint_dir: Option<&str>,
    metrics_base: Option<u16>,
    verbose: u8,
) -> (r: Vec<String>)
    requires
        worker_port(index) <= u16::MAX,
        metrics_base matches Some(b) ==> b + index as int % 65536 <= u16::MAX,
    ensures
        views(r@) == seq![
            decimal(index as nat),
            coordinator@,
            graph@,
            decimal(workers as nat),
            decimal(worker_port(index) as nat),
            "--algo"@,
            algo@,
            "--transport"@,
            transport@,
        ] + (match program {
            Some(p) => seq!["--program"@, p@],
            None => Seq::empty(),
        }) + (match checkpoint_dir {
            Some(d) => seq!["--checkpoint-dir"@, d@],
            None => Seq::empty(),
        }) + (match metrics_base {
            Some(b) => seq!["--metrics-port"@, decimal((b + index as int % 65536) as nat)],
            None => Seq::empty(),
        }) + verbose_flag(verbose),
{
    let mut v: Vec<String> = Vec::new();
    let id = u64_to_decimal(index as u64);
    push_str(&mut v, id.as_str());
    push_str(&mut v, coordinator);
    push_str(&mut v, graph);
    let w = u64_to_decimal(workers as u64);
    push_str(&mut v, w.as_str());
    let port = u64_to_decimal(listen_port(index) as u64);
    push_str(&mut v, port.as_str());
    push_str(&mut v, "--algo");
    push_str(&mut v, algo);
    push_str(&mut v, "--transport");
    push_str(&mut v, transport);
    let ghost s0 = views(v@);
    if let Some(p) = program {
        push_str(&mut v, "--program");
        push_str(&mut v, p);
    }
    let ghost s1 = views(v@);
    if let Some(d) = checkpoint_dir {
        push_str(&mut v, "--checkpoint-dir");
        push_str(&mut v, d);
    }
    let ghost s2 = views(v@);
    if let Some(b) = metrics_base {
        push_str(&mut v, "--metrics-port");
        let m = u64_to_decimal(metrics_port(b, index) as u64);
        push_str(&mut v, m.as_str());
    }
    let ghost s3 = views(v@);
    push_verbose(&mut v, verbose);
    proof {
        assert(s0 =~= seq![
            decimal(index as nat),
            coordinator@,
            graph@,
            decimal(workers as nat),
            decimal(worker_port(index) as nat),
            "--algo"@,
            algo@,
            "--transport"@,
            transport@,
        ]);
        let pm = match program {
            Some(p) => seq!["--program"@, p@],
            None => Seq::<Seq<char>>::empty(),
        };
        let cm = match checkpoint_dir {
            Some(d) => seq!["--checkpoint-dir"@, d@],
            None => Seq::<Seq<char>>::empty(),
        };
        let mm = match metrics_base {
            Some(b) => seq!["--metrics-port"@, decimal((b + index as int % 65536) as nat)],
            None => Seq::<Seq<char>>::empty(),
        };
        assert(s1 =~= s0 + pm);
        assert(s2 =~= s0 + pm + cm);
        assert(s3 =~= s0 + pm + cm + mm);
    }
    v
}

#[verifier::external_type_specification]
#[verifier::external_body]
pub struct ExParseIntError(ParseIntError);

/// `str::parse::<u64>`. Its documentation: an optional `+` followed by
/// ASCII digits only, and the value must fit; anything else is an error.
#[verifier::external_body]
fn parse_u64(s: &str) -> (r: Result<u64, ParseIntError>)
    ensures
        r is Ok <==> parse_unsigned(s@, u64::MAX) is Some,
        r matches Ok(v) ==> parse_unsigned(s@, u64::MAX) == Some(v),
{
    s.parse::<u64>()
}

/// `str::parse::<usize>`, with the same syntax as for `u64`.
#[verifier::external_body]
fn parse_usize(s: &str) -> (r: Result<usize, ParseIntError>)
    ensures
        r is Ok <==> parse_unsigned(s@, usize::MAX as u64) is Some,
        r matches Ok(v) ==> parse_unsigned(s@, usize::MAX as u64) == Some(v as u64),
{
    s.parse::<usize>()
}

/// `str::parse::<u16>`, with the same syntax as for `u64`.
#[verifier::external_body]
fn parse_u16(s: &str) -> (r: Result<u16, ParseIntError>)
    ensures
        r is Ok <==> parse_unsigned(s@, u16::MAX as u64) is Some,
        r matches Ok(v) ==> parse_unsigned(s@, u16::MAX as u64) == Some(v as u64),
{
    s.parse::<u16>()
}

fn same_text(a: &str, b: &str) -> (r: bool)
    ensures
        r == (a@ == b@),
{
    let x = str_chars(a);
    let y = str_chars(b);
    if x.len() != y.len() {
        return false;
    }
    for i in 0..x.len()
        invariant
            x@ == a@,
            y@ == b@,
            x@.len() == y@.len(),
            forall|j: int| 0 <= j < i ==> x@[j] == y@[j],
    {
        if x[i] != y[i] {
            return false;
        }
    }
    assert(a@ =~= b@);
    true
}

/// The coordinator's settings besides its address.
#[derive(Debug, Clone, PartialEq, Eq)]
pub struct CoordinatorOptions {
    pub worker_count: usize,
    pub verbose: bool,
    pub http_port: Option<u16>,
    pub worker_timeout_secs: u64,
}

/// The worker timeout when none is given, in seconds.
pub const DEFAULT_WORKER_TIMEOUT_SECS: u64 = 60;

/// The worker count when none is given.
pub const DEFAULT_WORKER_COUNT: usize = 4;

/// The HTTP port and worker timeout that the flags from `i` on set,
/// starting from `acc`, or `None` when a flag's value is no number.
/// `--http-port P` and `--worker-timeout S` take the next argument when
/// there is one; anything else is skipped.
pub open spec fn scan_flags(args: Seq<Seq<char>>, i: int, acc: (Option<u16>, u64)) -> Option<(Option<u16>, u64)>
    decreases args.len() - i,
{
    if i < 0 || i >= args.len() {
        Some(acc)
    } else if args[i] == "--http-port"@ && i + 1 < args.len() {
        match parse_unsigned(args[i + 1], u16::MAX as u64) {
            Some(p) => scan_flags(args, i + 2, (Some(p as u16), acc.1)),
            None => None,
        }
    } else if args[i] == "--worker-timeout"@ && i + 1 < args.len() {
        match parse_unsigned(args[i + 1], u64::MAX) {
            Some(t) => scan_flags(args, i + 2, (acc.0, t)),
            None => None,
        }
    } else {
        scan_flags(args, i + 1, acc)
    }
}

/// Whether some argument asks for verbose output.
pub open spec fn wants_verbose(args: Seq<Seq<char>>) -> bool {
    exists|i: int| 0 <= i < args.len() && (#[trigger] args[i] == "--verbose"@ || args[i] == "-v"@)
}

/// The coordinator's settings from its command line (program name, address,
/// worker count, flags): the worker count from the third argument (4 when
/// absent), `--verbose` or `-v` anywhere, then `--http-port` and
/// `--worker-timeout` (60 s when absent) from the fourth argument on. A
/// number that does not parse gives the parse error, the worker count's
/// first.
pub fn coordinator_options(args: &Vec<String>) -> (r: Result<CoordinatorOptions, ParseIntError>)
    ensures
        ({
            let a = views(args@);
            let count = if a.len() >= 3 {
                parse_unsigned(a[2], usize::MAX as u64)
            } else {
                Some(DEFAULT_WORKER_COUNT as u64)
            };
            match r {
                Ok(o) => {
                    &&& count == Some(o.worker_count as u64)
                    &&& o.verbose == wants_verbose(a)
                    &&& scan_flags(a, 3, (None, DEFAULT_WORKER_TIMEOUT_SECS)) == Some(
                        (o.http_port, o.worker_timeout_secs),
                    )
                },
                Err(_) => count is None || scan_flags(a, 3, (None, DEFAULT_WORKER_TIMEOUT_SECS)) is None,
            }
        }),
{
    let ghost a = views(args@);
    let worker_count = if args.len() >= 3 {
        match parse_usize(args[2].as_str()) {
            Ok(n) => n,
            Err(e) => return Err(e),
        }
    } else {
        DEFAULT_WORKER_COUNT
    };
    let mut verbose = false;
    for k in 0..args.len()
        invariant
            a == views(args@),
            verbose == exists|j: int| 0 <= j < k && (#[trigger] a[j] == "--verbose"@ || a[j] == "-v"@),
    {
        if same_text(args[k].as_str(), "--verbose") || same_text(args[k].as_str(), "-v") {
            assert(a[k as int] == args@[k as int]@);
            verbose = true;
        } else {
            assert(a[k as int] == args@[k as int]@);
        }
    }
    let mut http_port: Option<u16> = None;
    let mut timeout = DEFAULT_WORKER_TIMEOUT_SECS;
    let mut i: usize = 3;
    while i < args.len()
        invariant
            a == views(args@),
            a.len() == args@.len(),
            i >= 3,
            scan_flags(a, i as int, (http_port, timeout)) == scan_flags(a, 3, (None, DEFAULT_WORKER_TIMEOUT_SECS)),
        decreases args.len() - i,
    {
        assert(a[i as int] == args@[i as int]@);
        if i + 1 < args.len() && same_text(args[i].as_str(), "--http-port") {
            assert(a[i + 1] == args@[i + 1]@);
            match parse_u16(args[i + 1].as_str()) {
                Ok(p) => {
                    http_port = Some(p);
                    i = i + 2;
                },
                Err(e) => return Err(e),
            }
        } else if i + 1 < args.len() && same_text(args[i].as_str(), "--worker-timeout") {
            assert(a[i + 1] == args@[i + 1]@);
            match parse_u64(args[i + 1].as_str()) {
                Ok(t) => {
                    timeout = t;
                    i = i + 2;
                },
                Err(e) => return Err(e),
            }
        } else {
            i = i + 1;
        }
    }
    Ok(CoordinatorOptions { worker_count, verbose, http_port, worker_timeout_secs: timeout })
}

} // verus!
