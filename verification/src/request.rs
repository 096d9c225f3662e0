//! The structured search request: a mandatory channel-name pattern, an
//! optional topic pattern, optional user-count bounds, and a force-refresh
//! flag.

use vstd::prelude::*;
use vstd::string::StrSliceExecFns;
use vstd::string::StringExecFns;
use crate::UsageError;
use crate::pattern::GlobPattern;
use crate::pattern::glob_pattern_ok;
use crate::text::spec_parse_u32;
use crate::text::u64_dec;
use crate::text::u64_to_string;

verus! {

/// Abstract value of a request: pattern source texts and plain bounds.
#[verifier::ext_equal]
pub struct ReqView {
    pub chan_pattern: Seq<char>,
    pub topic_pattern: Option<Seq<char>>,
    pub max_users: Option<u32>,
    pub min_users: Option<u32>,
    pub force_update: bool,
}

/// A parsed search request. Its patterns always compile.
#[derive(Debug)]
pub struct Request {
    chan_pattern: GlobPattern,
    topic_pattern: Option<GlobPattern>,
    max_users: Option<u32>,
    min_users: Option<u32>,
    force_update: bool,
}

impl View for Request {
    type V = ReqView;

    closed spec fn view(&self) -> ReqView {
        ReqView {
            chan_pattern: self.chan_pattern.source(),
            topic_pattern: match self.topic_pattern {
                Some(p) => Some(p.source()),
                None => None,
            },
            max_users: self.max_users,
            min_users: self.min_users,
            force_update: self.force_update,
        }
    }
}

/// Both patterns of the request compile.
pub open spec fn req_wf(q: ReqView) -> bool {
    &&& glob_pattern_ok(q.chan_pattern)
    &&& match q.topic_pattern {
        Some(p) => glob_pattern_ok(p),
        None => true,
    }
}

/// The inputs on which building a request succeeds: a channel pattern is
/// given and compiles, the topic pattern (if given) compiles, and the bounds
/// (if given) read as decimal `u32` values.
pub open spec fn req_new_ok(
    chan: Option<Seq<char>>,
    topic: Option<Seq<char>>,
    max: Option<Seq<char>>,
    min: Option<Seq<char>>,
) -> bool {
    &&& chan is Some
    &&& glob_pattern_ok(chan->0)
    &&& match topic {
        Some(t) => glob_pattern_ok(t),
        None => true,
    }
    &&& match max {
        Some(m) => spec_parse_u32(m) is Some,
        None => true,
    }
    &&& match min {
        Some(m) => spec_parse_u32(m) is Some,
        None => true,
    }
}

impl Request {
    pub open spec fn wf(&self) -> bool {
        req_wf(self@)
    }

    /// Build a request from its raw pieces; fails exactly when a piece is
    /// missing or does not parse, never part-way.
    pub fn new(
        chan_pattern: Option<&str>,
        topic_pattern: Option<&str>,
        max_users: Option<&str>,
        min_users: Option<&str>,
        force_update: bool,
    ) -> (r: Result<Request, UsageError>)
        ensures
            r is Ok <==> req_new_ok(
                match chan_pattern {
                    Some(s) => Some(s@),
                    None => None,
                },
                match topic_pattern {
                    Some(s) => Some(s@),
                    None => None,
                },
                match max_users {
                    Some(s) => Some(s@),
                    None => None,
                },
                match min_users {
                    Some(s) => Some(s@),
                    None => None,
                },
            ),
            r is Ok ==> {
                let q = r->Ok_0@;
                &&& q.chan_pattern == chan_pattern->0@
                &&& q.topic_pattern == match topic_pattern {
                    Some(s) => Some(s@),
                    None => None::<Seq<char>>,
                }
                &&& q.max_users == match max_users {
                    Some(s) => spec_parse_u32(s@),
                    None => None::<u32>,
                }
                &&& q.min_users == match min_users {
                    Some(s) => spec_parse_u32(s@),
                    None => None::<u32>,
                }
                &&& q.force_update == force_update
            },
            r is Ok ==> r->Ok_0.wf(),
    {
        let chan_pattern = match chan_pattern {
            Some(s) => match GlobPattern::new(s) {
                Ok(p) => p,
                Err(e) => {
                    return Err(e);
                },
            },
            None => {
                return Err(UsageError);
            },
        };
        let topic_pattern = match topic_pattern {
            Some(s) => match GlobPattern::new(s) {
                Ok(p) => Some(p),
                Err(e) => {
                    return Err(e);
                },
            },
            None => None,
        };
        let max_users = match max_users {
            Some(max) => match parse_opt_u32(Some(max.to_owned())) {
                Ok(v) => v,
                Err(e) => {
                    return Err(e);
                },
            },
            None => None,
        };
        let min_users = match min_users {
            Some(min) => match parse_opt_u32(Some(min.to_owned())) {
                Ok(v) => v,
                Err(e) => {
                    return Err(e);
                },
            },
            None => None,
        };
        Ok(
            Request {
                chan_pattern,
                topic_pattern,
                max_users,
                min_users,
                force_update,
            },
        )
    }

    /// Whether the request asks for a forced refresh.
    pub fn force_update(&self) -> (r: bool)
        ensures
            r == self@.force_update,
    {
        self.force_update
    }

    /// Whether the channel name matches the request's name pattern.
    pub fn name_matches(&self, name: &str) -> (r: bool)
        requires
            self.wf(),
        ensures
            r == crate::pattern::glob_match(self@.chan_pattern, name@),
    {
        self.chan_pattern.matches(name)
    }

    /// Whether the channel topic passes the request's topic pattern: an absent
    /// pattern passes everything.
    pub fn topic_matches(&self, topic: &str) -> (r: bool)
        requires
            self.wf(),
        ensures
            r == match self@.topic_pattern {
                Some(p) => crate::pattern::glob_match(p, topic@),
                None => true,
            },
    {
        match &self.topic_pattern {
            Some(p) => p.matches(topic),
            None => true,
        }
    }

    /// Whether a user count lies within the request's bounds.
    pub fn count_in_bounds(&self, users: u32) -> (r: bool)
        ensures
            r == spec_count_in_bounds(self@, users),
    {
        let above_min = match self.min_users {
            Some(min) => users >= min,
            None => true,
        };
        let below_max = match self.max_users {
            Some(max) => users <= max,
            None => true,
        };
        above_min && below_max
    }

    /// The request as the bot's summary line shows it.
    pub fn render(&self) -> (r: String)
        ensures
            r@ == spec_render_request(self@),
    {
        let topic = match &self.topic_pattern {
            Some(t) => t.render(),
            None => String::from_str("(None)"),
        };
        let max = match self.max_users {
            Some(m) => u64_to_string(m as u64),
            None => String::from_str("(None)"),
        };
        let min = match self.min_users {
            Some(m) => u64_to_string(m as u64),
            None => String::from_str("(None)"),
        };
        let r = String::from_str("(channel name pattern: ").concat(
            self.chan_pattern.render().as_str(),
        ).concat(", topic pattern: ").concat(topic.as_str()).concat(", max users: ").concat(
            max.as_str(),
        ).concat(", min users: ").concat(min.as_str()).concat(")");
        proof {
            assert(r@ =~= spec_render_request(self@));
        }
        r
    }
}

/// A user count lies within the request's optional bounds; an absent bound
/// passes everything.
pub open spec fn spec_count_in_bounds(q: ReqView, users: u32) -> bool {
    &&& match q.max_users {
        Some(max) => users <= max,
        None => true,
    }
    &&& match q.min_users {
        Some(min) => users >= min,
        None => true,
    }
}

/// An optional pattern as the summary line shows it.
pub open spec fn spec_render_opt_pat(p: Option<Seq<char>>) -> Seq<char> {
    match p {
        Some(s) => s,
        None => "(None)"@,
    }
}

/// An optional bound as the summary line shows it.
pub open spec fn spec_render_opt_num(n: Option<u32>) -> Seq<char> {
    match n {
        Some(v) => u64_dec(v as nat),
        None => "(None)"@,
    }
}

/// The request's rendering in the summary line.
pub open spec fn spec_render_request(q: ReqView) -> Seq<char> {
    "(channel name pattern: "@ + q.chan_pattern + ", topic pattern: "@ + spec_render_opt_pat(
        q.topic_pattern,
    ) + ", max users: "@ + spec_render_opt_num(q.max_users) + ", min users: "@
        + spec_render_opt_num(q.min_users) + ")"@
}

/// Read an optional decimal bound; an absent argument is not an error, a
/// present one that does not read as a `u32` is.
pub fn parse_opt_u32(arg: Option<String>) -> (r: Result<Option<u32>, UsageError>)
    ensures
        match arg {
            None => r == Ok::<Option<u32>, UsageError>(None),
            Some(s) => r == match spec_parse_u32(s@) {
                Some(v) => Ok::<Option<u32>, UsageError>(Some(v)),
                None => Err::<Option<u32>, UsageError>(UsageError),
            },
        },
{
    match arg {
        Some(arg) => match crate::text::parse_u32_str(arg.as_str()) {
            Some(v) => Ok(Some(v)),
            None => Err(UsageError),
        },
        None => Ok(None),
    }
}

/// The raw pieces collected while scanning the `list` command's tokens.
#[verifier::ext_equal]
pub struct RawArgs {
    pub chan: Option<Seq<char>>,
    pub topic: Option<Seq<char>>,
    pub max: Option<Seq<char>>,
    pub min: Option<Seq<char>>,
    pub force: bool,
}

pub open spec fn raw_args_empty() -> RawArgs {
    RawArgs { chan: None, topic: None, max: None, min: None, force: false }
}

/// A token that is read as a flag rather than as a value: it starts with a
/// dash and is not the bare dash.
pub open spec fn looks_like_flag(t: Seq<char>) -> bool {
    t.len() >= 2 && t[0] == '-'
}

/// Position of the first `'='` in `t` at or after `i`; the length if none.
pub open spec fn first_eq_from(t: Seq<char>, i: int) -> int
    decreases t.len() - i,
{
    if i < 0 || i >= t.len() {
        t.len() as int
    } else if t[i] == '=' {
        i
    } else {
        first_eq_from(t, i + 1)
    }
}

proof fn lemma_first_eq(t: Seq<char>, j: int, p: int)
    requires
        0 <= j <= p <= t.len(),
        forall|k: int| j <= k < p ==> t[k] != '=',
        p == t.len() || t[p] == '=',
    ensures
        first_eq_from(t, j) == p,
    decreases p - j,
{
    if j < p {
        lemma_first_eq(t, j + 1, p);
    }
}

/// One left-to-right pass over the tokens after the command word. Each flag
/// may be given once; `-t`/`--topic`, `--min` and `--max` take a value,
/// either as the next token or attached with `'='`; `-f`/`--force` takes
/// none; the one token that is not a flag or a value is the channel pattern;
/// anything else refuses the request.
pub open spec fn scan_args(args: Seq<Seq<char>>, i: int, acc: RawArgs) -> Option<RawArgs>
    decreases args.len() - i,
{
    if i < 0 || i >= args.len() {
        Some(acc)
    } else {
        let t = args[i];
        if t == "-f"@ || t == "--force"@ {
            if acc.force {
                None
            } else {
                scan_args(args, i + 1, RawArgs { force: true, ..acc })
            }
        } else if t == "-t"@ || t == "--topic"@ {
            if acc.topic is Some || i + 1 >= args.len() || looks_like_flag(args[i + 1]) {
                None
            } else {
                scan_args(args, i + 2, RawArgs { topic: Some(args[i + 1]), ..acc })
            }
        } else if t == "--min"@ {
            if acc.min is Some || i + 1 >= args.len() || looks_like_flag(args[i + 1]) {
                None
            } else {
                scan_args(args, i + 2, RawArgs { min: Some(args[i + 1]), ..acc })
            }
        } else if t == "--max"@ {
            if acc.max is Some || i + 1 >= args.len() || looks_like_flag(args[i + 1]) {
                None
            } else {
                scan_args(args, i + 2, RawArgs { max: Some(args[i + 1]), ..acc })
            }
        } else if looks_like_flag(t) {
            let p = first_eq_from(t, 0);
            if p < t.len() {
                let head = t.take(p);
                let v = t.subrange(p + 1, t.len() as int);
                if head == "-t"@ || head == "--topic"@ {
                    if acc.topic is Some {
                        None
                    } else {
                        scan_args(args, i + 1, RawArgs { topic: Some(v), ..acc })
                    }
                } else if head == "--min"@ {
                    if acc.min is Some {
                        None
                    } else {
                        scan_args(args, i + 1, RawArgs { min: Some(v), ..acc })
                    }
                } else if head == "--max"@ {
                    if acc.max is Some {
                        None
                    } else {
                        scan_args(args, i + 1, RawArgs { max: Some(v), ..acc })
                    }
                } else {
                    None
                }
            } else {
                None
            }
        } else {
            if acc.chan is Some {
                None
            } else {
                scan_args(args, i + 1, RawArgs { chan: Some(t), ..acc })
            }
        }
    }
}

/// What scanning a full token list yields: the first token must be the
/// `list` command word, the rest follow `scan_args`.
pub open spec fn spec_scan_request(args: Seq<Seq<char>>) -> Option<RawArgs> {
    if args.len() == 0 || args[0] != "list"@ {
        None
    } else {
        scan_args(args, 1, raw_args_empty())
    }
}

pub open spec fn opt_str_view(o: Option<&str>) -> Option<Seq<char>> {
    match o {
        Some(s) => Some(s@),
        None => None,
    }
}

/// Building a request out of the scanned pieces succeeds.
pub open spec fn req_from_raw_ok(raw: RawArgs) -> bool {
    req_new_ok(raw.chan, raw.topic, raw.max, raw.min)
}

/// The request the scanned pieces describe.
pub open spec fn req_view_of_raw(raw: RawArgs) -> ReqView {
    ReqView {
        chan_pattern: raw.chan->0,
        topic_pattern: raw.topic,
        max_users: match raw.max {
            Some(s) => spec_parse_u32(s),
            None => None,
        },
        min_users: match raw.min {
            Some(s) => spec_parse_u32(s),
            None => None,
        },
        force_update: raw.force,
    }
}

/// The scan state as the collected exec pieces describe it.
pub open spec fn raw_of(
    chan: Option<&str>,
    topic: Option<&str>,
    max: Option<&str>,
    min: Option<&str>,
    force: bool,
) -> RawArgs {
    RawArgs {
        chan: opt_str_view(chan),
        topic: opt_str_view(topic),
        max: opt_str_view(max),
        min: opt_str_view(min),
        force: force,
    }
}

/// Parse a tokenized `list` request, command word first. The token scan
/// accepts exactly what `spec_scan_request` accepts, and building the request
/// from the collected pieces accepts exactly what `req_new_ok` allows.
pub fn get_request_from_args(args: Vec<&str>) -> (r: Result<Request, UsageError>)
    ensures
        match spec_scan_request(args.deep_view()) {
            None => r is Err,
            Some(raw) => {
                &&& (r is Ok <==> req_from_raw_ok(raw))
                &&& r is Ok ==> r->Ok_0@ == req_view_of_raw(raw)
                &&& r is Ok ==> r->Ok_0.wf()
            },
        },
{
    let ghost dv = args.deep_view();
    let n = args.len();
    if n == 0 || !crate::text::str_eq(args[0], "list") {
        proof {
            assert(n > 0 ==> dv[0] == args@[0]@);
        }
        return Err(UsageError);
    }
    proof {
        assert(dv[0] == args@[0]@);
    }
    let mut chan: Option<&str> = None;
    let mut topic: Option<&str> = None;
    let mut max: Option<&str> = None;
    let mut min: Option<&str> = None;
    let mut force: bool = false;
    let mut i: usize = 1;
    while i < n
        invariant
            1 <= i <= n,
            n == args@.len(),
            dv == args.deep_view(),
            dv.len() == n,
            spec_scan_request(dv) == scan_args(dv, i as int, raw_of(chan, topic, max, min, force)),
        decreases n - i,
    {
        let ghost acc = raw_of(chan, topic, max, min, force);
        let t = args[i];
        proof {
            assert(dv[i as int] == args@[i as int]@);
        }
        if crate::text::str_eq(t, "-f") || crate::text::str_eq(t, "--force") {
            if force {
                return Err(UsageError);
            }
            force = true;
            proof {
                assert(raw_of(chan, topic, max, min, force) =~= (RawArgs { force: true, ..acc }));
            }
            i = i + 1;
        } else if crate::text::str_eq(t, "-t") || crate::text::str_eq(t, "--topic") {
            if topic.is_some() || i + 1 >= n {
                return Err(UsageError);
            }
            let v = args[i + 1];
            proof {
                assert(dv[i + 1] == args@[i + 1]@);
            }
            if v.unicode_len() >= 2 && v.get_char(0) == '-' {
                return Err(UsageError);
            }
            topic = Some(v);
            proof {
                assert(raw_of(chan, topic, max, min, force) =~= (RawArgs {
                    topic: Some(v@),
                    ..acc
                }));
            }
            i = i + 2;
        } else if crate::text::str_eq(t, "--min") {
            if min.is_some() || i + 1 >= n {
                return Err(UsageError);
            }
            let v = args[i + 1];
            proof {
                assert(dv[i + 1] == args@[i + 1]@);
            }
            if v.unicode_len() >= 2 && v.get_char(0) == '-' {
                return Err(UsageError);
            }
            min = Some(v);
            proof {
                assert(raw_of(chan, topic, max, min, force) =~= (RawArgs {
                    min: Some(v@),
                    ..acc
                }));
            }
            i = i + 2;
        } else if crate::text::str_eq(t, "--max") {
            if max.is_some() || i + 1 >= n {
                return Err(UsageError);
            }
            let v = args[i + 1];
            proof {
                assert(dv[i + 1] == args@[i + 1]@);
            }
            if v.unicode_len() >= 2 && v.get_char(0) == '-' {
                return Err(UsageError);
            }
            max = Some(v);
            proof {
                assert(raw_of(chan, topic, max, min, force) =~= (RawArgs {
                    max: Some(v@),
                    ..acc
                }));
            }
            i = i + 2;
        } else if t.unicode_len() >= 2 && t.get_char(0) == '-' {
            let tlen = t.unicode_len();
            let mut p: usize = 0;
            while p < tlen && t.get_char(p) != '='
                invariant
                    0 <= p <= tlen,
                    tlen == t@.len(),
                    forall|k: int| 0 <= k < p ==> t@[k] != '=',
                decreases tlen - p,
            {
                p = p + 1;
            }
            proof {
                lemma_first_eq(t@, 0, p as int);
            }
            if p >= tlen {
                return Err(UsageError);
            }
            let head = t.substring_char(0, p);
            let v = t.substring_char(p + 1, tlen);
            proof {
                assert(head@ =~= t@.take(p as int));
            }
            if crate::text::str_eq(head, "-t") || crate::text::str_eq(head, "--topic") {
                if topic.is_some() {
                    return Err(UsageError);
                }
                topic = Some(v);
                proof {
                    assert(raw_of(chan, topic, max, min, force) =~= (RawArgs {
                        topic: Some(v@),
                        ..acc
                    }));
                }
                i = i + 1;
            } else if crate::text::str_eq(head, "--min") {
                if min.is_some() {
                    return Err(UsageError);
                }
                min = Some(v);
                proof {
                    assert(raw_of(chan, topic, max, min, force) =~= (RawArgs {
                        min: Some(v@),
                        ..acc
                    }));
                }
                i = i + 1;
            } else if crate::text::str_eq(head, "--max") {
                if max.is_some() {
                    return Err(UsageError);
                }
                max = Some(v);
                proof {
                    assert(raw_of(chan, topic, max, min, force) =~= (RawArgs {
                        max: Some(v@),
                        ..acc
                    }));
                }
                i = i + 1;
            } else {
                return Err(UsageError);
            }
        } else {
            if chan.is_some() {
                return Err(UsageError);
            }
            chan = Some(t);
            proof {
                assert(raw_of(chan, topic, max, min, force) =~= (RawArgs {
                    chan: Some(t@),
                    ..acc
                }));
            }
            i = i + 1;
        }
    }
    let r = Request::new(chan, topic, max, min, force);
    proof {
        assert(r is Ok ==> r->Ok_0@ =~= req_view_of_raw(raw_of(chan, topic, max, min, force)));
    }
    r
}

impl PartialEq for Request {
    fn eq(&self, other: &Request) -> (r: bool) {
        let topic_eq = match (&self.topic_pattern, &other.topic_pattern) {
            (Some(a), Some(b)) => a == b,
            (None, None) => true,
            _ => false,
        };
        let max_eq = match (self.max_users, other.max_users) {
            (Some(a), Some(b)) => a == b,
            (None, None) => true,
            _ => false,
        };
        let min_eq = match (self.min_users, other.min_users) {
            (Some(a), Some(b)) => a == b,
            (None, None) => true,
            _ => false,
        };
        self.chan_pattern == other.chan_pattern && topic_eq && max_eq && min_eq
            && self.force_update == other.force_update
    }
}

impl vstd::std_specs::cmp::PartialEqSpecImpl for Request {
    open spec fn obeys_eq_spec() -> bool {
        true
    }

    open spec fn eq_spec(&self, other: &Request) -> bool {
        self@ == other@
    }
}

} // verus!
