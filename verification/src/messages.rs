//! The bot's message surface: dispatching an incoming private-message
//! command, and the fixed texts and summary line of its replies.

use vstd::prelude::*;
use vstd::string::StringExecFns;
use crate::coordinator::Coordinator;
use crate::listing::ListingView;
use crate::listing::spec_elapsed;
use crate::listing::spec_results;
use crate::request::ReqView;
use crate::request::Request;
use crate::request::get_request_from_args;
use crate::request::req_from_raw_ok;
use crate::request::req_view_of_raw;
use crate::request::spec_render_request;
use crate::request::spec_scan_request;
use crate::text::spec_format_duration;
use crate::text::str_eq;
use crate::text::u64_dec;
use crate::text::u64_to_string;

verus! {

/// The usage text of the `list` command, with protocol line endings.
pub open spec fn spec_usage_text() -> Seq<char> {
    "\r\nlist-alis-bot-rs -- allows searching for channels with more flexibility than the /list command.\r\nUsage:\r\n  list <pattern> [OPTIONS]\t\tshows a list of channels matching the pattern\r\nArguments:\r\n  <pattern>\t\t\t\t\tchannel \x02name\x0f matches <pattern> (Unix shell style glob pattern)\r\nOptions:\r\n  -t --topic <pattern>\t\tchannel \x02topic\x0f matches <pattern> (Unix shell style glob pattern)\r\n  --max <n>\t\t\t\t\tshows only channels with \x02at most\x0f <n> users\r\n  --min <n>\t\t\t\t\tshows only channels with \x02at least\x0f <n> users\r\n  -f \t\t\t\t\t\tforces channel list update. By default, channel list is cached and expires after 5 minutes\r\n Examples:\r\n /msg alis-bot-rs list *searchterm*\r\n /msg alis-bot-rs list * --topic multiple*ordered*search*terms\r\n /msg alis-bot-rs list #foo* --min 50\r\n /msg alis-bot-rs list *bar? -f"@
}

/// The usage message sent for `help` and for a request that does not parse.
pub fn list_usage_msg() -> (r: String)
    ensures
        r@ == spec_usage_text(),
{
    "\r\nlist-alis-bot-rs -- allows searching for channels with more flexibility than the /list command.\r\nUsage:\r\n  list <pattern> [OPTIONS]\t\tshows a list of channels matching the pattern\r\nArguments:\r\n  <pattern>\t\t\t\t\tchannel \x02name\x0f matches <pattern> (Unix shell style glob pattern)\r\nOptions:\r\n  -t --topic <pattern>\t\tchannel \x02topic\x0f matches <pattern> (Unix shell style glob pattern)\r\n  --max <n>\t\t\t\t\tshows only channels with \x02at most\x0f <n> users\r\n  --min <n>\t\t\t\t\tshows only channels with \x02at least\x0f <n> users\r\n  -f \t\t\t\t\t\tforces channel list update. By default, channel list is cached and expires after 5 minutes\r\n Examples:\r\n /msg alis-bot-rs list *searchterm*\r\n /msg alis-bot-rs list * --topic multiple*ordered*search*terms\r\n /msg alis-bot-rs list #foo* --min 50\r\n /msg alis-bot-rs list *bar? -f".to_owned()
}

/// The self-introduction sent for any other message.
pub open spec fn spec_introduce_text(user_name: Seq<char>) -> Seq<char> {
    "Hey "@ + user_name + " ! "@
        + "alis-bot-rs allows searching for channels with more flexibility than the /list command. For command syntax type:\r\n/msg alis-bot-rs help\r\n"@
}

/// Greet a user who sent something other than a known command.
pub fn introduce_msg(user_name: &str) -> (r: String)
    ensures
        r@ == spec_introduce_text(user_name@),
{
    let r = String::from_str("Hey ").concat(user_name).concat(" ! ").concat(
        "alis-bot-rs allows searching for channels with more flexibility than the /list command. For command syntax type:\r\n/msg alis-bot-rs help\r\n",
    );
    proof {
        assert(r@ =~= spec_introduce_text(user_name@));
    }
    r
}

/// The trailing summary line of a reply: total match count, the rendered
/// request, and the cache age in a human unit.
pub open spec fn spec_summary(count: nat, q: ReqView, age: u64) -> Seq<char> {
    "\x02Total: "@ + u64_dec(count) + " channel(s)\x0f matching: '"@ + spec_render_request(q)
        + "'. Last list update was cached "@ + spec_format_duration(age)
        + " ago, run with -f to force fetching and get the most up-to-date results."@
}

/// Render the summary line.
pub fn summary_line(count: usize, request: &Request, age: u64) -> (r: String)
    ensures
        r@ == spec_summary(count as nat, request@, age),
{
    let r = String::from_str("\x02Total: ").concat(u64_to_string(count as u64).as_str()).concat(
        " channel(s)\x0f matching: '",
    ).concat(request.render().as_str()).concat("'. Last list update was cached ").concat(
        crate::text::format_duration(age).as_str(),
    ).concat(" ago, run with -f to force fetching and get the most up-to-date results.");
    proof {
        assert(r@ =~= spec_summary(count as nat, request@, age));
    }
    r
}

/// What the bot does with one incoming private message, already lower-cased
/// and split into tokens by the session edge.
#[derive(Debug)]
pub enum MessageAction {
    /// A well-formed `list` request to answer.
    RunQuery(Request),
    /// Send the usage text: the `help` command, or a `list` request that
    /// does not parse.
    ShowUsage,
    /// Send the self-introduction: anything else, including an empty
    /// message.
    Introduce,
}

/// Decide what an incoming private message asks for. A message whose first
/// token is `list` is parsed as a search request; `help` asks for the usage
/// text; anything else gets the introduction.
pub fn privmsg_parse(tokens: &Vec<String>) -> (r: MessageAction)
    ensures
        tokens@.len() == 0 ==> r is Introduce,
        tokens@.len() > 0 ==> {
            let toks = tokens.deep_view();
            if toks[0] == "list"@ {
                match spec_scan_request(toks) {
                    Some(raw) => {
                        &&& (r is RunQuery <==> req_from_raw_ok(raw))
                        &&& (r is RunQuery ==> r->RunQuery_0@ == req_view_of_raw(raw)
                            && r->RunQuery_0.wf())
                        &&& (!req_from_raw_ok(raw) ==> r is ShowUsage)
                    },
                    None => r is ShowUsage,
                }
            } else if toks[0] == "help"@ {
                r is ShowUsage
            } else {
                r is Introduce
            }
        },
{
    if tokens.len() == 0 {
        return MessageAction::Introduce;
    }
    proof {
        assert(tokens.deep_view()[0] == tokens@[0]@);
    }
    if str_eq(tokens[0].as_str(), "list") {
        let refs = token_refs(tokens);
        match get_request_from_args(refs) {
            Ok(req) => MessageAction::RunQuery(req),
            Err(_) => MessageAction::ShowUsage,
        }
    } else if str_eq(tokens[0].as_str(), "help") {
        MessageAction::ShowUsage
    } else {
        MessageAction::Introduce
    }
}

/// Borrow each token as a string slice.
fn token_refs(tokens: &Vec<String>) -> (r: Vec<&str>)
    ensures
        r.deep_view() == tokens.deep_view(),
{
    let mut refs: Vec<&str> = Vec::new();
    let n = tokens.len();
    let mut j: usize = 0;
    while j < n
        invariant
            0 <= j <= n,
            n == tokens@.len(),
            refs@.len() == j,
            forall|i: int| 0 <= i < j ==> #[trigger] refs@[i]@ == tokens@[i]@,
        decreases n - j,
    {
        refs.push(tokens[j].as_str());
        j = j + 1;
    }
    proof {
        assert forall|i: int| 0 <= i < n implies refs.deep_view()[i] == tokens.deep_view()[i] by {
            assert(refs@[i]@ == tokens@[i]@);
        }
        assert(refs.deep_view() =~= tokens.deep_view());
    }
    refs
}

/// A full reply to a search request read from a consistent snapshot: the
/// display lines of the matching entries in arrival order, then the summary
/// line.
pub open spec fn spec_reply(l: ListingView, q: ReqView, now: u64) -> Seq<Seq<char>> {
    spec_results(l.channels, q) + seq![
        spec_summary(spec_results(l.channels, q).len(), q, spec_elapsed(l.last_fetch, now)),
    ]
}

/// Answer a parsed request from the coordinator's current snapshot.
pub fn query_reply(coord: &Coordinator, request: &Request, now: u64) -> (r: Vec<String>)
    requires
        request.wf(),
    ensures
        r.deep_view() == spec_reply(coord@.listing, request@, now),
{
    let (mut lines, age) = coord.answer(request, now);
    let s = summary_line(lines.len(), request, age);
    lines.push(s);
    proof {
        assert(lines.deep_view() =~= spec_reply(coord@.listing, request@, now));
    }
    lines
}

/// Answer one tokenized `list` request end to end: parse the tokens and,
/// when they form a valid request, reply from the coordinator's current
/// snapshot; tokens that do not form one get no reply lines.
pub fn handle_list(coord: &Coordinator, tokens: &Vec<String>, now: u64) -> (r: Option<
    Vec<String>,
>)
    ensures
        match spec_scan_request(tokens.deep_view()) {
            Some(raw) => if req_from_raw_ok(raw) {
                r is Some && r->0.deep_view() == spec_reply(
                    coord@.listing,
                    req_view_of_raw(raw),
                    now,
                )
            } else {
                r is None
            },
            None => r is None,
        },
{
    let refs = token_refs(tokens);
    match get_request_from_args(refs) {
        Ok(req) => Some(query_reply(coord, &req, now)),
        Err(_) => None,
    }
}

} // verus!
