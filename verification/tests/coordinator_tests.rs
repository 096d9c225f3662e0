use alis_bot_rs::coordinator::Coordinator;
use alis_bot_rs::coordinator::QueryDecision;
use alis_bot_rs::messages::MessageAction;
use alis_bot_rs::messages::handle_list;
use alis_bot_rs::messages::introduce_msg;
use alis_bot_rs::messages::list_usage_msg;
use alis_bot_rs::messages::privmsg_parse;

fn record(name: &str, count: &str, topic: &str) -> Vec<String> {
    vec![
        String::from("x"),
        String::from(name),
        String::from(count),
        String::from(topic),
    ]
}

fn tokens(words: &[&str]) -> Vec<String> {
    words.iter().map(|w| String::from(*w)).collect()
}

#[test]
fn fresh_query_reads_at_once() {
    let mut coord = Coordinator::new(100);
    // no force, cache fresh: read immediately, nothing emitted
    assert_eq!(coord.on_query(false, 150), QueryDecision::ReadNow);
    assert!(coord.is_available());
}

#[test]
fn expired_query_starts_refresh() {
    let mut coord = Coordinator::new(100);
    coord.on_entry_record(&record("#chan", "4", "t"));
    assert_eq!(coord.len(), 1);
    // 301 seconds later the cache has expired: a refresh starts and the
    // cache is cleared
    assert_eq!(coord.on_query(false, 401), QueryDecision::Wait { emit: true });
    assert!(!coord.is_available());
    assert_eq!(coord.len(), 0);
}

#[test]
fn concurrent_force_refreshes_emit_once() {
    let mut coord = Coordinator::new(100);
    // the first forced query starts the refresh and emits the one request
    assert_eq!(coord.on_query(true, 110), QueryDecision::Wait { emit: true });
    // the second forced query joins the running refresh without emitting
    assert_eq!(coord.on_query(true, 111), QueryDecision::Wait { emit: false });
    // entries arrive, then the completion event
    coord.on_entry_record(&record("#one", "1", "a"));
    coord.on_entry_record(&record("#two", "2", "b"));
    coord.on_listing_complete(120);
    assert!(coord.is_available());
    // both queries read the same completed cycle
    let toks = tokens(&["list", "*"]);
    let first = handle_list(&coord, &toks, 125).unwrap();
    let second = handle_list(&coord, &toks, 125).unwrap();
    assert_eq!(first, second);
    assert_eq!(first.len(), 3);
    assert_eq!(first[0], format!("{: <25} {}: {}", "#one", 1, "a"));
    assert_eq!(first[1], format!("{: <25} {}: {}", "#two", 2, "b"));
}

#[test]
fn round_trip_snapshot() {
    let mut coord = Coordinator::new(0);
    assert_eq!(coord.on_query(true, 5), QueryDecision::Wait { emit: true });
    // three well-formed records and one malformed one
    coord.on_entry_record(&record("#beta", "7", "second"));
    coord.on_entry_record(&tokens(&["", "#chan", "4"]));
    coord.on_entry_record(&record("#alpha", "3", "first"));
    coord.on_entry_record(&record("#gamma", "9", "third"));
    coord.on_listing_complete(10);
    // the snapshot holds exactly the three decoded entries in arrival order,
    // plus the trailing summary line
    let lines = handle_list(&coord, &tokens(&["list", "*"]), 15).unwrap();
    assert_eq!(lines.len(), 4);
    assert_eq!(lines[0], format!("{: <25} {}: {}", "#beta", 7, "second"));
    assert_eq!(lines[1], format!("{: <25} {}: {}", "#alpha", 3, "first"));
    assert_eq!(lines[2], format!("{: <25} {}: {}", "#gamma", 9, "third"));
    assert_eq!(
        lines[3],
        "\u{2}Total: 3 channel(s)\u{f} matching: '(channel name pattern: *, topic pattern: \
         (None), max users: (None), min users: (None))'. Last list update was cached 5s ago, \
         run with -f to force fetching and get the most up-to-date results."
    );
}

#[test]
fn session_ready_emits_once() {
    let mut coord = Coordinator::new(0);
    assert!(coord.on_session_ready(0));
    assert!(!coord.is_available());
    // a second welcome while the refresh runs does not emit again
    assert!(!coord.on_session_ready(1));
    coord.on_listing_complete(2);
    assert!(coord.is_available());
}

#[test]
fn completion_stamps_the_cache() {
    let mut coord = Coordinator::new(0);
    coord.on_query(true, 100);
    coord.on_listing_complete(200);
    // the age reported afterwards counts from completion, not initiation
    let lines = handle_list(&coord, &tokens(&["list", "*"]), 260).unwrap();
    assert!(lines[0].contains("cached 1min0s ago"));
}

#[test]
fn bad_tokens_give_no_reply() {
    let coord = Coordinator::new(0);
    assert!(handle_list(&coord, &tokens(&["list"]), 0).is_none());
    assert!(handle_list(&coord, &tokens(&["list", "*", "--min", "x"]), 0).is_none());
}

#[test]
fn privmsg_dispatch() {
    assert!(matches!(
        privmsg_parse(&tokens(&["list", "*test*"])),
        MessageAction::RunQuery(_)
    ));
    assert!(matches!(
        privmsg_parse(&tokens(&["list"])),
        MessageAction::ShowUsage
    ));
    assert!(matches!(privmsg_parse(&tokens(&["help"])), MessageAction::ShowUsage));
    assert!(matches!(
        privmsg_parse(&tokens(&["hello", "there"])),
        MessageAction::Introduce
    ));
    assert!(matches!(privmsg_parse(&tokens(&[])), MessageAction::Introduce));
}

#[test]
fn fixed_texts() {
    let usage = list_usage_msg();
    assert!(usage.starts_with("\r\nlist-alis-bot-rs -- allows searching"));
    assert!(usage.contains("\r\nUsage:\r\n"));
    assert!(usage.contains("\r\n Examples:\r\n"));
    let intro = introduce_msg("bob");
    assert!(intro.starts_with("Hey bob ! alis-bot-rs allows searching"));
    assert!(intro.ends_with("/msg alis-bot-rs help\r\n"));
}
