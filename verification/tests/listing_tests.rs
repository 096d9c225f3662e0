use alis_bot_rs::channel::Channel;
use alis_bot_rs::listing::ChannelListing;
use alis_bot_rs::request::Request;
use alis_bot_rs::request::get_request_from_args;
use alis_bot_rs::text::format_duration;
use alis_bot_rs::text::u64_to_string;

#[test]
fn channel_matches_req() {
    let request = Request::new(Some("?test*"), Some("?bar"), Some("5"), None, false).unwrap();
    let matching_rpl_list = vec![
        String::from("foo"),
        String::from("#test-channel"),
        String::from("4"),
        String::from("abar"),
    ];
    let matching_channel = Channel::new(&matching_rpl_list).unwrap();
    assert_eq!(matching_channel.matches(&request), true);

    let bad_topic_rpl_list = vec![
        String::from(""),
        String::from("#test-channel"),
        String::from("4"),
        String::from("other_topic"),
    ];
    let bad_topic_chan = Channel::new(&bad_topic_rpl_list).unwrap();
    assert_eq!(bad_topic_chan.matches(&request), false);

    let line_request = vec!["list", "*", "--min", "2", "--topic", "two*terms"];
    let request = get_request_from_args(line_request).unwrap();
    let matching_rpl_list = vec![
        String::from("foo"),
        String::from("#test-channel"),
        String::from("2"),
        String::from("twoterms"),
    ];
    let matching_channel = Channel::new(&matching_rpl_list).unwrap();
    assert_eq!(matching_channel.matches(&request), true);

    let line_request = vec!["list", "#test*", "-t", "*two*", "--max", "0"];
    let zero_users_request = get_request_from_args(line_request).unwrap();
    assert_eq!(matching_channel.matches(&zero_users_request), false);
    let line_request = vec!["list", "*", "-t", "*", "--min", "2", "--max", "2"];
    let exact_users_request = get_request_from_args(line_request).unwrap();
    assert_eq!(matching_channel.matches(&exact_users_request), true);
}

#[test]
fn usage_examples() {
    // list *searchterm*
    let line_request = vec!["list", "*searchterm*"];
    let request = get_request_from_args(line_request).unwrap();
    let matching_rpl_list = vec![
        String::from("foo"),
        String::from("#searchterm-channel"),
        String::from("4"),
        String::from("abar"),
    ];
    let matching_channel = Channel::new(&matching_rpl_list).unwrap();
    assert_eq!(matching_channel.matches(&request), true);
    // list * --topic multiple*ordered*search*terms
    let line_request = vec!["list", "*", "--topic", "multiple*ordered*search*terms"];
    let request = get_request_from_args(line_request).unwrap();
    let matching_rpl_list = vec![
        String::from("foo"),
        String::from("#some-chan"),
        String::from("4"),
        String::from("multiple-ordered-and-glued-searchterms"),
    ];
    let matching_channel = Channel::new(&matching_rpl_list).unwrap();
    assert_eq!(matching_channel.matches(&request), true);
    // list #foo* --min 50
    let line_request = vec!["list", "#foo*", "--min", "50"];
    let request = get_request_from_args(line_request.clone()).unwrap();
    let matching_rpl_list = vec![
        String::from("foo"),
        String::from("#footnote"),
        String::from("50"),
        String::from(""),
    ];
    let matching_channel = Channel::new(&matching_rpl_list).unwrap();
    assert_eq!(matching_channel.matches(&request), true);
    let request = get_request_from_args(line_request).unwrap();
    let matching_rpl_list = vec![
        String::from("foo"),
        String::from("#footnote"),
        String::from("0"),
        String::from(""),
    ];
    let matching_channel = Channel::new(&matching_rpl_list).unwrap();
    assert_eq!(matching_channel.matches(&request), false);
    // list *bar? -f
    let line_request = vec!["list", "*bar?", "-f"];
    let request = get_request_from_args(line_request.clone()).unwrap();
    let matching_rpl_list = vec![
        String::from(""),
        String::from("#barx"),
        String::from("5"),
        String::from(""),
    ];
    let matching_channel = Channel::new(&matching_rpl_list).unwrap();
    assert_eq!(matching_channel.matches(&request), true);
}

#[test]
fn name_pattern_alone_matches() {
    // query {name: "*test*"} against entry {"#test-channel", "abar", 4}
    let request = Request::new(Some("*test*"), None, None, None, false).unwrap();
    let record = vec![
        String::from("foo"),
        String::from("#test-channel"),
        String::from("4"),
        String::from("abar"),
    ];
    let channel = Channel::new(&record).unwrap();
    assert_eq!(channel.matches(&request), true);
}

#[test]
fn exact_user_bounds() {
    // query {name: "*", min: 2, max: 2}: a count of two matches, three not
    let request = Request::new(Some("*"), None, Some("2"), Some("2"), false).unwrap();
    let record = vec![
        String::from("foo"),
        String::from("#chan"),
        String::from("2"),
        String::from("t"),
    ];
    let channel = Channel::new(&record).unwrap();
    assert_eq!(channel.matches(&request), true);
    let record = vec![
        String::from("foo"),
        String::from("#chan"),
        String::from("3"),
        String::from("t"),
    ];
    let channel = Channel::new(&record).unwrap();
    assert_eq!(channel.matches(&request), false);
}

#[test]
fn use_cached_list() {
    let listing = ChannelListing::new(1000);
    assert_eq!(listing.has_expired(1000), false);
}

#[test]
fn ask_new_list() {
    let listing = ChannelListing::new(1000);
    assert_eq!(listing.has_expired(1000 + 301), true);
}

#[test]
fn expiry_boundary() {
    let listing = ChannelListing::new(1000);
    // exactly the cache lifetime has passed: not yet expired
    assert_eq!(listing.has_expired(1300), false);
    // one second more: expired
    assert_eq!(listing.has_expired(1301), true);
    assert_eq!(listing.get_elapsed_time(1250), 250);
}

#[test]
fn malformed_record_is_dropped() {
    let mut listing = ChannelListing::new(0);
    // three fields instead of four: dropped, length unchanged
    let record = vec![String::from(""), String::from("#chan"), String::from("4")];
    listing.add_channel(&record);
    assert_eq!(listing.len(), 0);
    // a non-numeric count is dropped too
    let record = vec![
        String::from(""),
        String::from("#chan"),
        String::from("many"),
        String::from("topic"),
    ];
    listing.add_channel(&record);
    assert_eq!(listing.len(), 0);
    // a well-formed record is kept
    let record = vec![
        String::from(""),
        String::from("#chan"),
        String::from("4"),
        String::from("topic"),
    ];
    listing.add_channel(&record);
    assert_eq!(listing.len(), 1);
}

#[test]
fn malformed_count_is_parse_error() {
    let record = vec![
        String::from(""),
        String::from("#chan"),
        String::from("-4"),
        String::from("topic"),
    ];
    assert!(Channel::new(&record).is_err());
    let record = vec![String::from("#chan"), String::from("4")];
    assert!(Channel::new(&record).is_err());
}

#[test]
fn matching_lines_keep_arrival_order() {
    let mut listing = ChannelListing::new(0);
    for (name, count, topic) in [("#beta", "7", "second"), ("#alpha", "3", "first"), ("#gamma", "9", "third")] {
        let record = vec![
            String::from("x"),
            String::from(name),
            String::from(count),
            String::from(topic),
        ];
        listing.add_channel(&record);
    }
    let request = get_request_from_args(vec!["list", "*"]).unwrap();
    let lines = listing.matching_lines(&request);
    assert_eq!(lines.len(), 3);
    assert_eq!(lines[0], format!("{: <25} {}: {}", "#beta", 7, "second"));
    assert_eq!(lines[1], format!("{: <25} {}: {}", "#alpha", 3, "first"));
    assert_eq!(lines[2], format!("{: <25} {}: {}", "#gamma", 9, "third"));

    // the bound filters without disturbing the order of the rest
    let request = get_request_from_args(vec!["list", "*", "--min", "5"]).unwrap();
    let lines = listing.matching_lines(&request);
    assert_eq!(lines.len(), 2);
    assert_eq!(lines[0], format!("{: <25} {}: {}", "#beta", 7, "second"));
    assert_eq!(lines[1], format!("{: <25} {}: {}", "#gamma", 9, "third"));
}

#[test]
fn channel_render_pads_name() {
    let record = vec![
        String::from("x"),
        String::from("#test-channel"),
        String::from("4"),
        String::from("abar"),
    ];
    let channel = Channel::new(&record).unwrap();
    assert_eq!(channel.render(), format!("{: <25} {}: {}", "#test-channel", 4, "abar"));
    // a name longer than the pad width is not cut
    let record = vec![
        String::from("x"),
        String::from("#a-channel-name-longer-than-the-pad"),
        String::from("12"),
        String::from("t"),
    ];
    let channel = Channel::new(&record).unwrap();
    assert_eq!(
        channel.render(),
        "#a-channel-name-longer-than-the-pad 12: t"
    );
}

#[test]
fn decimal_rendering() {
    assert_eq!(u64_to_string(0), "0");
    assert_eq!(u64_to_string(7), "7");
    assert_eq!(u64_to_string(1234567890), "1234567890");
}

#[test]
fn duration_rendering() {
    assert_eq!(format_duration(0), "0s");
    assert_eq!(format_duration(59), "59s");
    assert_eq!(format_duration(60), "1min0s");
    assert_eq!(format_duration(301), "5min1s");
    // hours are not shown: both counts wrap at sixty
    assert_eq!(format_duration(3661), "1min1s");
}
