use ping_supervisor::line::{
    classify_line, is_decimal_text, is_timeout_line, latency_from_captures, parse_ping_line,
    Latency, Sample,
};
use ping_supervisor::pattern::Capture;

fn millis(line: &str) -> Option<f64> {
    parse_ping_line(line).map(|l| l.as_str().parse::<f64>().unwrap())
}

#[test]
fn decimal_latency_with_blank_before_unit() {
    assert_eq!(millis("64 bytes from 8.8.8.8: icmp_seq=1 ttl=64 time=12.3 ms"), Some(12.3));
    assert_eq!(millis("time=12.3 ms"), Some(12.3));
}

#[test]
fn decimal_latency_below_a_bound() {
    assert_eq!(millis("time<12.3ms"), Some(12.3));
    assert_eq!(millis("Reply from 10.0.0.1: bytes=32 time<1ms TTL=128"), Some(1.0));
}

#[test]
fn integer_latency() {
    assert_eq!(millis("time=45ms"), Some(45.0));
    assert_eq!(millis("Reply from 8.8.8.8: bytes=32 time=45ms TTL=64"), Some(45.0));
}

#[test]
fn latency_text_is_kept_as_written() {
    let latency = parse_ping_line("icmp_seq=3 time=0.045 ms").unwrap();
    assert_eq!(latency.as_str(), "0.045");
    let latency = parse_ping_line("time=7.   ms").unwrap();
    assert_eq!(latency.as_str(), "7.");
}

#[test]
fn first_latency_of_a_line_wins() {
    assert_eq!(millis("time=1.5 ms time=9 ms"), Some(1.5));
}

#[test]
fn line_without_latency_gives_none() {
    assert_eq!(parse_ping_line("PING 8.8.8.8 (8.8.8.8) 56(84) bytes of data."), None);
    assert_eq!(parse_ping_line(""), None);
    assert_eq!(parse_ping_line("time=ms"), None);
    assert_eq!(parse_ping_line("time=12.3 s"), None);
    assert_eq!(parse_ping_line("TIME=12 ms"), None);
}

#[test]
fn digits_outside_ascii_give_no_latency() {
    assert_eq!(parse_ping_line("time=\u{0661}\u{0662} ms"), None);
    assert_eq!(parse_ping_line("time=\u{0661}\u{0662} ms time=5 ms"), None);
}

#[test]
fn timeout_phrases_in_any_case() {
    assert!(is_timeout_line("Request timed out."));
    assert!(is_timeout_line("REQUEST TIMED OUT"));
    assert!(is_timeout_line("request timed out"));
    assert!(is_timeout_line("Request timeout for icmp_seq 3"));
    assert!(is_timeout_line("4 packets transmitted, 0 received, 100% packet loss, time 3060ms"));
    assert!(is_timeout_line("From 10.0.0.1 icmp_seq=1 Destination Host Unreachable"));
    assert!(is_timeout_line("ping: connect: Network is unreachable"));
}

#[test]
fn timed_out_line_has_no_latency() {
    let line = "Request Timed Out.";
    assert!(is_timeout_line(line));
    assert_eq!(parse_ping_line(line), None);
    assert_eq!(classify_line(line), Some(Sample::Timeout));
}

#[test]
fn plain_line_gives_no_sample() {
    let line = "PING 8.8.8.8 (8.8.8.8) 56(84) bytes of data.";
    assert_eq!(parse_ping_line(line), None);
    assert!(!is_timeout_line(line));
    assert_eq!(classify_line(line), None);
    assert!(!is_timeout_line(""));
    assert!(!is_timeout_line("request timed"));
    assert!(!is_timeout_line("50% packet loss"));
}

#[test]
fn latency_comes_before_timeout() {
    let line = "4 packets transmitted, 0 received, 100% packet loss, time=3060 ms";
    assert!(is_timeout_line(line));
    match classify_line(line) {
        Some(Sample::Latency(latency)) => assert_eq!(latency.as_str(), "3060"),
        other => panic!("{:?}", other),
    }
}

#[test]
fn classify_latency_line() {
    match classify_line("64 bytes from 127.0.0.1: icmp_seq=1 ttl=64 time=0.031 ms") {
        Some(Sample::Latency(latency)) => {
            assert_eq!(latency.as_str().parse::<f64>().unwrap(), 0.031)
        }
        other => panic!("{:?}", other),
    }
}

#[test]
fn latency_from_text() {
    assert_eq!(Latency::from_text("12.3".to_string()).unwrap().as_str(), "12.3");
    assert_eq!(Latency::from_text("45".to_string()).unwrap().as_str(), "45");
    assert_eq!(Latency::from_text("45.".to_string()).unwrap().as_str(), "45.");
    assert_eq!(Latency::from_text("0".to_string()).unwrap().as_str(), "0");
    assert_eq!(Latency::from_text("".to_string()), None);
    assert_eq!(Latency::from_text(".5".to_string()), None);
    assert_eq!(Latency::from_text("1.2.3".to_string()), None);
    assert_eq!(Latency::from_text("12a".to_string()), None);
    assert_eq!(Latency::from_text("1e5".to_string()), None);
    assert_eq!(Latency::from_text("-1".to_string()), None);
    assert_eq!(Latency::from_text("1 ".to_string()), None);
    assert_eq!(Latency::from_text("\u{0661}".to_string()), None);
}

#[test]
fn decimal_text() {
    assert!(is_decimal_text(&vec!['1', '2', '.', '3']));
    assert!(is_decimal_text(&vec!['7']));
    assert!(is_decimal_text(&vec!['7', '.']));
    assert!(!is_decimal_text(&vec![]));
    assert!(!is_decimal_text(&vec!['.']));
    assert!(!is_decimal_text(&vec!['.', '7']));
    assert!(!is_decimal_text(&vec!['7', '.', '.']));
    assert!(!is_decimal_text(&vec!['7', '.', '1', 'x']));
}

fn group(text: &str) -> Capture {
    Capture::Group(text.to_string())
}

fn text_of(latency: Option<Latency>) -> Option<String> {
    latency.map(|l| l.as_str().to_string())
}

#[test]
fn decimal_capture_is_preferred() {
    assert_eq!(text_of(latency_from_captures(group("12.3"), group("12"))), Some("12.3".to_string()));
    assert_eq!(text_of(latency_from_captures(group("12.3"), Capture::NoMatch)), Some("12.3".to_string()));
}

#[test]
fn integer_capture_counts_without_a_decimal_match() {
    assert_eq!(text_of(latency_from_captures(Capture::NoMatch, group("45"))), Some("45".to_string()));
}

#[test]
fn captures_without_a_number_give_none() {
    assert_eq!(latency_from_captures(Capture::NoMatch, Capture::NoMatch), None);
    assert_eq!(latency_from_captures(Capture::Unset, group("45")), None);
    assert_eq!(latency_from_captures(Capture::NoMatch, Capture::Unset), None);
    assert_eq!(latency_from_captures(group("x"), group("45")), None);
    assert_eq!(latency_from_captures(Capture::NoMatch, group("x")), None);
}

#[test]
fn invalid_pattern_gives_none() {
    assert_eq!(latency_from_captures(Capture::Invalid, group("45")), None);
    assert_eq!(latency_from_captures(group("12.3"), Capture::Invalid), None);
    assert_eq!(latency_from_captures(Capture::Invalid, Capture::Invalid), None);
}
