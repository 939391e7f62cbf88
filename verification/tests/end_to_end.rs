use srtshift::shift::shift_entries;
use srtshift::srt::{parse_srt, srt_data};
use srtshift::timestamp::{cutoff_point, parse_timestamp};

const INPUT: &str = "1\n00:00:01,000 --> 00:00:02,000\nHi\n\n2\n00:00:05,000 --> 00:00:06,000\nBye\n\n";

fn run(content: &str, shift: &str, cutafter: Option<&str>) -> String {
    let delta = parse_timestamp(shift).unwrap();
    let end = cutoff_point(cutafter).unwrap();
    let entries = parse_srt(content).unwrap();
    let kept = shift_entries(entries, delta, end).unwrap();
    String::from_utf8(srt_data(kept).unwrap()).unwrap()
}

#[test]
fn shift_back_with_cutoff_drops_both_entries() {
    assert_eq!(run(INPUT, "-00:00:01,500", Some("00:00:05,500")), "");
}

#[test]
fn shift_forward_without_cutoff_keeps_both_entries() {
    let expected =
        "1\n00:00:01,500 --> 00:00:02,500\nHi\n\n2\n00:00:05,500 --> 00:00:06,500\nBye\n\n";
    assert_eq!(run(INPUT, "+00:00:00,500", Some("99:99:99,999")), expected);
    assert_eq!(run(INPUT, "+00:00:00,500", None), expected);
}

#[test]
fn zero_shift_without_cutoff_writes_the_input_again() {
    assert_eq!(run(INPUT, "00:00:00,000", None), INPUT);
}

#[test]
fn entries_are_numbered_anew_after_a_drop() {
    assert_eq!(
        run(INPUT, "-00:00:02,000", None),
        "1\n00:00:03,000 --> 00:00:04,000\nBye\n\n"
    );
    assert_eq!(
        run(INPUT, "00:00:00,000", Some("00:00:06,000")),
        "1\n00:00:01,000 --> 00:00:02,000\nHi\n\n"
    );
}

#[test]
fn entry_past_the_greatest_timestamp_is_dropped_without_cutoff() {
    let content =
        "1\n100:40:39,000 --> 100:40:39,999\nlate\n\n2\n00:00:01,000 --> 100:40:39,998\nlong\n";
    assert_eq!(
        run(content, "00:00:00,000", None),
        "1\n00:00:01,000 --> 100:40:39,998\nlong\n\n"
    );
}
