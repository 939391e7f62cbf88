use regex::Regex;
use srtshift::timestamp::parse_timestamp;

/// What the timestamp grammar says as a regular expression over the whole
/// text, and the milliseconds counted from its groups.
fn by_pattern(pattern: &Regex, text: &str) -> Option<i64> {
    let groups = pattern.captures(text)?;
    let field = |i: usize| groups[i].parse::<i64>().unwrap();
    let sign = if &groups[1] == "-" { -1 } else { 1 };
    let total = 60 * 60 * 1000 * field(2) + 60 * 1000 * field(3) + 1000 * field(4) + field(5);
    Some(sign * total)
}

fn variations(base: &str, alphabet: &[char]) -> Vec<String> {
    let chars: Vec<char> = base.chars().collect();
    let mut out = vec![base.to_string()];
    for at in 0..=chars.len() {
        for &c in alphabet {
            let mut inserted = chars.clone();
            inserted.insert(at, c);
            out.push(inserted.into_iter().collect());
        }
        if at < chars.len() {
            for &c in alphabet {
                let mut replaced = chars.clone();
                replaced[at] = c;
                out.push(replaced.into_iter().collect());
            }
            let mut removed = chars.clone();
            removed.remove(at);
            out.push(removed.into_iter().collect());
        }
    }
    out
}

#[test]
fn agrees_with_the_grammar_as_a_regular_expression() {
    let pattern = Regex::new(r"^([+-]?)([0-9]{2}):([0-9]{2}):([0-9]{2}),([0-9]{3})$").unwrap();
    let alphabet = [
        '0', '1', '5', '9', '+', '-', ':', ',', '.', ';', ' ', '\n', '/', 'a', 'Z', '\u{0665}',
        '\u{ff11}', '\u{2212}',
    ];
    let bases = [
        "00:00:00,000",
        "01:02:03,456",
        "-01:02:03,456",
        "+12:34:56,789",
        "99:99:99,999",
        "-99:99:99,999",
        "",
        "-",
        "01:02:03",
    ];
    let mut accepted = 0;
    let mut refused = 0;
    for base in bases {
        for text in variations(base, &alphabet) {
            let parsed = parse_timestamp(&text).map(|d| d.msecs());
            assert_eq!(parsed, by_pattern(&pattern, &text), "on {:?}", text);
            if parsed.is_some() {
                accepted += 1;
            } else {
                refused += 1;
            }
        }
    }
    assert!(accepted > 100);
    assert!(refused > 1000);
}
