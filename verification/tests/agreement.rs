use llmpad::lines::LineBuffer;
use llmpad::text::{chars_of, decimal_text, precedes, same_text, strip_suffixes};

/// Texts over a small alphabet, the same on every run.
fn generated(alphabet: &str, count: usize, longest: u64) -> Vec<String> {
    let letters: Vec<char> = alphabet.chars().collect();
    let mut state: u64 = 0x9E3779B97F4A7C15;
    let mut texts = Vec::new();
    for _ in 0..count {
        state = state.wrapping_mul(6364136223846793005).wrapping_add(1442695040888963407);
        let len = (state >> 33) % (longest + 1);
        let mut text = String::new();
        for _ in 0..len {
            state = state.wrapping_mul(6364136223846793005).wrapping_add(1442695040888963407);
            text.push(letters[((state >> 33) % letters.len() as u64) as usize]);
        }
        texts.push(text);
    }
    texts
}

#[test]
fn every_number_is_written_as_the_standard_library_writes_it() {
    for n in 0..=u16::MAX {
        assert_eq!(decimal_text(n), n.to_string());
    }
}

#[test]
fn order_of_text_is_the_order_of_strings() {
    let texts = generated("ab\u{e9}\u{10348} 1", 300, 5);
    for a in &texts {
        for b in &texts {
            assert_eq!(precedes(a, b), a <= b);
            assert_eq!(same_text(a, b), a == b);
        }
    }
}

#[test]
fn characters_are_read_in_order() {
    for text in generated("ab\u{e9}\u{10348}\n", 200, 8) {
        assert_eq!(chars_of(&text), text.chars().collect::<Vec<char>>());
    }
}

#[test]
fn stripping_agrees_with_the_standard_library() {
    for text in generated("/v1a", 5000, 9) {
        assert_eq!(strip_suffixes(&text, "/"), text.trim_end_matches('/'));
        assert_eq!(strip_suffixes(&text, "/v1"), text.trim_end_matches("/v1"));
        assert_eq!(strip_suffixes(&text, "1/"), text.trim_end_matches("1/"));
    }
}

#[test]
fn lines_are_what_stands_between_the_characters_that_end_lines() {
    for text in generated("ab\n\r", 5000, 12) {
        let mut expected: Vec<String> = text
            .split(|c| c == '\n' || c == '\r')
            .filter(|piece| !piece.is_empty())
            .map(|piece| piece.to_string())
            .collect();
        let ends_open = !text.ends_with('\n') && !text.ends_with('\r') && !text.is_empty();
        let last = if ends_open { expected.pop() } else { None };
        let mut buffer = LineBuffer::new();
        assert_eq!(buffer.push_str(&text), expected);
        assert_eq!(buffer.finish(), last);
    }
}

#[test]
fn any_cut_in_three_gives_the_lines_of_the_whole() {
    for text in generated("ab\n\r", 300, 9) {
        let mut whole = LineBuffer::new();
        let mut expected = whole.push_str(&text);
        expected.extend(whole.finish());
        for first in 0..=text.len() {
            for second in first..=text.len() {
                let mut buffer = LineBuffer::new();
                let mut got = buffer.push_str(&text[..first]);
                got.extend(buffer.push_str(&text[first..second]));
                got.extend(buffer.push_str(&text[second..]));
                got.extend(buffer.finish());
                assert_eq!(got, expected);
            }
        }
    }
}
