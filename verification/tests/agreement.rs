use forest::compile::{split_tokens, unescape};
use forest::text::{chars_of, read_decimal, text_of};
use forest::value::ForestValue;

/// A small generator of numbers, the same on every run.
struct Generator(u64);

impl Generator {
    fn next(&mut self) -> u64 {
        self.0 = self.0.wrapping_mul(6364136223846793005).wrapping_add(1442695040888963407);
        self.0 >> 33
    }

    fn text(&mut self, alphabet: &[char], longest: u64) -> String {
        let len = self.next() % (longest + 1);
        (0..len).map(|_| alphabet[(self.next() % alphabet.len() as u64) as usize]).collect()
    }
}

fn std_unescaped(escaped: &str) -> String {
    escaped
        .replace("\\r", "\r")
        .replace("\\n", "\n")
        .replace("\\t", "\t")
        .replace("\\\\", "\\")
        .replace("\\\"", "\"")
        .replace("\\s", " ")
}

#[test]
fn many_texts_are_read_as_numbers_as_the_standard_parser_reads_them() {
    let mut g = Generator(1);
    let alphabet = ['+', '-', '0', '1', '2', '3', '7', '8', '9', ' ', 'a', '٣'];
    for _ in 0..20000 {
        let s = g.text(&alphabet, 22);
        assert_eq!(read_decimal(&chars_of(&s)), s.parse::<i64>().ok(), "{:?}", s);
    }
}

#[test]
fn many_numbers_are_displayed_as_the_standard_formatting_displays_them() {
    let mut g = Generator(2);
    for _ in 0..20000 {
        let n = (g.next() << 33 | g.next() << 2 | g.next() % 4) as i64;
        let n = n >> (g.next() % 64);
        assert_eq!(ForestValue::Int(n).to_text(), n.to_string());
        assert_eq!(read_decimal(&chars_of(&n.to_string())), Some(n));
    }
}

#[test]
fn many_texts_are_unescaped_as_repeated_replacing_unescapes_them() {
    let mut g = Generator(3);
    let alphabet = ['\\', '\\', 'r', 'n', 't', 's', '"', 'x', ' '];
    for _ in 0..20000 {
        let s = g.text(&alphabet, 12);
        assert_eq!(unescape(&s), std_unescaped(&s), "{:?}", s);
    }
}

#[test]
fn many_texts_are_split_as_the_standard_library_splits_them() {
    let mut g = Generator(4);
    let alphabet = [' ', ' ', '\t', '\n', '\r', '\u{b}', '\u{c}', '\u{85}', '\u{a0}', '\u{1680}',
        '\u{2003}', '\u{2028}', '\u{3000}', '\u{200b}', '\u{180e}', 'a', 'b', ':', ';', '"', 'é'];
    for _ in 0..20000 {
        let s = g.text(&alphabet, 16);
        let got: Vec<String> = split_tokens(&chars_of(&s)).iter().map(text_of).collect();
        let expected: Vec<String> = s.split_whitespace().map(|t| t.to_string()).collect();
        assert_eq!(got, expected, "{:?}", s);
    }
}

#[test]
fn characters_survive_the_way_to_a_vector_and_back() {
    for s in ["", "a", "héllo wörld", "\u{1F332} forest", "tab\tnew\nline"] {
        assert_eq!(text_of(&chars_of(s)), s);
    }
}
