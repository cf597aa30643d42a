use rustfmt_sender::parser::{parse_content, parse_line, ParsedLine};
use rustfmt_sender::sender::FileRead;
use rustfmt_sender::text::{char_is_whitespace, chars_of};
use rustfmt_sender::rustfmtSender;
use std::collections::HashMap;

fn pair(key: &str, value: &str) -> ParsedLine {
    ParsedLine::Pair { key: key.to_string(), value: value.to_string() }
}

/// The format written with the string methods of the standard library.
fn with_std(content: &str) -> HashMap<String, String> {
    let mut variables = HashMap::new();
    for line in content.lines() {
        let line = line.trim();
        if line.is_empty() || line.starts_with('#') {
            continue;
        }
        if let Some((key, value)) = line.split_once('=') {
            let key = key.trim().to_string();
            let value = value.trim().to_string();
            if !key.is_empty() {
                variables.insert(key, value);
            }
        }
    }
    variables
}

fn assert_same(content: &str) {
    let expected = with_std(content);
    let parsed = parse_content(content);
    assert_eq!(parsed.len(), expected.len(), "number of entries for {:?}", content);
    for (key, value) in &expected {
        assert_eq!(parsed.get(key), Some(value), "value of {:?} in {:?}", key, content);
    }
}

#[test]
fn test_read_rustfmt_file() {
    let content = "KEY1=value1\nKEY2=value2\n# Comment\n\nKEY3=value3";

    let sender = rustfmtSender::new_default().unwrap();
    let rustfmt_data = sender
        .read_rustfmt_file("variables.rustfmt", FileRead::Content(content.to_string()))
        .unwrap();

    assert_eq!(rustfmt_data.variables.len(), 3);
    assert_eq!(rustfmt_data.variables.get("KEY1"), Some(&"value1".to_string()));
    assert_eq!(rustfmt_data.variables.get("KEY2"), Some(&"value2".to_string()));
    assert_eq!(rustfmt_data.variables.get("KEY3"), Some(&"value3".to_string()));
}

#[test]
fn well_formed_lines_all_count() {
    let content = "\n# first\nA=1\n\n  B = two words \n#C=3\nD=\n\n# last\nE=x=y\n";
    let vars = parse_content(content);
    assert_eq!(vars.len(), 4);
    assert_eq!(vars.get("A"), Some(&"1".to_string()));
    assert_eq!(vars.get("B"), Some(&"two words".to_string()));
    assert_eq!(vars.get("D"), Some(&"".to_string()));
    assert_eq!(vars.get("E"), Some(&"x=y".to_string()));
    assert_eq!(vars.get("C"), None);
    assert_eq!(vars.get("#C"), None);
}

#[test]
fn duplicate_key_takes_the_last_value() {
    let vars = parse_content("K=1\nother=x\nK=2");
    assert_eq!(vars.len(), 2);
    assert_eq!(vars.get("K"), Some(&"2".to_string()));
    assert_eq!(vars.get("other"), Some(&"x".to_string()));
}

#[test]
fn line_without_equals_adds_nothing() {
    assert_eq!(parse_line("hello world"), ParsedLine::Malformed);
    let with = parse_content("A=1\nhello world\nB=2");
    let without = parse_content("A=1\nB=2");
    assert_eq!(with.len(), 2);
    assert!(with == without);
    assert!(parse_content("hello world").is_empty());
}

#[test]
fn empty_text_has_no_variables() {
    assert!(parse_content("").is_empty());
    assert_eq!(parse_content("").len(), 0);
    assert!(parse_content("\n\n\n").is_empty());
    assert!(parse_content("   \n\t\n").is_empty());
}

#[test]
fn blank_lines_and_comments_are_ignored() {
    assert_eq!(parse_line(""), ParsedLine::Ignored);
    assert_eq!(parse_line("   \t "), ParsedLine::Ignored);
    assert_eq!(parse_line("# a comment"), ParsedLine::Ignored);
    assert_eq!(parse_line("   # indented comment"), ParsedLine::Ignored);
    assert_eq!(parse_line("#KEY=value"), ParsedLine::Ignored);
    assert_eq!(parse_line("#"), ParsedLine::Ignored);
}

#[test]
fn assignment_is_split_at_the_first_equals() {
    assert_eq!(parse_line("KEY=value"), pair("KEY", "value"));
    assert_eq!(parse_line("KEY=a=b=c"), pair("KEY", "a=b=c"));
    assert_eq!(parse_line("KEY=="), pair("KEY", "="));
    assert_eq!(parse_line("URL=http://host/path?x=1"), pair("URL", "http://host/path?x=1"));
}

#[test]
fn key_and_value_are_trimmed() {
    assert_eq!(parse_line("  KEY  =  value  "), pair("KEY", "value"));
    assert_eq!(parse_line("\tKEY\t=\tvalue\t"), pair("KEY", "value"));
    assert_eq!(parse_line("KEY = two  words"), pair("KEY", "two  words"));
    assert_eq!(parse_line("a b = c"), pair("a b", "c"));
    assert_eq!(parse_line("KEY=value # no comment"), pair("KEY", "value # no comment"));
    assert_eq!(parse_line("KEY=\"quoted\""), pair("KEY", "\"quoted\""));
}

#[test]
fn empty_value_is_kept_and_empty_key_is_dropped() {
    assert_eq!(parse_line("KEY="), pair("KEY", ""));
    assert_eq!(parse_line("KEY=   "), pair("KEY", ""));
    assert_eq!(parse_line("=value"), ParsedLine::Malformed);
    assert_eq!(parse_line("   =value"), ParsedLine::Malformed);
    assert_eq!(parse_line("="), ParsedLine::Malformed);
    let vars = parse_content("=value\nKEY=\n");
    assert_eq!(vars.len(), 1);
    assert_eq!(vars.get("KEY"), Some(&String::new()));
    assert_eq!(vars.get(""), None);
}

#[test]
fn unicode_whitespace_is_trimmed() {
    assert_eq!(parse_line("\u{a0}KEY\u{2003}=\u{3000}value\u{85}"), pair("KEY", "value"));
    assert_eq!(parse_line("\u{2028}"), ParsedLine::Ignored);
    assert_eq!(parse_line("K\u{a0}K=v\u{a0}v"), pair("K\u{a0}K", "v\u{a0}v"));
    assert_eq!(parse_line("\u{200b}KEY=value"), pair("\u{200b}KEY", "value"));
    assert_eq!(parse_line("clé=värde ✓"), pair("clé", "värde ✓"));
}

#[test]
fn carriage_returns_end_lines_with_line_feeds_only() {
    let vars = parse_content("A=1\r\nB=2\r\n\r\n# c\r\nC=3\r\n");
    assert_eq!(vars.len(), 3);
    assert_eq!(vars.get("A"), Some(&"1".to_string()));
    assert_eq!(vars.get("B"), Some(&"2".to_string()));
    assert_eq!(vars.get("C"), Some(&"3".to_string()));
    let joined = parse_content("A=1\rB=2");
    assert_eq!(joined.len(), 1);
    assert_eq!(joined.get("A"), Some(&"1\rB=2".to_string()));
}

#[test]
fn a_line_is_read_whole_by_parse_line() {
    assert_eq!(parse_line("A=1\nB=2"), pair("A", "1\nB=2"));
    assert_eq!(parse_line("\nA=1\n"), pair("A", "1"));
}

#[test]
fn whitespace_is_what_the_standard_library_calls_whitespace() {
    let mut code: u32 = 0;
    let mut seen: u32 = 0;
    while code <= 0x10FFFF {
        if let Some(c) = char::from_u32(code) {
            assert_eq!(char_is_whitespace(c), c.is_whitespace(), "U+{:04X}", code);
            if char_is_whitespace(c) {
                seen += 1;
            }
        }
        code += 1;
    }
    assert_eq!(seen, 25);
}

#[test]
fn chars_of_gives_every_character() {
    assert_eq!(chars_of(""), Vec::<char>::new());
    assert_eq!(chars_of("a=b"), vec!['a', '=', 'b']);
    assert_eq!(chars_of("é✓\n"), vec!['é', '✓', '\n']);
}

#[test]
fn agrees_with_the_standard_library_on_chosen_texts() {
    let texts = [
        "",
        "\n",
        "A=1",
        "A=1\n",
        "A=1\n\n",
        "\nA=1",
        "A=1\nA=2\nA=3",
        "A=1\r\nB=2\r\n",
        "A=1\rB=2\nC=3",
        "  A  =  1  \n\tB\t=\t2\t",
        "# comment\n#A=1\n # B=2\nC=3 # tail",
        "=\n==\n=a\na=\n = \n",
        "no equals\nA=1\nanother one",
        "A = b = c = d",
        "\u{a0}A\u{a0}=\u{a0}1\u{a0}\n\u{3000}B=2\u{2029}C=3",
        "A=1\u{2028}B=2\nC=3\u{85}",
        "\u{feff}A=1\nB=2",
        "KEY=value with spaces\nKEY2=\"quoted value\"\nEMPTY=\n",
        "a=1\nb=2\na=3\nb=4\nc=5\na=6",
        "\r\n\r\n\r\n",
        "\r",
        "#",
        "x",
    ];
    for text in texts {
        assert_same(text);
    }
}

#[test]
fn agrees_with_the_standard_library_on_all_short_texts() {
    let alphabet = ['a', 'b', '=', '#', ' ', '\n', '\r', '\u{a0}'];
    let mut count = 0u32;
    for length in 0..=5usize {
        let mut indices = vec![0usize; length];
        loop {
            let text: String = indices.iter().map(|&i| alphabet[i]).collect();
            assert_same(&text);
            count += 1;
            let mut position = 0;
            while position < length {
                indices[position] += 1;
                if indices[position] < alphabet.len() {
                    break;
                }
                indices[position] = 0;
                position += 1;
            }
            if position == length {
                break;
            }
        }
    }
    assert_eq!(count, 1 + 8 + 64 + 512 + 4096 + 32768);
}
