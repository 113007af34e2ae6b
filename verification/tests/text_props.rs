use minimizer::common::{collect_output, create_command, is_output_broken};
use minimizer::data_trait::SaveSliceToFile;
use minimizer::settings::{get_temp_file, Settings};
use minimizer::strategy::common::Strategies;
use minimizer::text::{contains_str, replace_string, split_lines};

fn base_settings() -> Settings {
    Settings {
        input_file: String::from("in.txt"),
        output_file: String::from("out.txt"),
        attempts: 100,
        reset_attempts: false,
        command: String::from("grep -q BROKEN {}"),
        file_symbol: String::from("{}"),
        disable_file_name_escaping: false,
        broken_info: vec![String::from("BROKEN")],
        ignored_info: None,
        quiet: true,
        verbose: false,
        print_command_output: false,
        max_time: None,
        additional_command: None,
        strategy: Strategies::General,
    }
}

#[test]
fn replace_string_replaces_every_occurrence() {
    assert_eq!(replace_string("a{}b{}c", "{}", "X"), "aXbXc");
    assert_eq!(replace_string("nothing here", "{}", "X"), "nothing here");
    assert_eq!(replace_string("\"q\"", "\"", "'"), "'q'");
    assert_eq!(replace_string("aaa", "aa", "b"), "ba");
    assert_eq!(replace_string("abc", "", "X"), "abc");
}

#[test]
fn contains_str_finds_substrings() {
    assert!(contains_str("hello world", "lo w"));
    assert!(contains_str("hello", ""));
    assert!(!contains_str("hello", "world"));
    assert!(!contains_str("ab", "abc"));
    assert!(contains_str("abc", "abc"));
}

#[test]
fn temp_file_names_the_process() {
    assert_eq!(get_temp_file(0), "/tmp/minimizer_0");
    assert_eq!(get_temp_file(90210), "/tmp/minimizer_90210");
}

#[test]
fn split_lines_round_trip() {
    let lines = split_lines("x\nBAD\ny");
    assert_eq!(lines, vec!["x", "BAD", "y"]);
    let lines = split_lines("one");
    assert_eq!(lines, vec!["one"]);
    let lines = split_lines("a\n");
    assert_eq!(lines, vec!["a", ""]);
    let lines = split_lines("");
    assert_eq!(lines, vec![""]);
}

#[test]
fn serialization_per_mode() {
    let bytes: Vec<u8> = vec![1, 2, 3];
    assert_eq!(<u8 as SaveSliceToFile>::serialize_slice(&bytes), vec![1, 2, 3]);

    let chars: Vec<char> = "p\u{e9}\u{20ac}".chars().collect();
    assert_eq!(
        <char as SaveSliceToFile>::serialize_slice(&chars),
        "p\u{e9}\u{20ac}".as_bytes().to_vec()
    );

    let lines: Vec<String> = vec![String::from("x"), String::from("BAD"), String::from("y")];
    assert_eq!(<String as SaveSliceToFile>::serialize_slice(&lines), b"x\nBAD\ny".to_vec());

    let one: Vec<String> = vec![String::from("BAD")];
    assert_eq!(<String as SaveSliceToFile>::serialize_slice(&one), b"BAD".to_vec());
}

#[test]
fn collect_output_exact_format() {
    let all = collect_output(&b"out".to_vec(), &b"err".to_vec(), Some(0), None);
    assert_eq!(all, "out\nerr\n\n====== Status Some(0), Signal None");

    let all = collect_output(&Vec::new(), &Vec::new(), None, Some(9));
    assert_eq!(all, "\n\n\n====== Status None, Signal Some(9)");

    let all = collect_output(&b"x".to_vec(), &Vec::new(), Some(-7), None);
    assert_eq!(all, "x\n\n\n====== Status Some(-7), Signal None");
}

#[test]
fn classification_follows_the_markers() {
    let broken = vec![String::from("BROKEN"), String::from("panic")];
    // one broken marker present, no ignored ones: broken
    assert!(is_output_broken("a BROKEN b", &broken, &None));
    // no marker at all: not broken
    assert!(!is_output_broken("all fine", &broken, &None));
    // an ignored marker overrides
    let ignored = Some(vec![String::from("BROKEN")]);
    assert!(!is_output_broken("a BROKEN b", &broken, &ignored));
    // the ignored marker is absent: still broken
    assert!(is_output_broken("panic somewhere", &broken, &ignored));
}

#[test]
fn create_command_substitutes_the_file_symbol() {
    let settings = base_settings();
    assert_eq!(create_command(&settings, "/tmp/minimizer_1"), "grep -q BROKEN \"/tmp/minimizer_1\"");

    let mut settings = base_settings();
    settings.disable_file_name_escaping = true;
    assert_eq!(create_command(&settings, "/tmp/minimizer_1"), "grep -q BROKEN /tmp/minimizer_1");

    let mut settings = base_settings();
    settings.additional_command = Some(String::from("wc -c {}"));
    assert_eq!(
        create_command(&settings, "/tmp/t"),
        "grep -q BROKEN \"/tmp/t\"; wc -c \"/tmp/t\""
    );
}

#[test]
fn verify_cli() {
    // The configuration structure accepts the documented defaults.
    let settings = base_settings();
    assert_eq!(settings.file_symbol, "{}");
    assert!(!settings.reset_attempts);
    assert!(!settings.disable_file_name_escaping);
    assert!(settings.is_normal_message_visible() || settings.quiet);
    assert!(!settings.is_verbose_message_visible());
}
