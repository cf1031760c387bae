use oxidite::commands::{can_show, is_confirmation, mask_env_value, secret_name};
use oxidite::job::{JobStatus, JobWrapper};
use oxidite::text::{chars_of, contains, is_space_char, matches_at, scan_to, trim_bounds};

fn chars(text: &str) -> Vec<char> {
    text.chars().collect()
}

#[test]
fn secrets_are_masked() {
    assert_eq!(mask_env_value("JWT_SECRET", "hunter2"), "***");
    assert_eq!(mask_env_value("DB_PASSWORD", ""), "***");
    assert_eq!(mask_env_value("MY_SECRET_KEY", &"x".repeat(100)), "***");
    assert!(secret_name("XPASSWORDX"));
    assert!(!secret_name("jwt_secret"));
    assert!(!secret_name("SECRE"));
    assert!(!secret_name(""));
}

#[test]
fn long_values_are_cut_after_27_bytes() {
    let value = "postgres://user@localhost:5432/database";
    assert_eq!(mask_env_value("DATABASE_URL", value), "postgres://user@localhost:5...");
    let thirty_one = "0123456789012345678901234567890";
    assert_eq!(mask_env_value("X", thirty_one), "012345678901234567890123456...");
}

#[test]
fn values_of_up_to_30_bytes_are_shown_in_full() {
    let thirty = "012345678901234567890123456789";
    assert_eq!(mask_env_value("X", thirty), thirty);
    assert_eq!(mask_env_value("REDIS_URL", "redis://localhost"), "redis://localhost");
    assert_eq!(mask_env_value("EMPTY", ""), "");
}

#[test]
fn length_is_counted_in_bytes() {
    let value = "\u{e9}".repeat(16);
    assert_eq!(value.len(), 32);
    assert!(!can_show("X", &value));
    let value = format!("a{}", "\u{e9}".repeat(15));
    assert_eq!(value.len(), 31);
    assert!(can_show("X", &value));
    assert_eq!(mask_env_value("X", &value), format!("a{}...", "\u{e9}".repeat(13)));
    assert!(can_show("A_SECRET", &"\u{e9}".repeat(16)));
    assert!(can_show("X", &"\u{e9}".repeat(15)));
}

#[test]
fn confirmation_is_a_single_y() {
    assert!(is_confirmation("y"));
    assert!(is_confirmation("Y"));
    assert!(is_confirmation("  y\n"));
    assert!(is_confirmation("\tY \r\n"));
    assert!(!is_confirmation(""));
    assert!(!is_confirmation("\n"));
    assert!(!is_confirmation("n"));
    assert!(!is_confirmation("yes"));
    assert!(!is_confirmation("y y"));
    assert!(!is_confirmation("\u{ff59}"));
}

#[test]
fn confirmation_agrees_with_trimming_and_lowercasing() {
    for answer in ["y", "Y", " y ", "yes", "", "N", "\u{2003}Y\u{2003}", "yY", "\u{178}"] {
        assert_eq!(is_confirmation(answer), answer.trim().to_lowercase() == "y", "{:?}", answer);
    }
}

#[test]
fn white_space_is_what_std_calls_white_space() {
    for code in 0u32..0x3100 {
        if let Some(c) = char::from_u32(code) {
            assert_eq!(is_space_char(c), c.is_whitespace(), "U+{:04X}", code);
        }
    }
    assert!(!is_space_char('\u{feff}'));
    assert!(!is_space_char('\u{10ffff}'));
}

#[test]
fn text_helpers_find_their_marks() {
    assert_eq!(chars_of("a\u{e9}\u{1f600}"), vec!['a', '\u{e9}', '\u{1f600}']);
    let text = chars("  ab;cd  ");
    assert_eq!(scan_to(&text, 0, text.len(), ';'), 4);
    assert_eq!(scan_to(&text, 5, text.len(), ';'), text.len());
    assert_eq!(scan_to(&text, 4, 4, ';'), 4);
    assert_eq!(trim_bounds(&text, 0, text.len()), (2, 7));
    assert_eq!(trim_bounds(&text, 0, 2), (2, 2));
    assert!(matches_at(&text, &chars("ab"), 2));
    assert!(!matches_at(&text, &chars("ab"), 3));
    assert!(contains(&text, &chars("b;c")));
    assert!(contains(&text, &chars("")));
    assert!(contains(&text, &chars("d  ")));
    assert!(!contains(&text, &chars("d   ")));
    assert!(!contains(&chars(""), &chars("x")));
    assert!(contains(&chars(""), &chars("")));
}

#[test]
fn summary_shows_the_last_error_or_unknown() {
    let mut job = JobWrapper::assemble(
        "id-9".to_string(),
        "mailer".to_string(),
        serde_json::Value::Null,
        3,
        0,
        0,
    );
    job.attempts = 3;
    job.status = JobStatus::DeadLetter;
    let summary = job.summary();
    assert_eq!(summary.id, "id-9");
    assert_eq!(summary.name, "mailer");
    assert_eq!(summary.attempts, 3);
    assert_eq!(summary.last_error, "Unknown");
    job.error = Some("smtp down".to_string());
    assert_eq!(job.summary().last_error, "smtp down");
}
