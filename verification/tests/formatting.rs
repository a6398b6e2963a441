use listare::longformat;
use listare::posix::{Locale, LocaleError, WinSize};
use listare::{is_hidden_name, ListareError};

#[test]
fn decimal_width_counts_digits() {
    assert_eq!(longformat::decimal_width(0), 1);
    assert_eq!(longformat::decimal_width(9), 1);
    assert_eq!(longformat::decimal_width(10), 2);
    assert_eq!(longformat::decimal_width(99), 2);
    assert_eq!(longformat::decimal_width(100), 3);
    assert_eq!(longformat::decimal_width(12345), 5);
    assert_eq!(longformat::decimal_width(u64::MAX), 20);
}

#[test]
fn perms_string_spells_out_mode_bits() {
    assert_eq!(longformat::perms_string(0o755), "rwxr-xr-x");
    assert_eq!(longformat::perms_string(0o644), "rw-r--r--");
    assert_eq!(longformat::perms_string(0o000), "---------");
    assert_eq!(longformat::perms_string(0o777), "rwxrwxrwx");
    assert_eq!(longformat::perms_string(0o421), "r---w---x");
}

#[test]
fn file_type_char_tests_flags_in_order() {
    assert_eq!(
        longformat::file_type_char(true, false, false, false, false, false, false),
        'd'
    );
    assert_eq!(
        longformat::file_type_char(false, true, false, false, false, false, false),
        'l'
    );
    assert_eq!(
        longformat::file_type_char(false, false, true, false, false, false, false),
        'c'
    );
    assert_eq!(
        longformat::file_type_char(false, false, false, true, false, false, false),
        'b'
    );
    assert_eq!(
        longformat::file_type_char(false, false, false, false, true, false, false),
        'p'
    );
    assert_eq!(
        longformat::file_type_char(false, false, false, false, false, true, false),
        's'
    );
    assert_eq!(
        longformat::file_type_char(false, false, false, false, false, false, true),
        '-'
    );
    assert_eq!(
        longformat::file_type_char(false, false, false, false, false, false, false),
        '?'
    );
    // A directory flag wins over any other flag.
    assert_eq!(
        longformat::file_type_char(true, true, true, true, true, true, true),
        'd'
    );
}

#[test]
fn display_size_zeroes_directories() {
    assert_eq!(longformat::display_size(true, 4096), 0);
    assert_eq!(longformat::display_size(false, 4096), 4096);
}

#[test]
fn is_recent_uses_six_thirty_day_months() {
    let six_months: u64 = 60 * 60 * 24 * 30 * 6;
    let now: u64 = 1_700_000_000;
    assert!(longformat::is_recent(now, now));
    assert!(longformat::is_recent(now, now - six_months + 1));
    assert!(!longformat::is_recent(now, now - six_months));
    assert!(!longformat::is_recent(now, now - six_months - 1));
}

#[test]
fn longformat_widths_take_the_widest_of_each_column() {
    let sizes = vec![5, 123, 45];
    let nlinks = vec![1, 1, 12];
    let user_widths = vec![4, 8, 3];
    let group_widths = vec![5, 2, 2];
    let cfg = longformat::longformat_widths(&sizes, &nlinks, &user_widths, &group_widths);
    assert_eq!(cfg.size_width, 3);
    assert_eq!(cfg.nlinks_width, 2);
    assert_eq!(cfg.user_width, 8);
    assert_eq!(cfg.group_width, 5);
}

#[test]
fn longformat_widths_floor_at_one() {
    let cfg = longformat::longformat_widths(&vec![], &vec![], &vec![], &vec![]);
    assert_eq!(cfg.size_width, 1);
    assert_eq!(cfg.nlinks_width, 1);
    assert_eq!(cfg.user_width, 1);
    assert_eq!(cfg.group_width, 1);
}

#[test]
fn hidden_names_start_with_a_period() {
    assert!(is_hidden_name(b".bashrc"));
    assert!(is_hidden_name(b"."));
    assert!(!is_hidden_name(b"visible"));
    assert!(!is_hidden_name(b""));
    assert!(!is_hidden_name(b"ends.with.dots."));
}

#[test]
fn listare_error_messages() {
    assert_eq!(ListareError::Unknown.message(), "An unknown error occurred");
    assert_eq!(
        ListareError::Generic("disk on fire".to_string()).message(),
        "disk on fire"
    );
}

#[test]
fn locale_error_messages() {
    assert_eq!(LocaleError::NullByte.message(), "Input contains a null byte");
    assert_eq!(LocaleError::LocaleError.message(), "Could not set locale");
    assert_eq!(
        LocaleError::ConversionError.message(),
        "Could not convert locale to string"
    );
}

#[test]
fn winsize_carries_rows_and_cols() {
    let w = WinSize { rows: 24, cols: 80 };
    assert_eq!(w.rows, 24);
    assert_eq!(w.cols, 80);
}

#[test]
fn locale_names() {
    assert_eq!(Locale::UserPreferred.name(), "");
    assert_eq!(Locale::Named("C.UTF-8").name(), "C.UTF-8");
}
