use pacfiles::backup::{Backup, Kind};
use pacfiles::listing::{
    format_header, format_row, list_backups, listing_widths, modified_text, stat_failure,
    time_column, Timestamp, Widths,
};

fn record(package: &str, file: &str, pacfiles: &[&str]) -> Backup {
    Backup::new(package.into(), file.into(), pacfiles.iter().map(|p| p.to_string()).collect(), Kind::Pacnew)
        .unwrap()
}

#[test]
fn time_is_written_in_utc() {
    assert_eq!(modified_text(Some(Timestamp { secs: 0, nanos: 0 })), "Thu Jan  1 00:00:00 1970");
    assert_eq!(
        modified_text(Some(Timestamp { secs: 994_552_465, nanos: 999_999_999 })),
        "Sun Jul  8 00:34:25 2001"
    );
    assert_eq!(modified_text(Some(Timestamp { secs: -1, nanos: 0 })), "Wed Dec 31 23:59:59 1969");
    assert_eq!(modified_text(Some(Timestamp { secs: 1_700_000_000, nanos: 5 })), "Tue Nov 14 22:13:20 2023");
}

#[test]
fn time_that_is_missing_or_no_date_is_unknown() {
    assert_eq!(modified_text(None), "Unknown");
    assert_eq!(modified_text(Some(Timestamp { secs: i64::MAX, nanos: 0 })), "Unknown");
    assert_eq!(modified_text(Some(Timestamp { secs: 0, nanos: u32::MAX })), "Unknown");
}

#[test]
fn time_column_shows_what_was_written() {
    assert_eq!(time_column(Some("Thu Jan  1 00:00:00 1970".to_string())), "Thu Jan  1 00:00:00 1970");
    assert_eq!(time_column(Some(String::new())), "");
    assert_eq!(time_column(None), "Unknown");
}

#[test]
fn widths_are_at_least_those_of_the_headings() {
    assert_eq!(listing_widths(&Vec::new()), Widths { number: 1, package: 7, file: 4 });
    assert_eq!(
        listing_widths(&vec![record("a", "/f", &["/g"])]),
        Widths { number: 1, package: 7, file: 4 }
    );
}

#[test]
fn widths_grow_with_the_longest_texts() {
    let backups = vec![
        record("linux-firmware", "/etc/a", &["/etc/a.pacnew"]),
        record("b", "/etc/pacman.conf", &["/etc/pacman.conf.pacnew", "/etc/pacman.conf.pacnew.1"]),
    ];
    assert_eq!(listing_widths(&backups), Widths { number: 1, package: 14, file: 19 });
}

#[test]
fn widths_are_counted_in_bytes() {
    let backups = vec![record("päckage", "/etc/ä", &["/etc/ä.pacnew"])];
    assert_eq!(listing_widths(&backups), Widths { number: 1, package: 8, file: 14 });
}

#[test]
fn number_width_follows_the_last_record() {
    let nine: Vec<Backup> = (0..9).map(|_| record("p", "/f", &["/f.pacnew"])).collect();
    assert_eq!(listing_widths(&nine).number, 1);
    let mut more = nine;
    more.push(record("p", "/f", &["/f.pacnew"]));
    assert_eq!(listing_widths(&more).number, 2);
    let mut two: Vec<Backup> = (0..8).map(|_| record("p", "/f", &["/f.pacnew"])).collect();
    two.push(record("p", "/f", &["/f.pacnew", "/f.pacnew.1"]));
    assert_eq!(listing_widths(&two).number, 2);
}

#[test]
fn header_is_laid_out_in_columns() {
    assert_eq!(format_header(Widths { number: 1, package: 7, file: 4 }), "   Package  File  Modified");
    assert_eq!(
        format_header(Widths { number: 2, package: 10, file: 6 }),
        "    Package     File    Modified"
    );
    assert_eq!(format_header(Widths { number: 0, package: 0, file: 0 }), "  Package  File  Modified");
}

#[test]
fn row_is_laid_out_in_columns() {
    let b = record("pkg", "/etc/f", &["/etc/f.pacnew", "/etc/f.pacnew.2"]);
    assert_eq!(
        format_row(0, &b, "Unknown", Widths { number: 1, package: 7, file: 4 }),
        "1  pkg      /etc/f{2}  Unknown"
    );
    assert_eq!(
        format_row(6, &b, "then", Widths { number: 3, package: 2, file: 12 }),
        "007  pkg  /etc/f{2}     then"
    );
}

#[test]
fn row_pads_by_characters() {
    let b = record("päck", "/ä", &["/ä.pacnew"]);
    assert_eq!(
        format_row(0, &b, "t", Widths { number: 1, package: 6, file: 11 }),
        "1  päck    /ä.pacnew    t"
    );
}

#[test]
fn table_of_records() {
    let backups = vec![
        record("pacman", "/etc/pacman.conf", &["/etc/pacman.conf.pacnew"]),
        record("openssh", "/etc/ssh/sshd_config", &["/etc/ssh/sshd_config.pacnew", "/etc/ssh/sshd_config.pacnew.1"]),
    ];
    let listing = list_backups(&backups, &vec![Some(Timestamp { secs: 0, nanos: 0 }), None]);
    assert_eq!(listing.widths, Widths { number: 1, package: 7, file: 23 });
    assert_eq!(listing.header, "   Package  File                     Modified");
    assert_eq!(
        listing.rows,
        vec![
            "1  pacman   /etc/pacman.conf.pacnew  Thu Jan  1 00:00:00 1970",
            "2  openssh  /etc/ssh/sshd_config{1}  Unknown",
        ]
    );
}

#[test]
fn table_with_too_few_times() {
    let backups = vec![record("a", "/a", &["/a.pacnew"]), record("b", "/b", &["/b.pacnew"])];
    let listing = list_backups(&backups, &Vec::new());
    assert_eq!(listing.rows, vec!["1  a        /a.pacnew  Unknown", "2  b        /b.pacnew  Unknown"]);
}

#[test]
fn table_without_records() {
    let listing = list_backups(&Vec::new(), &Vec::new());
    assert_eq!(listing.header, "   Package  File  Modified");
    assert!(listing.rows.is_empty());
}

#[test]
fn numbers_are_filled_up_with_zeros() {
    let backups: Vec<Backup> = (0..12).map(|_| record("p", "/f", &["/f.pacnew"])).collect();
    let listing = list_backups(&backups, &Vec::new());
    assert_eq!(listing.rows[0], "01  p        /f.pacnew  Unknown");
    assert_eq!(listing.rows[11], "12  p        /f.pacnew  Unknown");
    assert_eq!(listing.header, "    Package  File       Modified");
}

#[test]
fn stat_failure_text() {
    assert_eq!(stat_failure("/etc/f.pacnew", "No such file or directory"), "failed to stat '/etc/f.pacnew': No such file or directory");
}
