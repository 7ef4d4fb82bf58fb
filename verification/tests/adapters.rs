use naru::archive::formats::{ar, cab, cpio, fat, tar, zip};
use naru::archive::{modified_at, EntryType, Metadata};
use naru::extract::{decide, is_names_only, match_target, outcomes, should_extract};
use naru::format::str_equals;
use naru::list::Totals;

#[test]
fn time_stamps_of_zero_count_as_unknown() {
    assert_eq!(modified_at(0), None);
    assert_eq!(modified_at(1), Some(1));
    assert_eq!(modified_at(1_600_000_000), Some(1_600_000_000));
    assert_eq!(modified_at(i64::MAX as u64), Some(i64::MAX));
    assert_eq!(modified_at(i64::MAX as u64 + 1), None);
    assert_eq!(modified_at(u64::MAX), None);
}

#[test]
fn ar_members_are_files() {
    let metadata = ar::metadata(1234, 1_500_000_000, 0o100644);
    assert_eq!(metadata.entry_type, EntryType::File);
    assert_eq!(metadata.size, 1234);
    assert_eq!(metadata.modified, Some(1_500_000_000));
    assert_eq!(metadata.unix_mode, Some(0o100644));
    assert_eq!(metadata.compressed_size, None);
    assert!(!metadata.read_only && !metadata.hidden);
    assert_eq!(ar::metadata(0, 0, 0).modified, None);
}

#[test]
fn cab_entries_are_files() {
    let metadata = cab::metadata(77, Some(5));
    assert_eq!(
        metadata,
        Metadata {
            entry_type: EntryType::File,
            size: 77,
            compressed_size: None,
            modified: Some(5),
            read_only: false,
            hidden: false,
            unix_mode: None,
        }
    );
    assert_eq!(cab::metadata(u32::MAX, None).size, u32::MAX as u64);
}

#[test]
fn cpio_modes_tell_files_from_directories() {
    let file = cpio::metadata(0o100644, 12, 99);
    assert_eq!(file.entry_type, EntryType::File);
    assert_eq!(file.size, 12);
    assert_eq!(file.modified, Some(99));
    assert_eq!(file.unix_mode, Some(0o644));
    let dir = cpio::metadata(0o040755, 0, 0);
    assert_eq!(dir.entry_type, EntryType::Directory);
    assert!(dir.is_dir());
    assert_eq!(dir.modified, None);
    assert_eq!(dir.unix_mode, Some(0o755));
    // Links, devices and the like are not supported.
    assert_eq!(cpio::metadata(0o120777, 0, 1).entry_type, EntryType::Unsupported);
    assert_eq!(cpio::metadata(0o020600, 0, 1).entry_type, EntryType::Unsupported);
    assert_eq!(cpio::metadata(0, 0, 1).entry_type, EntryType::Unsupported);
    // Bits above the permissions are dropped from the mode.
    assert_eq!(cpio::metadata(0o104755, 0, 1).unix_mode, Some(0o755));
}

#[test]
fn the_cpio_trailer_is_known_by_its_name() {
    assert!(cpio::is_trailer("TRAILER!!!"));
    assert!(!cpio::is_trailer("TRAILER!!"));
    assert!(!cpio::is_trailer("trailer!!!"));
    assert!(!cpio::is_trailer("TRAILER!!!!"));
    assert!(!cpio::is_trailer(""));
}

#[test]
fn fat_entries_carry_their_flags() {
    let metadata = fat::metadata(false, 4096, true, false);
    assert_eq!(metadata.entry_type, EntryType::File);
    assert_eq!(metadata.size, 4096);
    assert!(metadata.read_only);
    assert!(!metadata.hidden);
    assert_eq!(metadata.modified, None);
    assert_eq!(metadata.unix_mode, None);
    let metadata = fat::metadata(true, 0, false, true);
    assert!(metadata.is_dir());
    assert!(metadata.hidden);
    assert!(!metadata.read_only);
}

#[test]
fn tar_type_flags_are_mapped() {
    assert_eq!(tar::entry_type(b'0'), EntryType::File);
    assert_eq!(tar::entry_type(0), EntryType::File);
    assert_eq!(tar::entry_type(b'7'), EntryType::File);
    assert_eq!(tar::entry_type(b'5'), EntryType::Directory);
    assert_eq!(tar::entry_type(b'2'), EntryType::SymbolicLink);
    for flag in [b'1', b'3', b'4', b'6', b'x', b'g', b'L', b'K', b'S', b'?'] {
        assert_eq!(tar::entry_type(flag), EntryType::Unsupported);
    }
}

#[test]
fn tar_headers_that_cannot_be_read_leave_gaps() {
    let metadata = tar::metadata(b'0', Some(10), Some(1_000), Some(0o600));
    assert_eq!(metadata.entry_type, EntryType::File);
    assert_eq!(metadata.size, 10);
    assert_eq!(metadata.modified, Some(1_000));
    assert_eq!(metadata.unix_mode, Some(0o600));
    let metadata = tar::metadata(b'5', None, None, None);
    assert!(metadata.is_dir());
    assert_eq!(metadata.size, 0);
    assert_eq!(metadata.modified, None);
    assert_eq!(metadata.unix_mode, None);
    // Unlike elsewhere, a time stamp of zero is a time stamp.
    assert_eq!(tar::metadata(b'0', None, Some(0), None).modified, Some(0));
    assert_eq!(tar::metadata(b'0', None, Some(u64::MAX), None).modified, None);
}

#[test]
fn zip_entries_know_their_compressed_size() {
    let metadata = zip::metadata(false, 100, 40, Some(86_400));
    assert_eq!(metadata.entry_type, EntryType::File);
    assert_eq!(metadata.size, 100);
    assert_eq!(metadata.compressed_size, Some(40));
    assert_eq!(metadata.modified, Some(86_400));
    assert!(zip::metadata(true, 0, 0, None).is_dir());
}

#[test]
fn strings_are_compared_character_by_character() {
    assert!(str_equals("", ""));
    assert!(str_equals("abc", "abc"));
    assert!(str_equals("\u{e9}t\u{e9}", "\u{e9}t\u{e9}"));
    assert!(!str_equals("abc", "abd"));
    assert!(!str_equals("abc", "ab"));
    assert!(!str_equals("", "a"));
}

#[test]
fn a_slash_inside_a_pattern_makes_it_a_pattern_of_paths() {
    assert!(is_names_only("*.txt"));
    assert!(is_names_only("docs/"));
    assert!(is_names_only(""));
    assert!(is_names_only("/"));
    assert!(!is_names_only("docs/*.txt"));
    assert!(!is_names_only("/etc"));
    assert!(!is_names_only("a/b/"));
    assert!(!is_names_only("//"));
}

#[test]
fn patterns_of_names_are_held_against_the_file_name() {
    assert_eq!(match_target("*.txt", "a/b/c.txt", Some("c.txt")), Some("c.txt"));
    assert_eq!(match_target("*.txt", "..", None), None);
    assert_eq!(match_target("a/*.txt", "a/b/c.txt", Some("c.txt")), Some("a/b/c.txt"));
    assert_eq!(match_target("a/*.txt", "..", None), Some(".."));
}

#[test]
fn an_entry_is_chosen_if_some_pattern_matched() {
    assert!(decide(&vec![]));
    assert!(decide(&vec![Some(true)]));
    assert!(decide(&vec![Some(false), None, Some(true)]));
    assert!(decide(&vec![Some(true), Some(false)]));
    assert!(!decide(&vec![Some(false)]));
    assert!(!decide(&vec![None]));
    assert!(!decide(&vec![Some(false), None, Some(false)]));
}

#[test]
fn every_pattern_has_its_outcome() {
    let patterns = vec![
        "*.txt".to_string(),
        "src/*".to_string(),
        "[".to_string(),
        "*.md".to_string(),
    ];
    assert_eq!(
        outcomes(&patterns, "src/readme.txt", Some("readme.txt")),
        vec![Some(true), Some(true), None, Some(false)]
    );
    // A pattern of names has nothing to be held against where the path has
    // no name.
    assert_eq!(
        outcomes(&patterns, "src/..", None),
        vec![None, Some(true), None, None]
    );
    assert_eq!(outcomes(&Vec::new(), "x", Some("x")), Vec::<Option<bool>>::new());
}

#[test]
fn everything_is_extracted_unless_patterns_are_given() {
    assert!(should_extract(&Vec::new(), "any/path", Some("path")));
    assert!(should_extract(&Vec::new(), "..", None));
}

#[test]
fn an_entry_is_extracted_if_one_pattern_matches() {
    let patterns = vec!["*.txt".to_string(), "src/*.rs".to_string()];
    assert!(should_extract(&patterns, "docs/readme.txt", Some("readme.txt")));
    assert!(should_extract(&patterns, "src/main.rs", Some("main.rs")));
    assert!(!should_extract(&patterns, "lib/main.rs", Some("main.rs")));
    assert!(!should_extract(&patterns, "docs/readme.md", Some("readme.md")));
    // A pattern of names has nothing to match where the path has no name.
    assert!(!should_extract(&vec!["*".to_string()], "..", None));
    assert!(should_extract(&vec!["*/*".to_string()], "a/..", None));
    // A pattern that is not valid matches nothing.
    assert!(!should_extract(&vec!["[".to_string()], "[", Some("[")));
}

#[test]
fn a_listing_counts_files_directories_and_bytes() {
    let mut totals = Totals::new();
    assert_eq!(totals, Totals { files: 0, dirs: 0, bytes: 0 });
    let mut file = Metadata::new(EntryType::File);
    file.size = 100;
    let mut dir = Metadata::new(EntryType::Directory);
    dir.size = 4096;
    let mut link = Metadata::new(EntryType::SymbolicLink);
    link.size = 7;
    totals.record(&file);
    totals.record(&dir);
    totals.record(&file);
    totals.record(&link);
    assert_eq!(totals, Totals { files: 3, dirs: 1, bytes: 207 });
}

#[test]
fn the_counts_of_a_listing_stop_at_the_top() {
    let mut totals = Totals { files: u64::MAX, dirs: u64::MAX, bytes: u64::MAX - 5 };
    let mut file = Metadata::new(EntryType::File);
    file.size = 10;
    totals.record(&file);
    totals.record(&Metadata::new(EntryType::Directory));
    assert_eq!(totals, Totals { files: u64::MAX, dirs: u64::MAX, bytes: u64::MAX });
}
