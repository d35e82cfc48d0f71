//! The extraction pipeline exercised on concrete index documents.

use zomboid_locator::errors::ExtractionError;
use zomboid_locator::errors::ResolutionError;
use zomboid_locator::locate::confirm_app_dir;
use zomboid_locator::locate::extract;
use zomboid_locator::locate::index_file_path;
use zomboid_locator::locate::join_under;
use zomboid_locator::locate::locate_app_dir;
use zomboid_locator::locate::resolve_install_root;
use zomboid_locator::scan::scan_index;

const APP_ID: &[u8] = b"108600";

#[test]
fn round_trip_single_entry() {
    let doc = br#""path" "D:\Games" "apps" { "108600" "1" }"#;
    let got = scan_index(doc, APP_ID);
    assert_eq!(got, Some(b"D:\\Games".to_vec()));
}

#[test]
fn capture_is_verbatim_with_forward_slashes() {
    let doc = br#""path" "/mnt/ssd/steam" "apps" { "108600" "1" }"#;
    let got = scan_index(doc, APP_ID);
    assert_eq!(got, Some(b"/mnt/ssd/steam".to_vec()));
}

#[test]
fn unreferenced_id_is_app_not_found() {
    let doc = br#""libraryfolders" { "0" { "path" "C:\Lib" "apps" { "440" "1" } } }"#;
    let got = locate_app_dir(doc, APP_ID);
    assert_eq!(got, Err(ExtractionError::AppNotFound));
}

#[test]
fn empty_index_is_rejected_before_matching() {
    let got = locate_app_dir(b"", APP_ID);
    assert_eq!(got, Err(ExtractionError::EmptyIndex));
}

#[test]
fn unreadable_index_is_file_not_found() {
    let got = extract(None, APP_ID);
    assert_eq!(got, Err(ExtractionError::FileNotFound));
}

#[test]
fn extract_reads_through_to_the_scan() {
    let doc = br#""path" "H:\Lib" "apps" { "108600" "1" }"#.to_vec();
    let got = extract(Some(doc), APP_ID);
    assert_eq!(
        got,
        Ok(b"H:\\Lib\\steamapps\\common\\ProjectZomboid".to_vec())
    );
    assert_eq!(extract(Some(Vec::new()), APP_ID), Err(ExtractionError::EmptyIndex));
}

#[test]
fn first_of_two_matching_entries_wins() {
    let doc = br#""0" { "path" "C:\First" "apps" { "108600" "1" } } "1" { "path" "D:\Second" "apps" { "108600" "1" } }"#;
    let got = scan_index(doc, APP_ID);
    assert_eq!(got, Some(b"C:\\First".to_vec()));
}

#[test]
fn missing_directory_fails_even_after_a_match() {
    let dir = b"C:\\First\\steamapps\\common\\ProjectZomboid".to_vec();
    let got = confirm_app_dir(dir, false);
    assert_eq!(got, Err(ExtractionError::DirectoryMissing));
}

#[test]
fn present_directory_is_handed_on_unchanged() {
    let dir = b"C:\\First\\steamapps\\common\\ProjectZomboid".to_vec();
    let got = confirm_app_dir(dir.clone(), true);
    assert_eq!(got, Ok(dir));
}

#[test]
fn end_to_end_directory_present() {
    let doc = br#""libraryfolders" { "0" { "path" "C:\SteamLib" "apps" { "108600" "12345" "999" "1" } } }"#;
    let candidate = locate_app_dir(doc, APP_ID).expect("index references the app");
    assert_eq!(
        candidate,
        b"C:\\SteamLib\\steamapps\\common\\ProjectZomboid".to_vec()
    );
    let got = confirm_app_dir(candidate.clone(), true);
    assert_eq!(got, Ok(candidate));
}

#[test]
fn end_to_end_directory_absent() {
    let doc = br#""libraryfolders" { "0" { "path" "C:\SteamLib" "apps" { "108600" "12345" "999" "1" } } }"#;
    let candidate = locate_app_dir(doc, APP_ID).expect("index references the app");
    let got = confirm_app_dir(candidate, false);
    assert_eq!(got, Err(ExtractionError::DirectoryMissing));
}

#[test]
fn pattern_does_not_cross_a_closing_brace() {
    let doc = br#""0" { "path" "C:\Closed" } "1" { "apps" { "108600" "1" } }"#;
    let got = locate_app_dir(doc, APP_ID);
    assert_eq!(got, Err(ExtractionError::AppNotFound));
}

#[test]
fn unrelated_keys_between_path_and_apps_are_skipped() {
    let doc = br#""path" "E:\Lib" "label" "spare drive" "mounted" "1" "apps" { "108600" "1" }"#;
    let got = scan_index(doc, APP_ID);
    assert_eq!(got, Some(b"E:\\Lib".to_vec()));
}

#[test]
fn whitespace_between_tokens_is_tolerated() {
    let doc = b"\"path\"\n\t \"F:\\Lib\"\r\n\"apps\"\n{\n\t\"108600\"\t\"1\"\n}";
    let got = scan_index(doc, APP_ID);
    assert_eq!(got, Some(b"F:\\Lib".to_vec()));
}

#[test]
fn other_ids_before_the_target_in_the_apps_block_are_skipped() {
    let doc = br#""path" "I:\Lib" "apps" { "440" "1" "108600" "1" }"#;
    let got = scan_index(doc, APP_ID);
    assert_eq!(got, Some(b"I:\\Lib".to_vec()));
}

#[test]
fn apps_block_listing_another_id_only_does_not_match() {
    let doc = br#""path" "G:\Lib" "apps" { "4000" "1" }"#;
    let got = scan_index(doc, APP_ID);
    assert_eq!(got, None);
}

#[test]
fn resolver_takes_the_read_value_unchanged() {
    let got = resolve_install_root(Some(b"C:\\Program Files (x86)\\Steam".to_vec()));
    assert_eq!(got, Ok(b"C:\\Program Files (x86)\\Steam".to_vec()));
}

#[test]
fn resolver_missing_value_is_key_not_found() {
    let got = resolve_install_root(None);
    assert_eq!(got, Err(ResolutionError::KeyNotFound));
}

#[test]
fn index_path_is_joined_under_the_install_root() {
    let got = index_file_path(b"C:\\Steam");
    assert_eq!(got, b"C:\\Steam\\config\\libraryfolders.vdf".to_vec());
}

#[test]
fn join_keeps_an_existing_trailing_separator() {
    assert_eq!(join_under(b"C:\\Steam\\", b"config"), b"C:\\Steam\\config".to_vec());
    assert_eq!(join_under(b"C:/Steam/", b"config"), b"C:/Steam/config".to_vec());
}

#[test]
fn join_onto_an_empty_base_is_the_relative_path() {
    assert_eq!(join_under(b"", b"config"), b"config".to_vec());
}

#[test]
fn error_messages_tell_the_stages_apart() {
    let msgs = [
        ExtractionError::FileNotFound.message(),
        ExtractionError::EmptyIndex.message(),
        ExtractionError::AppNotFound.message(),
        ExtractionError::DirectoryMissing.message(),
    ];
    for i in 0..msgs.len() {
        for j in 0..msgs.len() {
            if i != j {
                assert_ne!(msgs[i], msgs[j]);
            }
        }
    }
    assert!(!ResolutionError::KeyNotFound.message().is_empty());
}
