use deployer::run_deployer::pull::{
    after_probe, destination_fmt, is_occupied, resolve_destination, update_destination,
    FolderFormatError, Probe,
};

#[test]
fn test_non_existent_path() {
    let non_existent_path = String::from("01_Sep_2024_1308");
    let result = update_destination(false, non_existent_path.clone(), 1);
    assert_eq!(result.unwrap(), non_existent_path);
}

#[test]
fn test_invalid_path_format() {
    let invalid_path = String::from("01_Sep_2024");
    let result = update_destination(true, invalid_path, 1);
    assert!(result.is_err());
}

#[test]
fn test_valid_path_format() {
    let valid_path = String::from("01_Sep_2024_1307");
    let result = update_destination(true, valid_path, 1);

    // Ensure the format is correctly updated
    assert_eq!(result.unwrap(), "01_Sep_2024_1307_01");
}

#[test]
fn short_names_fail_whatever_exists() {
    for name in ["", "01", "01_Sep", "01_Sep_2024", "a__"] {
        for exists in [false, true] {
            assert_eq!(
                update_destination(exists, String::from(name), 1),
                Err(FolderFormatError::FailedToFormat)
            );
            assert_eq!(
                resolve_destination(exists, String::from(name), 1, &Vec::new()),
                Err(FolderFormatError::FailedToFormat)
            );
        }
    }
}

#[test]
fn free_names_are_kept() {
    for name in ["01_Sep_2024_1308", "___", "/var/www/01_Sep_2024_1308", "a_b_c_d_e_f"] {
        assert_eq!(update_destination(false, String::from(name), 7), Ok(String::from(name)));
    }
}

#[test]
fn resolved_name_is_kept_when_handed_back() {
    let first = update_destination(true, String::from("01_Sep_2024_1307"), 1).unwrap();
    let second = update_destination(false, first.clone(), 1).unwrap();
    assert_eq!(first, second);
}

#[test]
fn counter_is_replaced_not_stacked() {
    let first = update_destination(true, String::from("01_Sep_2024_1307"), 1).unwrap();
    assert_eq!(first, "01_Sep_2024_1307_01");
    let second = update_destination(true, first, 2).unwrap();
    assert_eq!(second, "01_Sep_2024_1307_02");
}

#[test]
fn resolve_skips_names_in_use() {
    let taken = vec![
        String::from("01_Sep_2024_1307"),
        String::from("01_Sep_2024_1307_01"),
        String::from("01_Sep_2024_1307_02"),
    ];
    let result = resolve_destination(true, String::from("01_Sep_2024_1307"), 1, &taken);
    assert_eq!(result, Ok(String::from("01_Sep_2024_1307_03")));
}

#[test]
fn resolve_takes_the_first_gap() {
    let taken = vec![
        String::from("01_Sep_2024_1307_03"),
        String::from("01_Sep_2024_1307_01"),
    ];
    let result = resolve_destination(true, String::from("01_Sep_2024_1307"), 1, &taken);
    assert_eq!(result, Ok(String::from("01_Sep_2024_1307_02")));
}

#[test]
fn resolve_keeps_a_free_name() {
    let taken = vec![String::from("01_Sep_2024_1307")];
    let result = resolve_destination(false, String::from("01_Sep_2024_1307"), 1, &taken);
    assert_eq!(result, Ok(String::from("01_Sep_2024_1307")));
}

#[test]
fn resolve_gives_up_at_the_last_counter() {
    let taken = vec![String::from("01_Sep_2024_1307_2147483647")];
    let result = resolve_destination(true, String::from("01_Sep_2024_1307"), i32::MAX, &taken);
    assert_eq!(result, Err(FolderFormatError::Exhausted));
}

#[test]
fn occupied_names_are_found() {
    let taken = vec![String::from("a"), String::from("b")];
    assert!(is_occupied(&taken, &String::from("b")));
    assert!(!is_occupied(&taken, &String::from("c")));
    assert!(!is_occupied(&Vec::new(), &String::from("a")));
}

#[test]
fn destination_fmt_pads_small_counters() {
    let parts = ["01", "Jan", "2025", "1046"];
    let mut path = String::from("before");
    assert_eq!(destination_fmt(&parts, &mut path, 1), Ok(()));
    assert_eq!(path, "01_Jan_2025_1046_01");
    assert_eq!(destination_fmt(&parts, &mut path, 8), Ok(()));
    assert_eq!(path, "01_Jan_2025_1046_08");
    assert_eq!(destination_fmt(&parts, &mut path, 9), Ok(()));
    assert_eq!(path, "01_Jan_2025_1046_09");
    assert_eq!(destination_fmt(&parts, &mut path, 10), Ok(()));
    assert_eq!(path, "01_Jan_2025_1046_10");
    assert_eq!(destination_fmt(&parts, &mut path, 12), Ok(()));
    assert_eq!(path, "01_Jan_2025_1046_12");
    assert_eq!(destination_fmt(&parts, &mut path, 100), Ok(()));
    assert_eq!(path, "01_Jan_2025_1046_100");
    assert_eq!(destination_fmt(&parts, &mut path, 0), Ok(()));
    assert_eq!(path, "01_Jan_2025_1046_00");
}

#[test]
fn destination_fmt_writes_negative_counters_as_they_are() {
    let parts = ["01", "Jan", "2025", "1046"];
    let mut path = String::new();
    assert_eq!(destination_fmt(&parts, &mut path, -5), Ok(()));
    assert_eq!(path, "01_Jan_2025_1046_0-5");
    assert_eq!(destination_fmt(&parts, &mut path, i32::MIN), Ok(()));
    assert_eq!(path, "01_Jan_2025_1046_0-2147483648");
    assert_eq!(destination_fmt(&parts, &mut path, i32::MAX), Ok(()));
    assert_eq!(path, "01_Jan_2025_1046_2147483647");
}

#[test]
fn destination_fmt_uses_the_first_four_pieces_only() {
    let parts = ["01", "Jan", "2025", "1046", "07", "x"];
    let mut path = String::new();
    assert_eq!(destination_fmt(&parts, &mut path, 3), Ok(()));
    assert_eq!(path, "01_Jan_2025_1046_03");
}

#[test]
fn destination_fmt_leaves_the_path_alone_on_failure() {
    let parts = ["01", "Jan", "2025"];
    let mut path = String::from("untouched");
    assert_eq!(
        destination_fmt(&parts, &mut path, 1),
        Err(FolderFormatError::FailedToFormat)
    );
    assert_eq!(path, "untouched");
}

#[test]
fn folder_errors_have_their_texts() {
    assert_eq!(
        FolderFormatError::FailedToFormat.message(),
        "FolderFormatError: Failed to format folder name. Try removing all repeating folders or try again in a minute."
    );
    assert_eq!(
        FolderFormatError::Exhausted.message(),
        "FolderFormatError: Every folder index is taken. Try removing all repeating folders."
    );
}

#[test]
fn a_free_candidate_is_taken() {
    assert_eq!(after_probe(false, 1), Probe::Take);
    assert_eq!(after_probe(false, i32::MAX), Probe::Take);
    assert_eq!(after_probe(false, -3), Probe::Take);
}

#[test]
fn a_candidate_in_use_sends_the_search_on() {
    assert_eq!(after_probe(true, 1), Probe::Try(2));
    assert_eq!(after_probe(true, 99), Probe::Try(100));
    assert_eq!(after_probe(true, -1), Probe::Try(0));
    assert_eq!(after_probe(true, i32::MAX - 1), Probe::Try(i32::MAX));
}

#[test]
fn the_last_counter_ends_the_search() {
    assert_eq!(after_probe(true, i32::MAX), Probe::GiveUp);
}
