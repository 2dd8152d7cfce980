use aios_core::config::config_file_name;
use aios_core::uda::UdaNames;

#[test]
fn the_first_registration_of_a_uda_wins_both_ways() {
    let mut names = UdaNames::new();
    names.add(7, ":SUPPORT".to_string());
    names.add(7, ":OTHER".to_string());
    names.add(8, ":SUPPORT".to_string());
    assert_eq!(names.name_of(7).as_deref(), Some(":SUPPORT"));
    assert_eq!(names.name_of(8).as_deref(), Some(":SUPPORT"));
    assert_eq!(names.key_of(":SUPPORT"), Some(7));
    assert_eq!(names.key_of(":OTHER"), Some(7));
    assert_eq!(names.key_of(":NONE"), None);
    assert_eq!(names.name_of(9), None);
}

#[test]
fn the_config_file_defaults_to_db_option() {
    assert_eq!(config_file_name(None), "DbOption");
    assert_eq!(
        config_file_name(Some("db_options/DbOption-e2e-8042".to_string())),
        "db_options/DbOption-e2e-8042"
    );
}

fn uda_file(pairs: &[(u32, &str)]) -> Vec<u8> {
    let map: std::collections::HashMap<u32, String> =
        pairs.iter().map(|(k, n)| (*k, n.to_string())).collect();
    bincode::serialize(&map).expect("a map serialises")
}

#[test]
fn uda_files_merge_in_order_and_the_first_file_wins() {
    let files = vec![
        uda_file(&[(1, ":A"), (2, ":B")]),
        vec![1, 2, 3],
        uda_file(&[(2, ":C"), (3, ":A"), (4, ":D")]),
        Vec::new(),
    ];
    let names = UdaNames::from_files(&files);
    assert_eq!(names.name_of(1).as_deref(), Some(":A"));
    assert_eq!(names.name_of(2).as_deref(), Some(":B"));
    assert_eq!(names.name_of(3).as_deref(), Some(":A"));
    assert_eq!(names.name_of(4).as_deref(), Some(":D"));
    assert_eq!(names.name_of(5), None);
    assert_eq!(names.key_of(":A"), Some(1));
    assert_eq!(names.key_of(":B"), Some(2));
    assert_eq!(names.key_of(":C"), Some(2));
    assert_eq!(names.key_of(":D"), Some(4));
}

#[test]
fn undecodable_uda_files_give_no_names() {
    let names = UdaNames::from_files(&vec![vec![0xff; 3], Vec::new()]);
    assert_eq!(names.name_of(0), None);
    assert_eq!(names.key_of(""), None);
}
