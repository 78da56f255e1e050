use apocalyptosis::save_load::{
    calc_new_campaign_index, find_separator, leading_index, save_header, separator_bytes,
    split_save_file,
};

#[test]
fn separator_bytes_are_the_marker_line() {
    assert_eq!(separator_bytes(), b"\n\nAPOCALYPTOSIS\n".to_vec());
}

#[test]
fn save_files_split_back() {
    let metadata = b"(cult_name: \"Dawn\", funds: 5000)".to_vec();
    let world = b"world data\n\nmore".to_vec();
    let mut file = save_header(&metadata);
    file.extend_from_slice(&world);
    assert_eq!(split_save_file(&file), Some((metadata.clone(), world)));
    assert_eq!(find_separator(&file), Some(metadata.len()));
}

#[test]
fn files_without_separator() {
    assert_eq!(split_save_file(&b"no separator here".to_vec()), None);
    assert_eq!(find_separator(&b"\n\nAPOCALYPTOSI".to_vec()), None);
}

#[test]
fn first_separator_wins() {
    let file = b"meta\n\nAPOCALYPTOSIS\nworld\n\nAPOCALYPTOSIS\nrest".to_vec();
    let (m, c) = split_save_file(&file).unwrap();
    assert_eq!(m, b"meta".to_vec());
    assert_eq!(c, b"world\n\nAPOCALYPTOSIS\nrest".to_vec());
}

#[test]
fn metadata_ending_like_the_separator_does_not_split_back() {
    let metadata = b"x\n\nAPOCALYPTOSIS".to_vec();
    let file = save_header(&metadata);
    assert_eq!(find_separator(&file), Some(1));
}

#[test]
fn leading_indices() {
    assert_eq!(leading_index("3.apocalyptosis.save"), Some(3));
    assert_eq!(leading_index("12-backup.save"), Some(12));
    assert_eq!(leading_index("+7.apocalyptosis.save"), Some(7));
    assert_eq!(leading_index("007.save"), Some(7));
    assert_eq!(leading_index("x3.save"), None);
    assert_eq!(leading_index(".save"), None);
    assert_eq!(leading_index("+.save"), None);
    assert_eq!(leading_index("99999999999999999999999.save"), None);
    assert_eq!(leading_index("18446744073709551615.save"), Some(usize::MAX));
}

#[test]
fn new_campaign_index() {
    assert_eq!(calc_new_campaign_index(&vec![]), 1);
    let names = vec![
        "2.apocalyptosis.save".to_string(),
        "notes.save".to_string(),
        "10.apocalyptosis.save".to_string(),
        "7.apocalyptosis.save".to_string(),
    ];
    assert_eq!(calc_new_campaign_index(&names), 11);
}
