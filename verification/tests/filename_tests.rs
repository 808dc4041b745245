use bitbridge::filename::{counted_file_name, generate_new_filename, unique_saved_name};

#[test]
fn a_counter_goes_between_stem_and_extension() {
    assert_eq!(generate_new_filename("photo.jpg", 1), "photo-1.jpg");
    assert_eq!(generate_new_filename("archive.tar.gz", 2), "archive.tar-2.gz");
    assert_eq!(generate_new_filename("README", 3), "README-3");
    assert_eq!(generate_new_filename(".bashrc", 1), ".bashrc-1");
    assert_eq!(generate_new_filename("notes.", 4), "notes-4.");
    assert_eq!(counted_file_name("a", Some("b"), 4294967295), "a-4294967295.b");
    assert_eq!(counted_file_name("a", None, 0), "a-0");
}

#[test]
fn each_resource_gets_the_first_free_name() {
    let used = vec!["photo.jpg".to_string(), "photo-1.jpg".to_string(), "photo-3.jpg".to_string()];
    assert_eq!(unique_saved_name("photo.jpg", false, &used), "photo-2.jpg");
    assert_eq!(unique_saved_name("other.jpg", false, &used), "other.jpg");
    assert_eq!(unique_saved_name("docs", true, &Vec::new()), "docs.zip");
    assert_eq!(unique_saved_name("docs", true, &vec!["docs.zip".to_string()]), "docs-1.zip");
}
