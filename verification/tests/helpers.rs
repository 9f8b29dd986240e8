use upload_gateway::helpers::{
    get_file_extension, make_deletion_url, make_object_name, make_object_url,
};

#[test]
fn extension_is_the_part_after_the_last_dot() {
    assert_eq!(get_file_extension("photo.png"), "png");
    assert_eq!(get_file_extension("archive.tar.gz"), "gz");
    assert_eq!(get_file_extension(".hidden"), "hidden");
}

#[test]
fn extension_of_dotless_name_is_the_whole_name() {
    assert_eq!(get_file_extension("noext"), "noext");
}

#[test]
fn extension_of_name_ending_in_dot_is_empty() {
    assert_eq!(get_file_extension("trailing."), "");
    assert_eq!(get_file_extension(""), "");
}

#[test]
fn object_name_joins_random_id_and_extension() {
    assert_eq!(make_object_name("a1b2c3", "photo.png"), "a1b2c3.png");
    assert_eq!(make_object_name("a1b2c3", "archive.tar.gz"), "a1b2c3.gz");
    // A dotless hint contributes itself as the extension.
    assert_eq!(make_object_name("a1b2c3", "noext"), "a1b2c3.noext");
}

#[test]
fn object_name_without_extension_is_the_random_id_alone() {
    assert_eq!(make_object_name("a1b2c3", "trailing."), "a1b2c3");
    assert_eq!(make_object_name("a1b2c3", ""), "a1b2c3");
}

#[test]
fn object_url_joins_base_and_name() {
    assert_eq!(
        make_object_url("https://img.example.com", "a1b2c3.png"),
        "https://img.example.com/a1b2c3.png"
    );
}

#[test]
fn deletion_url_carries_the_token_as_query() {
    assert_eq!(
        make_deletion_url("https://api.example.com", "tok123"),
        "https://api.example.com/delete?token_str=tok123"
    );
}
