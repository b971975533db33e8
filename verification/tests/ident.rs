use cube_file_converter::ident::{
    create_variable_name, get_extension_from_filename, get_file_name_no_folder, has_extension,
    names_asset,
};

fn basename_of(path: &str) -> String {
    assert!(names_asset(path));
    get_file_name_no_folder(&path.to_string())
}

#[test]
fn basename_drops_directories_and_extension() {
    assert_eq!(basename_of("assets/notes.txt"), "notes");
    assert_eq!(basename_of("a/b/c/logo.png"), "logo");
}

#[test]
fn basename_without_directory_starts_at_the_front() {
    assert_eq!(basename_of("notes.txt"), "notes");
}

#[test]
fn basename_ends_at_the_last_period() {
    assert_eq!(basename_of("backup/archive.tar.gz"), "archive.tar");
}

#[test]
fn basename_starts_behind_the_last_slash() {
    assert_eq!(basename_of("v1.2/readme.md"), "readme");
}

#[test]
fn basename_may_be_empty() {
    assert_eq!(basename_of("dir/.hidden"), "");
    assert_eq!(basename_of(".txt"), "");
}

#[test]
fn basename_counts_characters_not_bytes() {
    assert_eq!(basename_of("größe/maß.txt"), "maß");
    assert_eq!(basename_of("日本/語.png"), "語");
}

#[test]
fn extension_follows_the_last_period() {
    assert_eq!(get_extension_from_filename("assets/notes.txt"), "txt");
    assert_eq!(get_extension_from_filename("archive.tar.gz"), "gz");
    assert_eq!(get_extension_from_filename("logo.png"), "png");
}

#[test]
fn extension_may_be_empty() {
    assert_eq!(get_extension_from_filename("notes."), "");
}

#[test]
fn extension_runs_to_the_end_of_the_path() {
    assert!(has_extension("a.b/c"));
    assert_eq!(get_extension_from_filename("a.b/c"), "b/c");
}

#[test]
fn extension_of_a_path_with_wide_characters() {
    assert_eq!(get_extension_from_filename("größe/maß.tüt"), "tüt");
}

#[test]
fn a_path_without_period_has_no_extension() {
    assert!(!has_extension("assets/config"));
    assert!(!has_extension(""));
    assert!(!has_extension("Makefile"));
    assert!(has_extension("assets/config.ini"));
    assert!(has_extension("."));
}

#[test]
fn a_path_names_an_asset_when_its_last_period_follows_its_last_slash() {
    assert!(names_asset("assets/notes.txt"));
    assert!(names_asset("notes.txt"));
    assert!(names_asset("dir/.hidden"));
    assert!(names_asset("a/b."));
    assert!(!names_asset("assets/config"));
    assert!(!names_asset("a.b/c"));
    assert!(!names_asset("notes.txt/"));
    assert!(!names_asset(""));
    assert!(!names_asset("/"));
}

#[test]
fn symbol_is_prefix_basename_underscore_extension() {
    assert_eq!(create_variable_name("assets/logo.png"), "generated_logo_png");
    assert_eq!(create_variable_name("notes.txt"), "generated_notes_txt");
    assert_eq!(create_variable_name("a/b/c.d.e"), "generated_c.d_e");
}

#[test]
fn symbol_of_a_path_with_empty_parts() {
    assert_eq!(create_variable_name("dir/.hidden"), "generated__hidden");
    assert_eq!(create_variable_name("dir/name."), "generated_name_");
}

#[test]
fn symbol_is_made_of_the_parts_of_the_path() {
    let dirs = ["", "assets/", "/", "a.b/c/", "../"];
    let names = ["logo", "a", "archive.tar", "my file", "ünï"];
    let exts = ["png", "txt", "h", "", "JPEG"];
    for dir in dirs {
        for name in names {
            for ext in exts {
                let path = format!("{}{}.{}", dir, name, ext);
                assert!(names_asset(&path));
                assert_eq!(get_file_name_no_folder(&path), name);
                assert_eq!(get_extension_from_filename(&path), ext);
                assert_eq!(create_variable_name(&path), format!("generated_{}_{}", name, ext));
            }
        }
    }
}

#[test]
fn symbols_of_equal_file_names_in_different_directories_are_equal() {
    assert_eq!(create_variable_name("a/img.png"), create_variable_name("b/img.png"));
}

#[test]
fn symbol_is_the_same_on_every_call() {
    assert_eq!(create_variable_name("assets/logo.png"), create_variable_name("assets/logo.png"));
}
