use cube_file_converter::cube_file::{CubeFile, ImageFile, TextFile};
use cube_file_converter::raster::Raster;

fn notes() -> TextFile {
    TextFile::new(&"assets/notes.txt".to_string(), "He said \"hi\"".to_string())
}

fn logo() -> ImageFile {
    let image = Raster { bytes: (1..=24).collect(), width: 2, height: 3, bytes_per_pixel: 4 };
    ImageFile::new(&"assets/logo.png".to_string(), image)
}

#[test]
fn text_file_holds_path_names_and_literal() {
    let file = notes();
    assert_eq!(file.file_path, "assets/notes.txt");
    assert_eq!(file.file_name, "notes");
    assert_eq!(file.variable_name, "generated_notes_txt");
    assert_eq!(file.contents, "R\"(He said \"hi\")\";");
}

#[test]
fn text_file_defines_one_variable() {
    assert_eq!(notes().cpp_string(), "const char* generated_notes_txt = R\"(He said \"hi\")\";");
}

#[test]
fn text_file_declares_its_variable() {
    assert_eq!(
        notes().header_string(),
        "// Generated text file from assets/notes.txt\nextern const char* generated_notes_txt;"
    );
}

#[test]
fn text_file_fragments_name_the_symbol_once() {
    let file = notes();
    assert_eq!(file.cpp_string().matches("generated_notes_txt").count(), 1);
    assert_eq!(file.header_string().matches("generated_notes_txt").count(), 1);
    assert_eq!(file.header_string().matches("extern ").count(), 1);
    assert_eq!(file.header_string().lines().count(), 2);
}

#[test]
fn text_file_fragments_follow_the_fields() {
    let file = TextFile {
        file_path: "p".to_string(),
        file_name: "n".to_string(),
        contents: "c".to_string(),
        variable_name: "v".to_string(),
    };
    assert_eq!(file.cpp_string(), "const char* v = c");
    assert_eq!(file.header_string(), "// Generated text file from p\nextern const char* v;");
}

#[test]
fn text_file_of_an_empty_text() {
    let file = TextFile::new(&"empty.txt".to_string(), String::new());
    assert_eq!(file.cpp_string(), "const char* generated_empty_txt = R\"()\";");
}

#[test]
fn text_file_reports_success() {
    let notice = notes().parse_success_message();
    assert_eq!(notice.label, "[Cube Compile Time File Parser]");
    assert_eq!(notice.file_path, "assets/notes.txt");
    assert_eq!(notice.outcome, " Successfully parsed text file");
}

#[test]
fn image_file_holds_path_names_pixels_and_shape() {
    let file = logo();
    assert_eq!(file.file_path, "assets/logo.png");
    assert_eq!(file.file_name, "logo");
    assert_eq!(file.variable_name, "generated_logo_png");
    assert_eq!(file.contents, (1..=24).collect::<Vec<u8>>());
    assert_eq!(file.width, 2);
    assert_eq!(file.height, 3);
    assert_eq!(file.total_bytes, 24);
}

#[test]
fn image_file_counts_width_by_height_by_bytes_per_pixel() {
    let image = Raster { bytes: vec![9; 5 * 7 * 3], width: 5, height: 7, bytes_per_pixel: 3 };
    assert!(image.is_well_formed());
    let file = ImageFile::new(&"photo.png".to_string(), image);
    assert_eq!(file.total_bytes, 105);
    assert_eq!(file.total_bytes, file.width as usize * file.height as usize * 3);
}

#[test]
fn image_file_defines_four_variables() {
    assert_eq!(
        logo().cpp_string(),
        "const unsigned char* generated_logo_png = [1, 2, 3, 4, 5, 6, 7, 8, 9, 10, 11, 12, 13, \
         14, 15, 16, 17, 18, 19, 20, 21, 22, 23, 24];\n\
         const unsigned int generated_logo_png_width = 2\n\
         const unsigned int generated_logo_png_height = 3\n\
         const unsigned int generated_logo_png_total_bytes = 24"
    );
}

#[test]
fn image_file_declares_its_four_variables() {
    assert_eq!(
        logo().header_string(),
        "// Generated image file from assets/logo.png\n\
         extern const unsigned char* generated_logo_png;\n\
         // Generated image pixel width from assets/logo.png\n\
         extern const unsigned int generated_logo_png_width;\n\
         // Generated image pixel height from assets/logo.png\n\
         extern const unsigned int generated_logo_png_height;\n\
         // Generated total image bytes from assets/logo.png\n\
         extern const unsigned int generated_logo_png_total_bytes;"
    );
}

#[test]
fn image_file_fragments_list_the_same_four_names() {
    let file = logo();
    let names = [
        "generated_logo_png ",
        "generated_logo_png_width ",
        "generated_logo_png_height ",
        "generated_logo_png_total_bytes ",
    ];
    let definitions = file.cpp_string();
    let declarations = file.header_string();
    assert_eq!(definitions.lines().count(), 4);
    assert_eq!(declarations.matches("extern ").count(), 4);
    for (line, name) in definitions.lines().zip(names) {
        assert!(line.contains(&format!(" {}= ", name)));
        assert_eq!(declarations.matches(&format!(" {};", name.trim_end())).count(), 1);
    }
}

#[test]
fn image_file_fragments_follow_the_fields() {
    let file = ImageFile {
        file_path: "p".to_string(),
        file_name: "n".to_string(),
        variable_name: "v".to_string(),
        contents: vec![0, 255],
        width: 10,
        height: 4294967295,
        total_bytes: 7,
    };
    assert_eq!(
        file.cpp_string(),
        "const unsigned char* v = [0, 255];\nconst unsigned int v_width = 10\nconst unsigned \
         int v_height = 4294967295\nconst unsigned int v_total_bytes = 7"
    );
}

#[test]
fn image_file_without_pixels() {
    let image = Raster { bytes: vec![], width: 0, height: 0, bytes_per_pixel: 4 };
    let file = ImageFile::new(&"void.png".to_string(), image);
    assert_eq!(
        file.cpp_string(),
        "const unsigned char* generated_void_png = [];\n\
         const unsigned int generated_void_png_width = 0\n\
         const unsigned int generated_void_png_height = 0\n\
         const unsigned int generated_void_png_total_bytes = 0"
    );
}

#[test]
fn image_file_reports_success() {
    let notice = logo().parse_success_message();
    assert_eq!(notice.label, "[Cube Compile Time File Parser]");
    assert_eq!(notice.file_path, "assets/logo.png");
    assert_eq!(notice.outcome, " Successfully parsed image file");
}

#[test]
fn width_and_height_are_not_exchanged() {
    let image = Raster { bytes: vec![0; 8], width: 4, height: 2, bytes_per_pixel: 1 };
    let file = ImageFile::new(&"wide.png".to_string(), image);
    assert_eq!((file.width, file.height), (4, 2));
    assert!(file.cpp_string().contains("generated_wide_png_width = 4\n"));
    assert!(file.cpp_string().contains("generated_wide_png_height = 2\n"));
}
