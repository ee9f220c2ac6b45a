use point_glass_opengl::shader_source::{
    clean_shader_source, is_whitespace, program_link_report, shader_compile_report, source_preview,
};

#[test]
fn adds_default_version_when_missing() {
    assert_eq!(clean_shader_source("void main() {}"), "#version 330 core\nvoid main() {}");
}

#[test]
fn empty_source_gets_only_the_header() {
    assert_eq!(clean_shader_source(""), "#version 330 core\n");
    assert_eq!(clean_shader_source(" \t\r\n"), "#version 330 core\n");
}

#[test]
fn keeps_existing_version_line() {
    let src = "#version 450\nvoid main() {}\n";
    assert_eq!(clean_shader_source(src), src);
}

#[test]
fn strips_byte_order_marks_and_leading_whitespace() {
    assert_eq!(
        clean_shader_source("\u{feff}\u{feff}  \n\t#version 330 core\nx"),
        "#version 330 core\nx"
    );
}

#[test]
fn byte_order_mark_after_whitespace_stays() {
    assert_eq!(clean_shader_source(" \u{feff}x"), "#version 330 core\n\u{feff}x");
}

#[test]
fn normalizes_line_endings() {
    assert_eq!(
        clean_shader_source("#version 330 core\r\na\rb\r\r\nc\n"),
        "#version 330 core\na\nb\n\nc\n"
    );
}

#[test]
fn version_check_is_case_sensitive() {
    assert_eq!(clean_shader_source("#VERSION 330"), "#version 330 core\n#VERSION 330");
    assert_eq!(clean_shader_source("#versio"), "#version 330 core\n#versio");
}

#[test]
fn unicode_whitespace_is_trimmed() {
    assert_eq!(clean_shader_source("\u{3000}\u{a0}\u{2028}void"), "#version 330 core\nvoid");
    assert!(is_whitespace('\u{85}'));
    assert!(!is_whitespace('\u{feff}'));
    assert!(!is_whitespace('#'));
}

#[test]
fn cleaning_twice_equals_cleaning_once() {
    for src in ["", "\u{feff}\r\n x\ry", "#version 100\r\n", "  void main(){}\r"] {
        let once = clean_shader_source(src);
        assert_eq!(clean_shader_source(&once), once);
        assert!(once.starts_with("#version"));
        assert!(!once.contains('\r'));
    }
}

#[test]
fn preview_keeps_first_lines() {
    let src = "l1\nl2\nl3\nl4\nl5\nl6\nl7\nl8\nl9\nl10\n";
    assert_eq!(source_preview(src, 8), "l1\nl2\nl3\nl4\nl5\nl6\nl7\nl8");
    assert_eq!(source_preview(src, 0), "");
    assert_eq!(source_preview("a\r\nb\n\nc", 8), "a\nb\n\nc");
    assert_eq!(source_preview("a\n", 8), "a");
    assert_eq!(source_preview("", 8), "");
    assert_eq!(source_preview("\n", 8), "");
    assert_eq!(source_preview("\n\n", 8), "\n");
    assert_eq!(source_preview("a\r", 8), "a\r");
}

#[test]
fn preview_matches_str_lines() {
    for src in ["x\ny\r\nz", "one", "\r\n\r\n", "a\rb\nc\n", "1\n2\n3\n4\n5\n6\n7\n8\n9"] {
        let expected = src.lines().take(8).collect::<Vec<_>>().join("\n");
        assert_eq!(source_preview(src, 8), expected);
    }
}

#[test]
fn compile_report_shows_log_and_preview() {
    assert_eq!(
        shader_compile_report("0:1: error", "#version 330 core\nvoid main() {"),
        "Shader compile error:\n0:1: error\n--- source preview ---\n#version 330 core\nvoid main() {"
    );
}

#[test]
fn link_report_shows_log() {
    assert_eq!(program_link_report("bad"), "Program link error: bad");
}
