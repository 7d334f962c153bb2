use gcode_frame_gen::actions::file_actions::{source_gcode_for_editor, MAX_SOURCE_EDITOR_BYTES};

#[test]
fn large_source_is_truncated_at_a_character_boundary() {
    let content = format!("{}\nG1 X1", "Ж".repeat(MAX_SOURCE_EDITOR_BYTES));
    let (editor_text, truncated) = source_gcode_for_editor(&content);

    assert!(truncated);
    assert!(editor_text.is_char_boundary(editor_text.len()));
}

#[test]
fn small_source_is_shown_whole() {
    let content = "G0 X0 Y0\nG1 X1 Y1\n";
    assert_eq!(source_gcode_for_editor(content), (content.to_owned(), false));
}

#[test]
fn large_source_is_cut_at_the_last_line_end() {
    let line = "G1 X10.000 Y20.000\n";
    let content = line.repeat(1000);
    let (text, truncated) = source_gcode_for_editor(&content);
    assert!(truncated);
    let kept = MAX_SOURCE_EDITOR_BYTES / line.len() * line.len() - 1;
    assert_eq!(
        text,
        format!(
            "{}\n\n; --- Display limited to the first 10 KB of a large source file ---\n",
            &content[..kept]
        )
    );
}

#[test]
fn source_of_exactly_the_limit_is_kept() {
    let content = "x".repeat(MAX_SOURCE_EDITOR_BYTES);
    assert_eq!(source_gcode_for_editor(&content), (content.clone(), false));
}

#[test]
fn large_source_without_line_ends_is_cut_within_the_limit() {
    let source = "é".repeat(6000);
    let (text, shortened) = source_gcode_for_editor(&source);
    assert!(shortened);
    let notice = "\n\n; --- Display limited to the first 10 KB of a large source file ---\n";
    assert!(text.ends_with(notice));
    let shown = &text[..text.len() - notice.len()];
    assert_eq!(shown.len(), 10240);
    assert!(source.starts_with(shown));
}
