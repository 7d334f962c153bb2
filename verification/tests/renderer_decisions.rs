use gcode_frame_gen::preview::opengl_renderer::{native_id, parse_color};
use gcode_frame_gen::preview::renderer::PreviewRendererBackend;
use gcode_frame_gen::preview::software_renderer::{preview_color, SoftwarePreviewRenderer};

#[test]
fn object_ids_are_positive() {
    assert_eq!(native_id(7), Some(7));
    assert_eq!(native_id(i32::MAX), Some(i32::MAX as u32));
    assert_eq!(native_id(0), None);
    assert_eq!(native_id(-3), None);
}

#[test]
fn both_backends_read_colours_alike() {
    let fallback = [1, 2, 3, 4];
    for value in ["#123456", "#12345680", "#zz", "", "#1234567"] {
        let gl = parse_color(value, fallback);
        let cpu = preview_color(value, (1, 2, 3));
        if gl == fallback {
            assert_eq!(cpu, (1, 2, 3, 255));
        } else {
            assert_eq!((gl[0], gl[1], gl[2], gl[3]), cpu);
        }
    }
    let _renderer = SoftwarePreviewRenderer;
}

#[test]
fn backend_follows_the_setting() {
    assert_eq!(
        PreviewRendererBackend::from_settings(true),
        PreviewRendererBackend::OpenGl
    );
    assert_eq!(
        PreviewRendererBackend::from_settings(false),
        PreviewRendererBackend::Software
    );
    assert_eq!(PreviewRendererBackend::default(), PreviewRendererBackend::OpenGl);
}
