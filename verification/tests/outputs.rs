use comfy_executor::outputs::{
    audio_extension, frame_span, image_filename, stamped_filename, video_extension,
};

#[test]
fn saved_image_names() {
    assert_eq!(image_filename("ComfyUI", 3), "ComfyUI_00003.png");
    assert_eq!(image_filename("ComfyUI", 0), "ComfyUI_00000.png");
    assert_eq!(image_filename("x", 99999), "x_99999.png");
    assert_eq!(image_filename("x", 123456), "x_123456.png");
    assert_eq!(image_filename("", 42), format!("_{:05}.png", 42));
}

#[test]
fn saved_media_names() {
    assert_eq!(audio_extension("flac"), "flac");
    assert_eq!(audio_extension("mp3"), "mp3");
    assert_eq!(audio_extension("ogg"), "ogg");
    assert_eq!(audio_extension("aac"), "wav");
    assert_eq!(video_extension("webm"), "webm");
    assert_eq!(video_extension("mp4"), "mp4");
    assert_eq!(video_extension("mov"), "gif");
    assert_eq!(stamped_filename("a", "20240101_000000", "wav"), "a_20240101_000000.wav");
}

#[test]
fn loaded_frame_spans() {
    assert_eq!(frame_span(10, 40), 30);
    assert_eq!(frame_span(10, 0), 0);
    assert_eq!(frame_span(50, 40), -10);
}
