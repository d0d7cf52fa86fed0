use comfy_executor::models::{
    auto_detect_text_encoders, auto_detect_vae, detect_model_type, find_file_in_dir,
    find_file_in_dir_contains, model_subdir, parse_sample_method, parse_scheduler, parse_sd_type,
    scan_input_images, scan_input_videos, sort_strings, ModelType, SampleMethod, Scheduler, SdType,
};

fn names(v: &[&str]) -> Vec<String> {
    v.iter().map(|s| s.to_string()).collect()
}

#[test]
fn model_families() {
    assert_eq!(detect_model_type("SD3.5_large.safetensors"), ModelType::SD3);
    assert_eq!(detect_model_type("flux1-dev.gguf"), ModelType::Flux);
    assert_eq!(detect_model_type("SDXL_base"), ModelType::SDXL);
    assert_eq!(detect_model_type("wan2.1"), ModelType::Wan);
    assert_eq!(detect_model_type("LTX-Video"), ModelType::LTX);
    assert_eq!(detect_model_type("v1-5-pruned"), ModelType::SD15);
    assert_eq!(detect_model_type("Stable-Diffusion-1.4"), ModelType::SD15);
    assert_eq!(detect_model_type("mystery"), ModelType::Unknown);
    // earlier families win
    assert_eq!(detect_model_type("flux_wan"), ModelType::Flux);
}

#[test]
fn first_matching_file_in_sorted_order() {
    let listing = names(&["clip_l_b.safetensors", "readme.txt", "CLIP_L_a.GGUF", "t5xxl.bin"]);
    assert_eq!(find_file_in_dir(&listing, &vec!["clip_l"]), Some("CLIP_L_a.GGUF".to_string()));
    assert_eq!(find_file_in_dir(&listing, &vec!["t5xxl"]), None);
    assert_eq!(find_file_in_dir(&vec![], &vec!["clip_l"]), None);
    let vae = names(&["ltx-video-vae.safetensors", "my_video_vae.gguf"]);
    assert_eq!(find_file_in_dir_contains(&vae, &vec!["video_vae", "video-vae"]), Some("ltx-video-vae.safetensors".to_string()));
}

#[test]
fn encoders_per_family() {
    let listing = names(&["clip_l.safetensors", "clip_g.safetensors", "t5xxl_fp16.safetensors"]);
    let all = (
        Some("clip_l.safetensors".to_string()),
        Some("clip_g.safetensors".to_string()),
        Some("t5xxl_fp16.safetensors".to_string()),
    );
    assert_eq!(auto_detect_text_encoders(ModelType::SD3, &listing), all);
    assert_eq!(auto_detect_text_encoders(ModelType::Flux, &listing), (all.0.clone(), None, all.2.clone()));
    assert_eq!(auto_detect_text_encoders(ModelType::LTX, &listing), (None, None, None));
    assert_eq!(auto_detect_text_encoders(ModelType::Wan, &listing), (None, None, all.2.clone()));
}

#[test]
fn vae_per_family() {
    let listing = names(&["ae.safetensors", "sdxl_vae.safetensors", "wan_vae.gguf", "video_vae.safetensors"]);
    assert_eq!(auto_detect_vae(ModelType::Flux, &listing), Some("ae.safetensors".to_string()));
    assert_eq!(auto_detect_vae(ModelType::SDXL, &listing), Some("sdxl_vae.safetensors".to_string()));
    assert_eq!(auto_detect_vae(ModelType::Wan, &listing), Some("wan_vae.gguf".to_string()));
    assert_eq!(auto_detect_vae(ModelType::LTX, &listing), Some("video_vae.safetensors".to_string()));
    assert_eq!(auto_detect_vae(ModelType::Unknown, &listing), Some("ae.safetensors".to_string()));
}

#[test]
fn input_files() {
    let listing: Vec<(String, String)> = vec![
        ("b/pic.PNG".to_string(), "pic.PNG".to_string()),
        ("a.jpg".to_string(), "a.jpg".to_string()),
        ("clip.mp4".to_string(), "clip.mp4".to_string()),
        ("anim.gif".to_string(), "anim.gif".to_string()),
        ("notes.txt".to_string(), "notes.txt".to_string()),
    ];
    assert_eq!(scan_input_images(&listing), names(&["a.jpg", "anim.gif", "b/pic.PNG"]));
    assert_eq!(scan_input_videos(&listing), names(&["anim.gif", "clip.mp4"]));
    assert!(scan_input_images(&vec![]).is_empty());
}

#[test]
fn sorting_matches_std() {
    let v = names(&["b", "a", "ab", "", "B", "\u{e9}", "e", "a"]);
    let mut expected = v.clone();
    expected.sort();
    assert_eq!(sort_strings(v), expected);
}

#[test]
fn model_directories() {
    assert_eq!(model_subdir("clip"), "text_encoders");
    assert_eq!(model_subdir("vae"), "vae");
    assert_eq!(model_subdir("custom"), "custom");
}

#[test]
fn sampler_names() {
    assert_eq!(parse_sample_method("euler"), SampleMethod::Euler);
    assert_eq!(parse_sample_method("euler_a"), SampleMethod::EulerA);
    assert_eq!(parse_sample_method("dpmpp_2m_sde"), SampleMethod::DPMPP2Mv2);
    assert_eq!(parse_sample_method("ddim"), SampleMethod::DDIMTrailing);
    assert_eq!(parse_sample_method("unknown"), SampleMethod::EulerA);
    assert_eq!(parse_scheduler("normal"), Scheduler::Discrete);
    assert_eq!(parse_scheduler("ays"), Scheduler::SgmUniform);
    assert_eq!(parse_scheduler("karras"), Scheduler::Karras);
    assert_eq!(parse_scheduler("?"), Scheduler::Discrete);
    assert_eq!(parse_sd_type("bf16"), SdType::BF16);
    assert_eq!(parse_sd_type("q4_k"), SdType::Q4_K);
    assert_eq!(parse_sd_type("q9"), SdType::Q8_0);
}
