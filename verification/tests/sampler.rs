use comfy_executor::error::ExecutorError;
use comfy_executor::models::{
    check_text_encoders, check_wan_encoder, clip_loader, complete_support_files,
    dual_clip_loader, model_type_for, wan_model_type_for, ModelType, SupportFiles,
};

fn names(v: &[&str]) -> Vec<String> {
    v.iter().map(|s| s.to_string()).collect()
}

fn none() -> SupportFiles {
    SupportFiles { clip_l: None, clip_g: None, t5xxl: None, vae: None }
}

#[test]
fn sampler_family_from_loader_or_file() {
    assert_eq!(model_type_for("flux", "sd3_medium.safetensors"), ModelType::Flux);
    assert_eq!(model_type_for("sd15", ""), ModelType::SD15);
    assert_eq!(model_type_for("ltx", ""), ModelType::LTX);
    assert_eq!(model_type_for("", "my_SDXL_model.safetensors"), ModelType::SDXL);
    assert_eq!(model_type_for("SD3", "wan2.1.gguf"), ModelType::Wan);
    assert_eq!(model_type_for("other", "x"), ModelType::Unknown);
}

#[test]
fn support_files_keep_given_and_fill_missing() {
    let given = SupportFiles { clip_l: Some("mine".to_string()), ..none() };
    let te = names(&["t5xxl_fp16.safetensors", "clip_l.safetensors", "clip_g.safetensors"]);
    let vae = names(&["flux_vae.gguf", "ae.safetensors", "notes.txt"]);
    let r = complete_support_files(ModelType::Flux, given, &te, &vae);
    assert_eq!(r.clip_l.as_deref(), Some("mine"));
    assert_eq!(r.clip_g, None);
    assert_eq!(r.t5xxl.as_deref(), Some("t5xxl_fp16.safetensors"));
    assert_eq!(r.vae.as_deref(), Some("ae.safetensors"));

    let given = SupportFiles { vae: Some("v.safetensors".to_string()), ..none() };
    let r = complete_support_files(ModelType::SD3, given, &te, &vae);
    assert_eq!(r.clip_l.as_deref(), Some("clip_l.safetensors"));
    assert_eq!(r.clip_g.as_deref(), Some("clip_g.safetensors"));
    assert_eq!(r.vae.as_deref(), Some("v.safetensors"));

    let r = complete_support_files(ModelType::LTX, none(), &te, &vae);
    assert_eq!(r.clip_l, None);
    assert_eq!(r.t5xxl, None);
    assert_eq!(r.vae, None);
}

#[test]
fn missing_text_encoders_refused() {
    match check_text_encoders("5", ModelType::Flux, &none()) {
        Err(ExecutorError::NodeExecutionFailed { node_id, message }) => {
            assert_eq!(node_id, "5");
            assert_eq!(
                message,
                "Flux model requires text encoders [clip_l, t5xxl] but they are missing. \
                 Please download them to models/text_encoders/ directory."
            );
        }
        other => panic!("unexpected {:?}", other),
    }
    match check_text_encoders("9", ModelType::LTX, &none()) {
        Err(e) => assert_eq!(
            e.message(),
            "Execution failed for node '9': LTX model requires text encoders [clip_l, clip_g, t5xxl] \
             but they are missing. Please download them to models/text_encoders/ directory."
        ),
        Ok(()) => panic!("expected a refusal"),
    }
    let only_t5 = SupportFiles { t5xxl: Some("t".to_string()), ..none() };
    assert!(check_text_encoders("1", ModelType::Wan, &only_t5).is_ok());
    match check_text_encoders("1", ModelType::SDXL, &only_t5) {
        Err(ExecutorError::NodeExecutionFailed { message, .. }) => assert!(message
            .starts_with("SDXL model requires text encoders [clip_l, clip_g]")),
        other => panic!("unexpected {:?}", other),
    }
}

#[test]
fn wan_sampler_family_and_encoder() {
    assert_eq!(wan_model_type_for("sdxl"), ModelType::SDXL);
    assert_eq!(wan_model_type_for("wan"), ModelType::Wan);
    assert_eq!(wan_model_type_for("ltx"), ModelType::Wan);
    assert_eq!(wan_model_type_for(""), ModelType::Wan);
    match check_wan_encoder("w", &none()) {
        Err(ExecutorError::NodeExecutionFailed { node_id, message }) => {
            assert_eq!(node_id, "w");
            assert_eq!(message, "Wan model requires t5xxl text encoder but it is missing.");
        }
        other => panic!("unexpected {:?}", other),
    }
    let with_t5 = SupportFiles { t5xxl: Some("t5xxl.gguf".to_string()), ..none() };
    assert!(check_wan_encoder("w", &with_t5).is_ok());
}

fn slots(f: &SupportFiles) -> (Option<&str>, Option<&str>, Option<&str>) {
    (f.clip_l.as_deref(), f.clip_g.as_deref(), f.t5xxl.as_deref())
}

#[test]
fn clip_loader_slots() {
    let (t, f) = clip_loader("", "t5xxl_fp16.safetensors", "p".to_string());
    assert_eq!((t.as_str(), slots(&f)), ("sd3", (None, None, Some("p"))));
    let (t, f) = clip_loader("", "CLIP_G.safetensors", "p".to_string());
    assert_eq!((t.as_str(), slots(&f)), ("stable_cascade", (None, Some("p"), None)));
    let (t, f) = clip_loader("", "clip_l.safetensors", "p".to_string());
    assert_eq!((t.as_str(), slots(&f)), ("stable_diffusion", (Some("p"), None, None)));
    let (t, f) = clip_loader("flux", "clip_l.safetensors", "p".to_string());
    assert_eq!((t.as_str(), slots(&f)), ("flux", (None, None, Some("p"))));
    let (t, f) = clip_loader("hunyuan", "my_T5.gguf", "p".to_string());
    assert_eq!((t.as_str(), slots(&f)), ("hunyuan", (None, None, Some("p"))));
    let (_, f) = clip_loader("hunyuan", "x.gguf", "p".to_string());
    assert_eq!(slots(&f), (Some("p"), None, None));
    assert_eq!(f.vae, None);
}

#[test]
fn dual_clip_loader_slots() {
    let d = |t: &str| dual_clip_loader(t, "a".to_string(), "b".to_string());
    assert_eq!(slots(&d("sd3")), (Some("a"), Some("a"), Some("b")));
    assert_eq!(slots(&d("wan")), (None, None, Some("b")));
    assert_eq!(slots(&d("sdxl")), (Some("a"), Some("b"), None));
    assert_eq!(slots(&d("flux")), (Some("a"), None, Some("b")));
    assert_eq!(slots(&d("other")), (Some("a"), Some("b"), None));
}
