use comfy_executor::error::ExecutorError;
use comfy_executor::llm::{completions_url, llama_cli_args, LlamaRequest};

fn request(model: &str) -> LlamaRequest {
    LlamaRequest {
        model_path: model.to_string(),
        prompt: "hi there".to_string(),
        max_tokens: 512,
        temperature: "0.7".to_string(),
        top_p: "0.9".to_string(),
        mmproj: Some(String::new()),
        seed: -1,
        system_prompt: None,
        extra_args: Some("  --ctx 4096 -ngl  99 ".to_string()),
    }
}

#[test]
fn completions_endpoint() {
    assert_eq!(completions_url("http://h:8080/"), "http://h:8080/v1/completions");
    assert_eq!(completions_url("http://h//"), "http://h/v1/completions");
    assert_eq!(completions_url("http://h"), "http://h/v1/completions");
    assert_eq!(completions_url(""), "/v1/completions");
}

#[test]
fn llama_command_line() {
    let args = llama_cli_args("n", &request("m.gguf")).unwrap();
    assert_eq!(
        args,
        vec![
            "-m", "m.gguf", "-p", "hi there", "--n-predict", "512", "--temp", "0.7", "--top-p",
            "0.9", "--no-display-prompt", "--log-disable", "--ctx", "4096", "-ngl", "99",
        ]
    );
    let mut q = request("m.gguf");
    q.mmproj = Some("p.gguf".to_string());
    q.seed = 7;
    q.system_prompt = Some("be brief".to_string());
    q.max_tokens = -5;
    q.extra_args = None;
    let args = llama_cli_args("n", &q).unwrap();
    assert_eq!(
        args,
        vec![
            "-m", "m.gguf", "-p", "hi there", "--n-predict", "-5", "--temp", "0.7", "--top-p",
            "0.9", "--no-display-prompt", "--log-disable", "--mmproj", "p.gguf", "--seed", "7",
            "--system-prompt", "be brief",
        ]
    );
}

#[test]
fn llama_needs_a_model() {
    match llama_cli_args("n", &request("")) {
        Err(ExecutorError::NodeExecutionFailed { node_id, message }) => {
            assert_eq!(node_id, "n");
            assert_eq!(message, "LLM model path is empty");
        }
        other => panic!("unexpected {:?}", other),
    }
}
