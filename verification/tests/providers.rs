use bender::json::parse;
use bender::providers::{
    build_prompt, endpoint, ensure_completed_response, extract_output_text, extract_text, first_choice, image_data,
    is_bender_model_candidate, model_rank, normalize_text, provider_error, rank_models, read_openai_answer, response_preview,
    trim_base_url, try_read_openai_answer, usable_key, AgentResponse, Service,
};

#[test]
fn answers_are_taken_apart_or_as_they_are() {
    let plain = normalize_text("  hello \n", None);
    assert_eq!(plain.summary, "hello");
    assert_eq!(plain.diff, "");
    assert!(plain.tool_calls.is_empty());
    let parsed = AgentResponse { summary: " s ".into(), diff: "d".into(), tool_calls: vec![] };
    assert_eq!(normalize_text("ignored", Some(parsed)).summary, " s ");
}

#[test]
fn prompts_hold_the_rules_the_tools_and_the_request() {
    let prompt = build_prompt("INSTRUCTION", "CONTEXT", "TOOLS");
    assert!(prompt.starts_with("You are Bender, a local coding agent.\n\nRules:\n- Answer normal questions directly.\n"));
    assert!(prompt.ends_with("implementation details.\n\nTOOLS\n\nUser request:\nINSTRUCTION\n\nCONTEXT\n"));
}

#[test]
fn addresses_are_joined_without_slashes() {
    assert_eq!(trim_base_url(" http://host:1// "), "http://host:1");
    assert_eq!(endpoint("http://host:1/", "/v1/models"), "http://host:1/v1/models");
    assert_eq!(usable_key(Some("k")), Some("k"));
    assert_eq!(usable_key(Some("  ")), None);
    assert_eq!(usable_key(None), None);
    assert_eq!(
        provider_error("listing models", "401 Unauthorized", "no"),
        "provider error while listing models: HTTP 401 Unauthorized: no"
    );
    assert_eq!(image_data("data:image/png;base64,AAAA,B").as_deref(), Some("AAAA,B"));
    assert_eq!(image_data("nothing"), None);
}

#[test]
fn long_replies_are_cut() {
    let short = "x".repeat(1600);
    assert_eq!(response_preview(&short), short);
    let long = "x".repeat(1601);
    assert_eq!(response_preview(&long), format!("{short}..."));
    let wide = format!("{}éy", "x".repeat(1598));
    assert_eq!(response_preview(&wide), format!("{}é...", "x".repeat(1598)));
}

#[test]
fn texts_are_collected_from_nested_output() {
    let reply = parse(
        r#"{"output":[{"type":"reasoning"},{"type":"message","content":[{"type":"output_text","text":"a"},{"type":"text","text":"b"},{"type":"image"}]},{"type":"other","items":[{"type":"summary_text","text":"c"}]}]}"#,
    )
    .unwrap();
    assert_eq!(extract_output_text(&reply).as_deref(), Some("abc"));
    assert_eq!(extract_output_text(&parse(r#"{"output_text":"direct","output":[]}"#).unwrap()).as_deref(), Some("direct"));
    assert_eq!(extract_output_text(&parse(r#"{"output":[]}"#).unwrap()), None);
    assert_eq!(extract_output_text(&parse(r#"{}"#).unwrap()), None);
    let message = parse(r#"{"output":[{"type":"message","content":"plain"}]}"#).unwrap();
    assert_eq!(extract_output_text(&message).as_deref(), Some("plain"));
}

#[test]
fn content_items_and_choices_are_read() {
    let reply = parse(r#"{"content":[{"type":"text","text":"a"},{"type":"tool_use"},{"type":"text","text":"b"}]}"#).unwrap();
    assert_eq!(extract_text(&reply).as_deref(), Some("ab"));
    assert_eq!(extract_text(&parse(r#"{"content":[{"type":"text","text":"  "}]}"#).unwrap()), None);
    assert_eq!(extract_text(&parse(r#"{}"#).unwrap()), None);
    let choice = parse(r#"{"choices":[{"message":{"content":"first"}},{"message":{"content":"second"}}]}"#).unwrap();
    assert_eq!(first_choice(&choice).as_deref(), Some("first"));
    assert_eq!(first_choice(&parse(r#"{"choices":[]}"#).unwrap()), None);
}

#[test]
fn incomplete_replies_are_refused() {
    let read = |body: &str| read_openai_answer(body);
    assert_eq!(read(r#"{"status":"completed","output_text":"ok"}"#).unwrap(), "ok");
    assert_eq!(read(r#"{"output_text":"ok","error":null}"#).unwrap(), "ok");
    assert_eq!(read(r#"{ "error": {"code": 1} }"#).unwrap_err(), r#"OpenAI response error: {"code":1}"#);
    assert_eq!(
        read(r#"{"status":"incomplete", "incomplete_details": {"reason": "x"}}"#).unwrap_err(),
        r#"OpenAI response status was incomplete: {"reason":"x"}"#
    );
    assert_eq!(read(r#"{"status":"failed"}"#).unwrap_err(), "OpenAI response status was failed: no details");
    assert_eq!(
        read(r#"{ "status": "completed" }"#).unwrap_err(),
        r#"OpenAI response did not contain output text. Response preview: {"status":"completed"}"#
    );
    assert_eq!(read("{broken").unwrap_err(), "invalid OpenAI JSON");
    assert!(ensure_completed_response(r#"{"status":"completed"}"#).is_ok());
    assert_eq!(ensure_completed_response("no").unwrap_err(), "invalid OpenAI JSON");
}

#[test]
fn services_answer_each_in_their_form() {
    assert_eq!(Service::Chat.read_answer(r#"{"choices":[{"message":{"content":"a"}}]}"#).unwrap(), "a");
    assert_eq!(Service::Ollama.read_answer(r#"{"message":{"content":"b"}}"#).unwrap(), "b");
    assert_eq!(Service::Anthropic.read_answer(r#"{"content":[{"type":"text","text":"c"}]}"#).unwrap(), "c");
    assert_eq!(Service::Chat.read_answer("{").unwrap_err(), "invalid chat JSON");
    assert_eq!(Service::Anthropic.read_answer("{").unwrap_err(), "invalid Anthropic JSON");
    assert_eq!(
        Service::Ollama.read_answer("{ }").unwrap_err(),
        "Ollama response did not contain message content. Response preview: {}"
    );
    assert_eq!(
        Service::Anthropic.read_answer("[1, 2]").unwrap_err(),
        "Anthropic response did not contain text. Response preview: [1,2]"
    );
}

#[test]
fn previews_that_would_cut_a_character_are_not_given() {
    // A text is printed with a quote before it, so its byte n is byte n + 1 of what is shown.
    let whole = format!("\"{}é{}\"", "x".repeat(1597), "y".repeat(10));
    let cut = format!("\"{}é{}\"", "x".repeat(1598), "y".repeat(10));
    assert_eq!(
        Service::Ollama.try_read_answer(&whole).unwrap().unwrap_err(),
        format!("Ollama response did not contain message content. Response preview: \"{}é...", "x".repeat(1597))
    );
    assert!(Service::Ollama.try_read_answer(&cut).is_none());
    assert!(try_read_openai_answer(&cut).is_none());
    assert!(try_read_openai_answer(&whole).unwrap().is_err());
    assert_eq!(try_read_openai_answer(r#"{"output_text":"ok"}"#).unwrap().unwrap(), "ok");
    assert_eq!(Service::Chat.try_read_answer("{").unwrap().unwrap_err(), "invalid chat JSON");
}

#[test]
fn coding_models_are_offered_first() {
    assert!(is_bender_model_candidate("gpt-5.1"));
    assert!(is_bender_model_candidate("codex-mini"));
    assert!(!is_bender_model_candidate("gpt-4o-audio-preview"));
    assert!(!is_bender_model_candidate("gpt-image-1"));
    assert!(!is_bender_model_candidate("text-embedding-3"));
    assert_eq!(model_rank("gpt-5.1-codex"), 0);
    assert_eq!(model_rank("gpt-5.1-codex-mini"), 1);
    assert_eq!(model_rank("gpt-5.1"), 2);
    assert_eq!(model_rank("gpt-5-nano"), 3);
    assert_eq!(model_rank("gpt-4o"), 4);
    let ids: Vec<String> = ["gpt-4o", "gpt-5-mini", "gpt-5.2-codex", "gpt-5.1", "gpt-5.1-codex", "gpt-5.1", "dall-e-3"]
        .iter()
        .map(|id| id.to_string())
        .collect();
    assert_eq!(rank_models(&ids), vec!["gpt-5.1-codex", "gpt-5.2-codex", "gpt-5.1", "gpt-5-mini", "gpt-4o"]);
}
