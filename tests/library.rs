use completion_server::config::{Configuration, Model};
use llm::ModelArchitecture::{Bloom, Gpt2, GptJ, Llama, NeoX};
use completion_server::executor::Executor;
use completion_server::generation::{Feedback, Generation, TokenEvent};
use completion_server::http::{completion_response, index, Delivery, Status};
use completion_server::request::{parse_max_tokens, CompletionRequest, DEFAULT_MAX_TOKENS};

fn request(prompt: &str, cap: &str) -> CompletionRequest {
    CompletionRequest::new(prompt.to_string(), cap.to_string())
}

/// Feeds tokens to a generation call as a model that never ends would, until
/// the call stops asking; returns how many tokens were handed over.
fn feed_tokens(g: &mut Generation, tokens: &[&str]) -> usize {
    let mut fed = 0;
    for t in tokens {
        if !g.wants_token() {
            break;
        }
        g.on_event(TokenEvent::InferredToken(t.to_string()));
        fed += 1;
    }
    fed
}

#[test]
fn cap_reads_positive_integers() {
    assert_eq!(parse_max_tokens("5"), 5);
    assert_eq!(parse_max_tokens("500"), 500);
    assert_eq!(parse_max_tokens("+7"), 7);
    assert_eq!(parse_max_tokens("007"), 7);
    assert_eq!(parse_max_tokens("18446744073709551615"), usize::MAX);
}

#[test]
fn cap_falls_back_to_default() {
    assert_eq!(DEFAULT_MAX_TOKENS, 500);
    assert_eq!(parse_max_tokens("abc"), 500);
    assert_eq!(parse_max_tokens(""), 500);
    assert_eq!(parse_max_tokens("+"), 500);
    assert_eq!(parse_max_tokens("0"), 500);
    assert_eq!(parse_max_tokens("-3"), 500);
    assert_eq!(parse_max_tokens(" 5"), 500);
    assert_eq!(parse_max_tokens("12a"), 500);
    assert_eq!(parse_max_tokens("18446744073709551616"), 500);
    assert_eq!(parse_max_tokens("99999999999999999999999"), 500);
}

#[test]
fn request_reads_its_cap() {
    assert_eq!(request("Hello", "5").max_tokens(), 5);
    assert_eq!(request("Hello", "abc").max_tokens(), 500);
}

#[test]
fn five_tokens_make_the_reply_without_end_of_text() {
    let req = request("Hello", "5");
    let mut g = Generation::for_request(&req);
    let tokens = [" there", "!", " how", " are", " you", " never", " sent"];
    assert_eq!(feed_tokens(&mut g, &tokens), 5);
    assert!(!g.wants_token());
    assert_eq!(g.finish(), Ok(" there! how are you".to_string()));
}

#[test]
fn fifth_token_halts() {
    let mut g = Generation::new(5);
    for t in [" there", "!", " how", " are"] {
        assert_eq!(g.on_event(TokenEvent::InferredToken(t.to_string())), Feedback::Continue);
    }
    assert_eq!(g.on_event(TokenEvent::InferredToken(" you".to_string())), Feedback::Halt);
    assert_eq!(g.on_event(TokenEvent::InferredToken(" more".to_string())), Feedback::Halt);
    assert_eq!(g.output(), " there! how are you");
}

#[test]
fn unreadable_cap_uses_default() {
    let req = request("Hello", "abc");
    let mut g = Generation::for_request(&req);
    let tokens = vec!["x"; 600];
    assert_eq!(feed_tokens(&mut g, &tokens), 500);
    assert_eq!(g.finish(), Ok("x".repeat(500)));
}

#[test]
fn end_of_text_stops_early() {
    let mut g = Generation::new(10);
    g.on_event(TokenEvent::PromptToken("Hello".to_string()));
    g.on_event(TokenEvent::InferredToken(" hi".to_string()));
    assert_eq!(g.on_event(TokenEvent::EndOfText), Feedback::Halt);
    assert!(!g.wants_token());
    g.on_event(TokenEvent::InferredToken(" late".to_string()));
    assert_eq!(g.finish(), Ok(" hi".to_string()));
}

#[test]
fn prompt_tokens_are_not_output() {
    let mut g = Generation::new(3);
    assert_eq!(g.on_event(TokenEvent::PromptToken("Hello".to_string())), Feedback::Continue);
    assert_eq!(g.output(), "");
    assert!(g.wants_token());
}

#[test]
fn model_failure_is_an_error() {
    let mut g = Generation::new(10);
    g.on_event(TokenEvent::InferredToken("a".to_string()));
    assert_eq!(g.on_event(TokenEvent::Failed("context full".to_string())), Feedback::Halt);
    assert_eq!(g.finish(), Err("context full".to_string()));
}

#[test]
fn executor_serves_one_at_a_time_in_order() {
    let mut ex = Executor::new();
    assert_eq!(ex.submit(request("a", "1")), Some(0));
    assert_eq!(ex.submit(request("b", "1")), Some(1));
    assert_eq!(ex.submit(request("c", "1")), Some(2));
    assert_eq!(ex.waiting(), 3);
    let first = ex.begin_next().unwrap();
    assert_eq!(first.ticket, 0);
    assert_eq!(first.request.prompt_tokens, "a");
    assert_eq!(ex.in_service(), Some(0));
    assert!(ex.begin_next().is_none());
    assert_eq!(ex.waiting(), 2);
    let mut g = Generation::for_request(&first.request);
    g.on_event(TokenEvent::InferredToken("1".to_string()));
    assert_eq!(ex.complete(0, g), Some(Ok("1".to_string())));
    assert_eq!(ex.in_service(), None);
    let second = ex.begin_next().unwrap();
    assert_eq!(second.ticket, 1);
    assert_eq!(second.request.prompt_tokens, "b");
}

#[test]
fn executor_answers_a_ticket_once() {
    let mut ex = Executor::new();
    ex.submit(request("a", "2"));
    let job = ex.begin_next().unwrap();
    assert!(ex.complete(7, Generation::new(1)).is_none());
    assert_eq!(ex.in_service(), Some(job.ticket));
    assert!(ex.complete(job.ticket, Generation::new(1)).is_some());
    assert!(ex.complete(job.ticket, Generation::new(1)).is_none());
    assert!(ex.begin_next().is_none());
}

#[test]
fn executor_survives_a_failed_generation() {
    let mut ex = Executor::new();
    ex.submit(request("bad", "5"));
    ex.submit(request("good", "5"));
    let job = ex.begin_next().unwrap();
    let mut g = Generation::for_request(&job.request);
    g.on_event(TokenEvent::Failed("model error".to_string()));
    assert_eq!(ex.complete(job.ticket, g), Some(Err("model error".to_string())));
    let next = ex.begin_next().unwrap();
    assert_eq!(next.request.prompt_tokens, "good");
    let mut g = Generation::for_request(&next.request);
    g.on_event(TokenEvent::InferredToken("fine".to_string()));
    g.on_event(TokenEvent::EndOfText);
    assert_eq!(ex.complete(next.ticket, g), Some(Ok("fine".to_string())));
}

#[test]
fn next_request_follows_the_previous_one() {
    let mut ex = Executor::new();
    ex.submit(request("Hello", "2"));
    ex.submit(request(" again", "2"));
    let a = ex.begin_next().unwrap();
    let mut g = Generation::for_request(&a.request);
    feed_tokens(&mut g, &[" there", "!"]);
    assert_eq!(ex.complete(a.ticket, g), Some(Ok(" there!".to_string())));
    let b = ex.begin_next().unwrap();
    assert_eq!(b.ticket, 1);
    assert_eq!(b.request.prompt_tokens, " again");
    let mut g = Generation::for_request(&b.request);
    feed_tokens(&mut g, &[" yes"]);
    g.on_event(TokenEvent::EndOfText);
    assert_eq!(ex.complete(b.ticket, g), Some(Ok(" yes".to_string())));
    assert_eq!(ex.in_service(), None);
    assert_eq!(ex.waiting(), 0);
}

#[test]
fn liveness_probe_succeeds() {
    let r = index();
    assert_eq!(r.status, Status::Success);
    assert_eq!(r.body, "pong");
}

#[test]
fn completion_replies_map_results() {
    let ok = completion_response(Delivery::Answered(Ok(" there! how are you".to_string())));
    assert_eq!(ok.status, Status::Success);
    assert_eq!(ok.body, " there! how are you");
    let err = completion_response(Delivery::Answered(Err("model error".to_string())));
    assert_eq!(err.status, Status::InternalServerError);
    assert_eq!(err.body, "model error");
    let lost = completion_response(Delivery::Undelivered);
    assert_eq!(lost.status, Status::InternalServerError);
    assert_eq!(lost.body, "Actor communication error");
}

#[test]
fn default_configuration() {
    let c = Configuration::default();
    assert_eq!(c.model.path, "models/llama-2-13b-chat.ggmlv3.q4_0.bin");
    assert_eq!(c.model.context_token_length, 2000);
    assert_eq!(c.model.architecture, "LLaMA");
    assert!(c.model.prefer_mmap);
    assert!(c.model.use_gpu);
    assert_eq!(c.model.gpu_layers, Some(50000));
    assert_eq!(c.model.architecture(), Some(llm::ModelArchitecture::Llama));
}

fn model_named(architecture: &str) -> Model {
    Model {
        path: "m.bin".to_string(),
        context_token_length: 16,
        architecture: architecture.to_string(),
        prefer_mmap: false,
        use_gpu: false,
        gpu_layers: None,
    }
}

#[test]
fn architecture_names() {
    assert_eq!(model_named("llama").architecture(), Some(llm::ModelArchitecture::Llama));
    assert_eq!(model_named("GPT-2").architecture(), Some(llm::ModelArchitecture::Gpt2));
    assert_eq!(model_named("GPT-NeoX").architecture(), Some(llm::ModelArchitecture::NeoX));
    assert_eq!(model_named("mistral").architecture(), None);
    assert_eq!(model_named("").architecture(), None);
}

#[test]
fn display_names_read_back() {
    for a in [Bloom, Gpt2, GptJ, Llama, NeoX] {
        assert_eq!(model_named(&a.to_string()).architecture(), Some(a));
    }
    assert_eq!(model_named("BLOOM").architecture(), Some(Bloom));
    assert_eq!(model_named("GPT-J").architecture(), Some(GptJ));
    assert_eq!(model_named("gptneox").architecture(), Some(NeoX));
}
