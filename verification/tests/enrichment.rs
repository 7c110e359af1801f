use task_service::enrichment::{
    analyze_completion, analyze_response, analyze_task, build_prompt, completion_request, enrich,
    parse_completion, parse_estimated_time, parse_priority, CompletionRequest, Enrichment,
    EnrichmentError, MAX_TOKENS_TO_SAMPLE,
};
use task_service::task::{Priority, Task, TaskId};

fn sentence(first: &str, rest: &str) -> String {
    format!("{} {}", first, rest)
}

fn draft() -> Task {
    Task::draft(TaskId(7), "Buy milk".to_string())
}

fn body_with_completion(text: &str) -> Vec<u8> {
    let mut members = serde_json::Map::new();
    members.insert("completion".to_string(), serde_json::Value::String(text.to_string()));
    members.insert("stop_reason".to_string(), serde_json::Value::String("stop_sequence".to_string()));
    serde_json::to_vec(&serde_json::Value::Object(members)).unwrap()
}

#[test]
fn medium_priority_and_three_hours() {
    let answer = sentence("This", "task is Medium priority, about 3 hours");
    let found = parse_completion(&answer);
    assert_eq!(
        found,
        Enrichment { priority: Some(Priority::Medium), estimated_time: Some("3 hours".to_string()) }
    );
}

#[test]
fn no_keyword_gives_no_priority() {
    assert_eq!(parse_priority("Somewhat urgent, perhaps a day"), None);
    assert_eq!(parse_priority(""), None);
    assert_eq!(parse_priority("high medium low"), None);
    assert_eq!(parse_priority("HIGH"), None);
}

#[test]
fn each_keyword_gives_its_priority() {
    assert_eq!(parse_priority("Priority: High"), Some(Priority::High));
    assert_eq!(parse_priority("Priority: Medium"), Some(Priority::Medium));
    assert_eq!(parse_priority("Priority: Low"), Some(Priority::Low));
    assert_eq!(parse_priority("Lowest"), Some(Priority::Low));
}

#[test]
fn earlier_listed_keyword_wins_wherever_it_stands() {
    assert_eq!(parse_priority("Low rather than High"), Some(Priority::High));
    assert_eq!(parse_priority("Low, or Medium at most"), Some(Priority::Medium));
    assert_eq!(parse_priority("Medium, not High"), Some(Priority::High));
    assert_eq!(parse_priority("High Medium Low"), Some(Priority::High));
}

#[test]
fn estimate_is_the_word_before_the_first_hours() {
    assert_eq!(parse_estimated_time("about 3 hours"), Some("3 hours".to_string()));
    assert_eq!(parse_estimated_time("2 hours, or 5 hours at worst"), Some("2 hours".to_string()));
    assert_eq!(parse_estimated_time("1.5hours"), Some("1.5 hours".to_string()));
    assert_eq!(parse_estimated_time("between 2-3   hours"), Some("2-3 hours".to_string()));
    assert_eq!(parse_estimated_time("takes\t4\nhours"), Some("4 hours".to_string()));
}

#[test]
fn estimate_without_hours_takes_the_last_word() {
    assert_eq!(parse_estimated_time("no estimate"), Some("estimate hours".to_string()));
    assert_eq!(parse_estimated_time("High"), Some("High hours".to_string()));
}

#[test]
fn estimate_is_absent_where_nothing_stands_before_hours() {
    assert_eq!(parse_estimated_time(""), None);
    assert_eq!(parse_estimated_time("hours"), None);
    assert_eq!(parse_estimated_time("  hours of work"), None);
    assert_eq!(parse_estimated_time(" \t\n"), None);
}

#[test]
fn estimate_agrees_with_split_and_split_whitespace() {
    let texts = [
        "",
        "hours",
        "3 hours",
        "3hours",
        "it takes about 12 hours or 13 hours",
        "hourshours",
        "x hour s hours",
        "Low, 1\u{a0}hours",
        "Medium\u{2003}two\u{2003}hours",
        "no unit here",
    ];
    for text in texts {
        let expected = text
            .split("hours")
            .next()
            .and_then(|head| head.split_whitespace().last())
            .map(|word| format!("{} hours", word));
        assert_eq!(parse_estimated_time(text), expected, "{:?}", text);
    }
}

#[test]
fn prompt_holds_the_title_verbatim() {
    assert_eq!(
        build_prompt("Buy milk"),
        "Analyze the following task and suggest a priority level (High, Medium, Low) and estimated time to complete (in hours): Buy milk"
    );
    assert_eq!(
        build_prompt(""),
        "Analyze the following task and suggest a priority level (High, Medium, Low) and estimated time to complete (in hours): "
    );
}

#[test]
fn request_names_model_prompt_and_limit() {
    assert_eq!(MAX_TOKENS_TO_SAMPLE, 150);
    assert_eq!(
        completion_request("model-2", "Buy milk"),
        CompletionRequest {
            model: "model-2".to_string(),
            prompt: build_prompt("Buy milk"),
            max_tokens_to_sample: 150,
        }
    );
}

#[test]
fn completion_member_is_analyzed_or_missing() {
    assert_eq!(
        analyze_completion(Some("High, 4 hours".to_string())),
        Ok(Enrichment { priority: Some(Priority::High), estimated_time: Some("4 hours".to_string()) })
    );
    assert_eq!(
        analyze_completion(Some(String::new())),
        Ok(Enrichment { priority: None, estimated_time: None })
    );
    assert_eq!(analyze_completion(None), Err(EnrichmentError::MissingCompletion));
}

#[test]
fn response_with_completion_is_analyzed() {
    let body = body_with_completion(" I would say High priority and 2 hours of work.");
    assert_eq!(
        analyze_response(&body),
        Ok(Enrichment { priority: Some(Priority::High), estimated_time: Some("2 hours".to_string()) })
    );
}

#[test]
fn response_is_decoded_not_searched_as_bytes() {
    let body = b"{\"completion\": \"Low\\n1\\u0020hours\", \"note\": \"High 9 hours\"}";
    assert_eq!(
        analyze_response(body),
        Ok(Enrichment { priority: Some(Priority::Low), estimated_time: Some("1 hours".to_string()) })
    );
}

#[test]
fn response_with_empty_completion_yields_nothing() {
    assert_eq!(
        analyze_response(b"{\"completion\": \"\"}"),
        Ok(Enrichment { priority: None, estimated_time: None })
    );
}

#[test]
fn response_without_completion_text_is_a_failure() {
    let nothing = Err(EnrichmentError::MissingCompletion);
    assert_eq!(analyze_response(b"{}"), nothing);
    assert_eq!(analyze_response(b"{\"error\": {\"type\": \"authentication_error\"}}"), nothing);
    assert_eq!(analyze_response(b"{\"completion\": 3}"), nothing);
    assert_eq!(analyze_response(b"{\"completion\": null}"), nothing);
    assert_eq!(analyze_response(b"{\"completion\": [\"High\"]}"), nothing);
    assert_eq!(analyze_response(b"[\"completion\", \"High 2 hours\"]"), nothing);
    assert_eq!(analyze_response(b"\"High 2 hours\""), nothing);
    assert_eq!(analyze_response(b"null"), nothing);
}

#[test]
fn response_that_is_no_json_is_malformed() {
    assert_eq!(analyze_response(b""), Err(EnrichmentError::Malformed));
    assert_eq!(analyze_response(b"High 2 hours"), Err(EnrichmentError::Malformed));
    assert_eq!(analyze_response(b"{\"completion\": \"High\""), Err(EnrichmentError::Malformed));
    assert_eq!(analyze_response(b"{\"completion\": \"High\"} x"), Err(EnrichmentError::Malformed));
    assert_eq!(analyze_response(&[0xff, 0xfe]), Err(EnrichmentError::Malformed));
    assert_eq!(analyze_response(b"<html>502 Bad Gateway</html>"), Err(EnrichmentError::Malformed));
}

#[test]
fn last_of_repeated_members_counts() {
    let body = b"{\"completion\": \"High\", \"completion\": \"Low\"}";
    assert_eq!(analyze_response(body).unwrap().priority, Some(Priority::Low));
}

#[test]
fn enrich_fills_what_was_found() {
    let found = Enrichment { priority: Some(Priority::Low), estimated_time: Some("1 hours".to_string()) };
    let merged = enrich(draft(), found);
    assert_eq!(
        merged,
        Task {
            id: TaskId(7),
            title: "Buy milk".to_string(),
            completed: false,
            priority: Some(Priority::Low),
            estimated_time: Some("1 hours".to_string()),
        }
    );
}

#[test]
fn enrich_leaves_what_was_not_found() {
    let mut task = draft();
    task.completed = true;
    task.priority = Some(Priority::High);
    task.estimated_time = Some("9 hours".to_string());
    let merged = enrich(task.clone(), Enrichment { priority: None, estimated_time: None });
    assert_eq!(merged, task);
    let merged = enrich(
        task.clone(),
        Enrichment { priority: Some(Priority::Low), estimated_time: None },
    );
    assert_eq!(merged.priority, Some(Priority::Low));
    assert_eq!(merged.estimated_time, Some("9 hours".to_string()));
    assert!(merged.completed);
}

#[test]
fn analysis_without_reply_is_unreachable() {
    assert_eq!(analyze_task(draft(), None), Err(EnrichmentError::Unreachable));
}

#[test]
fn analysis_of_malformed_reply_fails() {
    assert_eq!(analyze_task(draft(), Some(b"not json")), Err(EnrichmentError::Malformed));
}

#[test]
fn analysis_of_reply_without_completion_fails() {
    let body = b"{\"error\": {\"type\": \"authentication_error\", \"message\": \"invalid x-api-key\"}}";
    assert_eq!(analyze_task(draft(), Some(body)), Err(EnrichmentError::MissingCompletion));
    assert_eq!(analyze_task(draft(), Some(b"{\"completion\": 3}")), Err(EnrichmentError::MissingCompletion));
    assert_eq!(analyze_task(draft(), Some(b"null")), Err(EnrichmentError::MissingCompletion));
}

#[test]
fn analysis_of_reply_enriches_the_task() {
    let body = body_with_completion("Medium. Roughly 6 hours.");
    let task = analyze_task(draft(), Some(&body)).unwrap();
    assert_eq!(task.id, TaskId(7));
    assert_eq!(task.title, "Buy milk");
    assert!(!task.completed);
    assert_eq!(task.priority, Some(Priority::Medium));
    assert_eq!(task.estimated_time, Some("6 hours".to_string()));
}
