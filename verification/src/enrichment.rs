//! Enrichment: what a completion service is asked about a task, and what is
//! read out of its answer.
//!
//! The answer is free text. A priority is found by keyword; a time estimate
//! is the word that stands before the first "hours".

use vstd::prelude::*;
use vstd::string::StrSliceExecFns;
use vstd::string::StringExecFns;
use crate::json::{decode, decoded_members, string_member};
use crate::task::{optional_text, Priority, Task, TaskView};
use crate::text::{before_first, chars_of, contains, find, last_token, last_token_span, occurs};
use crate::text::lemma_first_occurrence;

verus! {

/// What an answer yields for a task.
#[derive(Debug, PartialEq, Eq)]
pub struct Enrichment {
    pub priority: Option<Priority>,
    pub estimated_time: Option<String>,
}

/// What an enrichment holds, as mathematical values.
pub struct EnrichmentView {
    pub priority: Option<Priority>,
    pub estimated_time: Option<Seq<char>>,
}

impl View for Enrichment {
    type V = EnrichmentView;

    open spec fn view(&self) -> EnrichmentView {
        EnrichmentView {
            priority: self.priority,
            estimated_time: optional_text(self.estimated_time),
        }
    }
}

/// Why no enrichment was had.
#[derive(Clone, Copy, Debug, PartialEq, Eq, Structural)]
pub enum EnrichmentError {
    /// The service gave no response.
    Unreachable,
    /// The response was not a JSON document.
    Malformed,
    /// The response was a JSON document without a text `completion`: an
    /// error report of the service, or another shape.
    MissingCompletion,
}

/// What is sent to the completion service.
#[derive(Debug, PartialEq, Eq)]
pub struct CompletionRequest {
    pub model: String,
    pub prompt: String,
    pub max_tokens_to_sample: u64,
}

/// The question put to the service about a task with this title.
pub open spec fn prompt_for(title: Seq<char>) -> Seq<char> {
    "Analyze the following task and suggest a priority level (High, Medium, Low) and estimated time to complete (in hours): "@
        + title
}

/// The question put to the service about a task with this title.
pub fn build_prompt(title: &str) -> (prompt: String)
    ensures
        prompt@ == prompt_for(title@),
{
    let lead = String::from_str(
        "Analyze the following task and suggest a priority level (High, Medium, Low) and estimated time to complete (in hours): ",
    );
    lead.concat(title)
}

/// How many tokens an answer may take.
pub const MAX_TOKENS_TO_SAMPLE: u64 = 150;

/// The request that asks the service's model `model` about a task with this
/// title.
pub fn completion_request(model: &str, title: &str) -> (request: CompletionRequest)
    ensures
        request.model@ == model@,
        request.prompt@ == prompt_for(title@),
        request.max_tokens_to_sample == MAX_TOKENS_TO_SAMPLE,
{
    CompletionRequest {
        model: String::from_str(model),
        prompt: build_prompt(title),
        max_tokens_to_sample: MAX_TOKENS_TO_SAMPLE,
    }
}

/// The priority that `text` names: the first of High, Medium and Low, in
/// that order, whose keyword stands anywhere in it.
pub open spec fn priority_in(text: Seq<char>) -> Option<Priority> {
    if occurs(text, Priority::High.keyword()) {
        Some(Priority::High)
    } else if occurs(text, Priority::Medium.keyword()) {
        Some(Priority::Medium)
    } else if occurs(text, Priority::Low.keyword()) {
        Some(Priority::Low)
    } else {
        None
    }
}

/// The time estimate that `text` names: the last word before the first
/// "hours", followed by " hours".
pub open spec fn estimated_time_in(text: Seq<char>) -> Option<Seq<char>> {
    match last_token(before_first(text, "hours"@)) {
        Some(token) => Some(token + " hours"@),
        None => None,
    }
}

/// A text yields no priority if and only if none of the three keywords
/// stands in it.
pub proof fn lemma_priority_absent(text: Seq<char>)
    ensures
        priority_in(text) is None <==> forall|any: Priority| !occurs(text, any.keyword()),
{
}

/// What `text` yields.
pub open spec fn enrichment_in(text: Seq<char>) -> EnrichmentView {
    EnrichmentView { priority: priority_in(text), estimated_time: estimated_time_in(text) }
}

fn mentions(text: &[char], priority: Priority) -> (hit: bool)
    ensures
        hit == occurs(text@, priority.keyword()),
{
    let keyword = chars_of(priority.label());
    contains(text, keyword.as_slice())
}

fn priority_from(text: &[char]) -> (priority: Option<Priority>)
    ensures
        priority == priority_in(text@),
{
    if mentions(text, Priority::High) {
        Some(Priority::High)
    } else if mentions(text, Priority::Medium) {
        Some(Priority::Medium)
    } else if mentions(text, Priority::Low) {
        Some(Priority::Low)
    } else {
        None
    }
}

fn estimated_time_from(text: &str, chars: &[char]) -> (estimate: Option<String>)
    requires
        chars@ == text@,
    ensures
        optional_text(estimate) == estimated_time_in(text@),
{
    let unit = chars_of("hours");
    let limit: usize = match find(chars, unit.as_slice()) {
        Some(at) => {
            proof {
                lemma_first_occurrence(chars@, unit@, at as int);
            }
            at
        },
        None => chars.len(),
    };
    let head = &chars[0..limit];
    assert(head@ == before_first(text@, "hours"@));
    match last_token_span(head) {
        Some((start, end)) => {
            let token = text.substring_char(start, end);
            Some(String::from_str(token).concat(" hours"))
        },
        None => None,
    }
}

/// The priority that `text` names.
pub fn parse_priority(text: &str) -> (priority: Option<Priority>)
    ensures
        priority == priority_in(text@),
{
    let chars = chars_of(text);
    priority_from(chars.as_slice())
}

/// The time estimate that `text` names.
pub fn parse_estimated_time(text: &str) -> (estimate: Option<String>)
    ensures
        optional_text(estimate) == estimated_time_in(text@),
{
    let chars = chars_of(text);
    estimated_time_from(text, chars.as_slice())
}

/// Reads priority and time estimate out of an answer's text.
pub fn parse_completion(text: &str) -> (enrichment: Enrichment)
    ensures
        enrichment@ == enrichment_in(text@),
{
    let chars = chars_of(text);
    Enrichment {
        priority: priority_from(chars.as_slice()),
        estimated_time: estimated_time_from(text, chars.as_slice()),
    }
}

/// Whether a response, given the string members it decodes to, holds an
/// answer: a string member `completion`.
pub open spec fn has_completion(decoded: Option<Map<Seq<char>, Seq<char>>>) -> bool {
    decoded matches Some(members) && members.contains_key("completion"@)
}

/// What a response yields, given the string members it decodes to: what
/// its string member `completion` yields. A response that decodes to
/// nothing, or that has no such member, is a failure.
pub open spec fn response_enrichment(decoded: Option<Map<Seq<char>, Seq<char>>>) -> Result<
    EnrichmentView,
    EnrichmentError,
> {
    match decoded {
        Some(members) => if members.contains_key("completion"@) {
            Ok(enrichment_in(members["completion"@]))
        } else {
            Err(EnrichmentError::MissingCompletion)
        },
        None => Err(EnrichmentError::Malformed),
    }
}

/// The outcome of an analysis, as mathematical values.
pub open spec fn outcome_view(outcome: Result<Enrichment, EnrichmentError>) -> Result<
    EnrichmentView,
    EnrichmentError,
> {
    match outcome {
        Ok(enrichment) => Ok(enrichment@),
        Err(error) => Err(error),
    }
}

/// What the response's member `completion` yields: the enrichment read
/// out of its text, and a failure where the response has no such text.
pub fn analyze_completion(member: Option<String>) -> (outcome: Result<Enrichment, EnrichmentError>)
    ensures
        member matches Some(text) ==> outcome_view(outcome) == Ok::<
            EnrichmentView,
            EnrichmentError,
        >(enrichment_in(text@)),
        member is None ==> outcome == Err::<Enrichment, EnrichmentError>(
            EnrichmentError::MissingCompletion,
        ),
{
    match member {
        Some(text) => Ok(parse_completion(text.as_str())),
        None => Err(EnrichmentError::MissingCompletion),
    }
}

/// Reads priority and time estimate out of the body of a response. A body
/// that is no JSON document is malformed. A document without a string
/// member `completion` is a failure too: nothing is read out of it.
pub fn analyze_response(body: &[u8]) -> (outcome: Result<Enrichment, EnrichmentError>)
    ensures
        outcome_view(outcome) == response_enrichment(decoded_members(body@)),
        outcome is Ok <==> has_completion(decoded_members(body@)),
{
    match decode(body) {
        Ok(document) => analyze_completion(string_member(&document, "completion")),
        Err(_) => Err(EnrichmentError::Malformed),
    }
}

/// `task` with what `enrichment` found: a priority or an estimate that was
/// found replaces the task's, one that was not leaves it.
pub open spec fn enriched(task: TaskView, enrichment: EnrichmentView) -> TaskView {
    TaskView {
        priority: if enrichment.priority is Some {
            enrichment.priority
        } else {
            task.priority
        },
        estimated_time: if enrichment.estimated_time is Some {
            enrichment.estimated_time
        } else {
            task.estimated_time
        },
        ..task
    }
}

/// Merges what an analysis found into `task`.
pub fn enrich(task: Task, enrichment: Enrichment) -> (merged: Task)
    ensures
        merged@ == enriched(task@, enrichment@),
{
    let Task { id, title, completed, priority, estimated_time } = task;
    Task {
        id,
        title,
        completed,
        priority: match enrichment.priority {
            Some(found) => Some(found),
            None => priority,
        },
        estimated_time: match enrichment.estimated_time {
            Some(found) => Some(found),
            None => estimated_time,
        },
    }
}

/// What analysing `task` gives, from what the exchange with the service
/// gave: `None` where no answer came, else the body of the response.
pub open spec fn analyzed(task: TaskView, reply: Option<Seq<u8>>) -> Result<
    TaskView,
    EnrichmentError,
> {
    match reply {
        None => Err(EnrichmentError::Unreachable),
        Some(body) => match response_enrichment(decoded_members(body)) {
            Ok(enrichment) => Ok(enriched(task, enrichment)),
            Err(error) => Err(error),
        },
    }
}

/// The bytes of a reply, if there is one.
pub open spec fn reply_view(reply: Option<&[u8]>) -> Option<Seq<u8>> {
    match reply {
        Some(body) => Some(body@),
        None => None,
    }
}

/// A task or a failure, as mathematical values.
pub open spec fn analysis_view(analysis: Result<Task, EnrichmentError>) -> Result<
    TaskView,
    EnrichmentError,
> {
    match analysis {
        Ok(task) => Ok(task@),
        Err(error) => Err(error),
    }
}

/// Enriches `task` from the service's reply: `None` where the exchange
/// failed, else the body of the response. It succeeds only on a response
/// that holds an answer; every failure leaves the caller free to go on with
/// the task as it was.
pub fn analyze_task(task: Task, reply: Option<&[u8]>) -> (analysis: Result<Task, EnrichmentError>)
    ensures
        analysis_view(analysis) == analyzed(task@, reply_view(reply)),
        analysis is Ok <==> (reply matches Some(body) && has_completion(decoded_members(body@))),
{
    match reply {
        None => Err(EnrichmentError::Unreachable),
        Some(body) => match analyze_response(body) {
            Ok(enrichment) => Ok(enrich(task, enrichment)),
            Err(error) => Err(error),
        },
    }
}

} // verus!
