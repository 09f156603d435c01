//! The decisions of the provider clients.
//!
//! A client builds a request, sends it, and on a rate limit or a failed
//! connection tries again after a growing pause, at most [`MAX_RETRIES`]
//! times. These functions take the decisions around each of those steps:
//! the caller performs the HTTP exchange and the pauses and hands the
//! outcome back.

use vstd::prelude::*;
use crate::text::{concat, concat3, owned, str_equal};
use super::{CompletionResponse, LlmError, Message, Provider, TokenUsage};

verus! {

/// Base URL of the Anthropic API.
pub const ANTHROPIC_DEFAULT_URL: &'static str = "https://api.anthropic.com/v1";

/// Base URL of a local Ollama server.
pub const OLLAMA_DEFAULT_URL: &'static str = "http://localhost:11434";

/// Base URL of the OpenAI API.
pub const OPENAI_DEFAULT_URL: &'static str = "https://api.openai.com/v1";

/// Version of the Anthropic API that requests are made against.
pub const ANTHROPIC_API_VERSION: &'static str = "2023-06-01";

/// How often a request is tried again after a rate limit or a failed
/// connection.
pub const MAX_RETRIES: u32 = 3;

/// Time after which a request is abandoned, in milliseconds.
pub const REQUEST_TIMEOUT_MS: u64 = 120_000;

/// What a client does after a failed request.
#[derive(Debug)]
pub enum RetryStep {
    /// Wait `delay_secs` seconds, then send the request again as attempt
    /// number `attempt`.
    Retry { attempt: u32, delay_secs: u64 },
    /// Give up with this error.
    Stop(LlmError),
}

/// The pause before retry number `attempt`: `2^attempt` seconds.
pub open spec fn backoff_secs(attempt: nat) -> nat
    decreases attempt,
{
    if attempt == 0 {
        1
    } else {
        2 * backoff_secs((attempt - 1) as nat)
    }
}

/// A failure after which the request is tried again, while retries remain.
pub open spec fn is_transient(e: LlmError) -> bool {
    e is RateLimited || e is ConnectionFailed
}

/// What follows the failure `err` of the request made after `attempt`
/// retries.
pub open spec fn retry_decision(attempt: u32, err: LlmError) -> RetryStep {
    if is_transient(err) && attempt < MAX_RETRIES {
        RetryStep::Retry {
            attempt: (attempt + 1) as u32,
            delay_secs: #[verifier::truncate] (backoff_secs((attempt + 1) as nat) as u64),
        }
    } else {
        RetryStep::Stop(err)
    }
}

/// Decides what follows the failure `err` of the request made after
/// `attempt` retries: a transient failure is retried, while fewer than
/// [`MAX_RETRIES`] retries were made, after a pause of `2^(attempt + 1)`
/// seconds; any other failure, or one after the last retry, is final.
pub fn next_step(attempt: u32, err: LlmError) -> (step: RetryStep)
    ensures
        step == retry_decision(attempt, err),
{
    let transient = match &err {
        LlmError::RateLimited(_) => true,
        LlmError::ConnectionFailed(_) => true,
        _ => false,
    };
    if transient && attempt < MAX_RETRIES {
        let next = attempt + 1;
        let mut delay: u64 = 1;
        let mut k: u32 = 0;
        while k < next
            invariant
                k <= next <= MAX_RETRIES,
                delay == backoff_secs(k as nat),
                delay <= 8,
            decreases next - k,
        {
            proof {
                assert(backoff_secs((k + 1) as nat) == 2 * backoff_secs(k as nat));
                lemma_backoff_bound(k as nat);
            }
            delay = delay * 2;
            k = k + 1;
        }
        RetryStep::Retry { attempt: next, delay_secs: delay }
    } else {
        RetryStep::Stop(err)
    }
}

/// Pauses before retries stay small: `2^k` seconds for `k` below
/// [`MAX_RETRIES`] is at most 4.
pub proof fn lemma_backoff_bound(k: nat)
    requires
        k < MAX_RETRIES,
    ensures
        backoff_secs(k) <= 4,
{
    reveal_with_fuel(backoff_secs, 3);
}

/// A run of retries ends: every retry raises the attempt count by one and
/// keeps it within [`MAX_RETRIES`], so a request is sent at most
/// `MAX_RETRIES + 1` times; the pauses are 2, 4 and 8 seconds; and a
/// failure that is not transient is returned as it is.
pub proof fn law_retries_are_bounded(attempt: u32, err: LlmError)
    ensures
        retry_decision(attempt, err) matches RetryStep::Retry { attempt: a, delay_secs: d } ==> a
            == attempt + 1 && a <= MAX_RETRIES && d == backoff_secs(a as nat) && 2 <= d <= 8,
        attempt >= MAX_RETRIES ==> retry_decision(attempt, err) == RetryStep::Stop(err),
        !is_transient(err) ==> retry_decision(attempt, err) == RetryStep::Stop(err),
{
    reveal_with_fuel(backoff_secs, 4);
}

/// A rate limit or a failed connection after fewer than [`MAX_RETRIES`]
/// retries is always retried, as the next attempt, after 2, 4 or 8 seconds
/// for the first, second or third retry; any other failure is final at once.
pub proof fn law_transient_failures_retried(attempt: u32, err: LlmError)
    ensures
        (err is RateLimited || err is ConnectionFailed) && attempt < MAX_RETRIES ==> retry_decision(
            attempt,
            err,
        ) == (RetryStep::Retry {
            attempt: (attempt + 1) as u32,
            delay_secs: if attempt == 0 {
                2u64
            } else if attempt == 1 {
                4u64
            } else {
                8u64
            },
        }),
        !(err is RateLimited || err is ConnectionFailed) ==> retry_decision(attempt, err)
            == RetryStep::Stop(err),
{
    reveal_with_fuel(backoff_secs, 4);
}

/// The error for a request that could not be delivered: a timeout, or a
/// failed connection with the transport's message.
pub fn transport_error(timed_out: bool, message: String) -> (e: LlmError)
    ensures
        timed_out ==> e == LlmError::Timeout(REQUEST_TIMEOUT_MS),
        !timed_out ==> e == LlmError::ConnectionFailed(message),
{
    if timed_out {
        LlmError::Timeout(REQUEST_TIMEOUT_MS)
    } else {
        LlmError::ConnectionFailed(message)
    }
}

/// An HTTP status that reports success.
pub open spec fn is_success_status(status: u16) -> bool {
    200 <= status <= 299
}

/// Whether an HTTP status reports success.
pub fn is_success(status: u16) -> (r: bool)
    ensures
        r == is_success_status(status),
{
    200 <= status && status <= 299
}

/// The error for an unsuccessful HTTP status: 401 is a failed
/// authentication, 404 an unknown model, 429 a rate limit, and any other
/// status an API error reading `HTTP <status>: <body>`.
pub fn status_error(status: u16, status_text: &str, body: String, model: &str) -> (e: LlmError)
    ensures
        status == 401 ==> e == LlmError::AuthenticationFailed(body),
        status == 404 ==> (e matches LlmError::ModelNotFound(m) && m@ == model@),
        status == 429 ==> e == LlmError::RateLimited(body),
        status != 401 && status != 404 && status != 429 ==> (e matches LlmError::ApiError(t) && t@
            == "HTTP "@ + status_text@ + ": "@ + body@),
{
    if status == 401 {
        LlmError::AuthenticationFailed(body)
    } else if status == 404 {
        LlmError::ModelNotFound(owned(model))
    } else if status == 429 {
        LlmError::RateLimited(body)
    } else {
        let mut t = concat3("HTTP ", status_text, ": ");
        t.append(body.as_str());
        LlmError::ApiError(t)
    }
}

/// The name under which a provider is reported.
pub open spec fn provider_label(p: Provider) -> Seq<char> {
    match p {
        Provider::Ollama => "Ollama"@,
        Provider::OpenAI => "OpenAI"@,
        Provider::Anthropic => "Anthropic"@,
    }
}

/// The name under which a provider is reported.
pub fn provider_name(p: Provider) -> (s: &'static str)
    ensures
        s@ == provider_label(p),
{
    match p {
        Provider::Ollama => "Ollama",
        Provider::OpenAI => "OpenAI",
        Provider::Anthropic => "Anthropic",
    }
}

/// The API key of a provider that needs one; its absence is a failed
/// authentication reading `<provider> API key required`.
pub fn require_api_key(provider: Provider, api_key: &Option<String>) -> (r: Result<
    String,
    LlmError,
>)
    ensures
        api_key matches Some(k) ==> r == Ok::<String, LlmError>(*k),
        api_key is None ==> (r matches Err(LlmError::AuthenticationFailed(m)) && m@
            == provider_label(provider) + " API key required"@),
{
    match api_key {
        Some(k) => Ok(k.clone()),
        None => Err(LlmError::AuthenticationFailed(concat(provider_name(provider), " API key required"))),
    }
}

/// The URL of an endpoint: the base URL followed by the endpoint's path.
pub fn endpoint(base_url: &str, path: &str) -> (url: String)
    ensures
        url@ == base_url@ + path@,
{
    concat(base_url, path)
}

/// The message views of a conversation.
pub open spec fn message_views(m: Seq<Message>) -> Seq<(Seq<char>, Seq<char>)> {
    m.map_values(|x: Message| (x.role@, x.content@))
}

/// The conversation sent to Anthropic: the messages without the system
/// ones, in order.
pub open spec fn without_system(m: Seq<(Seq<char>, Seq<char>)>) -> Seq<(Seq<char>, Seq<char>)> {
    m.filter(|x: (Seq<char>, Seq<char>)| x.0 != "system"@)
}

/// The messages sent to Anthropic are exactly the non-system messages of the
/// conversation, in order: nothing is sent for no messages; adding a
/// message at the end adds it to what is sent unless it is a system
/// message; every non-system message is sent; and everything sent is a
/// non-system message of the conversation.
pub proof fn law_anthropic_keeps_non_system(m: Seq<(Seq<char>, Seq<char>)>, x: (Seq<char>, Seq<char>))
    ensures
        without_system(Seq::empty()) == Seq::<(Seq<char>, Seq<char>)>::empty(),
        without_system(m.push(x)) == (if x.0 == "system"@ {
            without_system(m)
        } else {
            without_system(m).push(x)
        }),
        forall|i: int| 0 <= i < m.len() && m[i].0 != "system"@ ==> without_system(m).contains(m[i]),
        forall|y: (Seq<char>, Seq<char>)| without_system(m).contains(y) ==> m.contains(y) && y.0 != "system"@,
{
    reveal(Seq::filter);
    let pred = |x: (Seq<char>, Seq<char>)| x.0 != "system"@;
    assert(m.push(x).drop_last() =~= m);
    assert(Seq::<(Seq<char>, Seq<char>)>::empty().filter(pred) =~= Seq::<(Seq<char>, Seq<char>)>::empty());
    m.filter_lemma(pred);
    assert forall|y: (Seq<char>, Seq<char>)| without_system(m).contains(y) implies m.contains(y)
        && y.0 != "system"@ by {
        m.lemma_filter_contains_rev(pred, y);
        let f = m.filter(pred);
        let k = choose|k: int| 0 <= k < f.len() && f[k] == y;
        assert(pred(f[k]));
    }
}

/// A copy of a message.
pub fn copy_message(m: &Message) -> (c: Message)
    ensures
        c.role@ == m.role@,
        c.content@ == m.content@,
{
    Message { role: m.role.clone(), content: m.content.clone() }
}

/// The messages of a request to OpenAI or Ollama: all of them, in order.
pub fn chat_messages(messages: &Vec<Message>) -> (r: Vec<Message>)
    ensures
        message_views(r@) == message_views(messages@),
{
    let mut r: Vec<Message> = Vec::new();
    let mut i: usize = 0;
    while i < messages.len()
        invariant
            i <= messages@.len(),
            message_views(r@) == message_views(messages@.take(i as int)),
        decreases messages@.len() - i,
    {
        let ghost before = r@;
        let c = copy_message(&messages[i]);
        r.push(c);
        proof {
            assert(r@ =~= before.push(c));
            assert(messages@.take(i + 1) =~= messages@.take(i as int).push(messages@[i as int]));
            assert(message_views(r@) =~= message_views(before).push((c.role@, c.content@)));
            assert(message_views(messages@.take(i + 1)) =~= message_views(messages@.take(i as int)).push(
                (messages@[i as int].role@, messages@[i as int].content@),
            ));
        }
        i = i + 1;
    }
    assert(messages@.take(i as int) =~= messages@);
    r
}

/// The messages of a request to Anthropic: the system messages are left
/// out, the others kept in order.
pub fn anthropic_messages(messages: &Vec<Message>) -> (r: Vec<Message>)
    ensures
        message_views(r@) == without_system(message_views(messages@)),
{
    let mut r: Vec<Message> = Vec::new();
    let mut i: usize = 0;
    let ghost all = message_views(messages@);
    while i < messages.len()
        invariant
            i <= messages@.len(),
            all == message_views(messages@),
            message_views(r@) == without_system(all.take(i as int)),
        decreases messages@.len() - i,
    {
        let ghost before = r@;
        let keep = !str_equal(messages[i].role.as_str(), "system");
        if keep {
            r.push(copy_message(&messages[i]));
        }
        proof {
            let t = all.take(i + 1);
            assert(t.drop_last() =~= all.take(i as int));
            assert(t.last() == all[i as int]);
            reveal(Seq::filter);
            if keep {
                assert(message_views(r@) =~= message_views(before).push(all[i as int]));
            } else {
                assert(message_views(r@) =~= message_views(before));
            }
        }
        i = i + 1;
    }
    assert(all.take(i as int) =~= all);
    r
}

/// A content block of an Anthropic response.
#[derive(Debug, Clone)]
pub struct ContentBlock {
    /// Kind of the block; text blocks have kind `text`.
    pub content_type: String,
    /// The text of the block, where it has one.
    pub text: Option<String>,
}

/// The texts of the text blocks that carry one, in order.
pub open spec fn block_texts(blocks: Seq<ContentBlock>) -> Seq<Seq<char>>
    decreases blocks.len(),
{
    if blocks.len() == 0 {
        Seq::empty()
    } else {
        let b = blocks.last();
        let rest = block_texts(blocks.drop_last());
        if b.content_type@ == "text"@ && b.text is Some {
            rest.push(b.text->0@)
        } else {
            rest
        }
    }
}

/// Texts joined into one, with a line break between each two.
pub open spec fn join_lines(texts: Seq<Seq<char>>) -> Seq<char>
    decreases texts.len(),
{
    if texts.len() == 0 {
        Seq::empty()
    } else if texts.len() == 1 {
        texts[0]
    } else {
        join_lines(texts.drop_last()) + "\n"@ + texts.last()
    }
}

/// The generated text of an Anthropic response: the texts of its text
/// blocks, one per line.
pub fn anthropic_text(blocks: &Vec<ContentBlock>) -> (s: String)
    ensures
        s@ == join_lines(block_texts(blocks@)),
{
    let mut s = String::new();
    let mut n: usize = 0;
    let mut i: usize = 0;
    let ghost texts = Seq::<Seq<char>>::empty();
    while i < blocks.len()
        invariant
            i <= blocks@.len(),
            texts == block_texts(blocks@.take(i as int)),
            s@ == join_lines(texts),
            n == texts.len() || n > 0 && texts.len() > 0,
            n == 0 <==> texts.len() == 0,
        decreases blocks@.len() - i,
    {
        let b = &blocks[i];
        proof {
            let t = blocks@.take(i + 1);
            assert(t.drop_last() =~= blocks@.take(i as int));
            assert(t.last() == blocks@[i as int]);
        }
        if str_equal(b.content_type.as_str(), "text") {
            match &b.text {
                Some(t) => {
                    if n > 0 {
                        s.append("\n");
                    }
                    s.append(t.as_str());
                    proof {
                        let old_texts = texts;
                        texts = texts.push(t@);
                        assert(texts.drop_last() =~= old_texts);
                    }
                    n = 1;
                },
                None => {},
            }
        }
        i = i + 1;
    }
    assert(blocks@.take(i as int) =~= blocks@);
    s
}

/// Token counts with their total.
pub fn usage_of(prompt_tokens: usize, completion_tokens: usize) -> (u: TokenUsage)
    requires
        prompt_tokens + completion_tokens <= usize::MAX,
    ensures
        u.prompt_tokens == prompt_tokens,
        u.completion_tokens == completion_tokens,
        u.total_tokens == prompt_tokens + completion_tokens,
{
    TokenUsage {
        prompt_tokens,
        completion_tokens,
        total_tokens: prompt_tokens + completion_tokens,
    }
}

/// The completion of an Anthropic response: its text blocks one per line,
/// and the usage from its input and output token counts.
pub fn anthropic_completion(blocks: &Vec<ContentBlock>, usage: Option<(usize, usize)>) -> (r:
    CompletionResponse)
    requires
        usage matches Some((i, o)) ==> i + o <= usize::MAX,
    ensures
        r.content@ == join_lines(block_texts(blocks@)),
        match usage {
            Some((i, o)) => r.usage == Some(
                TokenUsage { prompt_tokens: i, completion_tokens: o, total_tokens: (i + o) as usize },
            ),
            None => r.usage is None,
        },
{
    let content = anthropic_text(blocks);
    let usage = match usage {
        Some((i, o)) => Some(usage_of(i, o)),
        None => None,
    };
    CompletionResponse { content, usage }
}

/// The completion of an OpenAI response, from the content of its first
/// choice and its usage; a response without choices cannot be parsed.
pub fn openai_completion(first_choice: Option<String>, usage: Option<TokenUsage>) -> (r: Result<
    CompletionResponse,
    LlmError,
>)
    ensures
        match first_choice {
            Some(c) => r matches Ok(resp) && resp.content == c && resp.usage == usage,
            None => r matches Err(LlmError::ParseError(m)) && m@ == "No choices in response"@,
        },
{
    match first_choice {
        Some(content) => Ok(CompletionResponse { content, usage }),
        None => Err(LlmError::ParseError(owned("No choices in response"))),
    }
}

/// The completion of an Ollama response: its message, and a usage where it
/// reports the prompt's token count, with a missing output count taken as 0.
pub fn ollama_completion(
    content: String,
    prompt_eval_count: Option<usize>,
    eval_count: Option<usize>,
) -> (r: CompletionResponse)
    requires
        prompt_eval_count matches Some(p) ==> p + (match eval_count {
            Some(e) => e,
            None => 0,
        }) <= usize::MAX,
    ensures
        r.content == content,
        match prompt_eval_count {
            Some(p) => {
                let e: usize = match eval_count {
                    Some(e) => e,
                    None => 0,
                };
                r.usage == Some(
                    TokenUsage { prompt_tokens: p, completion_tokens: e, total_tokens: (p + e) as usize },
                )
            },
            None => r.usage is None,
        },
{
    let usage = match prompt_eval_count {
        Some(p) => {
            let e: usize = match eval_count {
                Some(e) => e,
                None => 0,
            };
            Some(usage_of(p, e))
        },
        None => None,
    };
    CompletionResponse { content, usage }
}

/// The outcome of a health check from the status it got: Anthropic counts
/// a rejected request (400) as healthy and reports 401 as a bad key; for
/// the other providers only a success is healthy. Any other status is a
/// failed connection reading `Health check failed with status <status>`.
pub fn health_result(provider: Provider, status: u16, status_text: &str) -> (r: Result<
    (),
    LlmError,
>)
    ensures
        provider == Provider::Anthropic ==> (if is_success_status(status) || status == 400 {
            r is Ok
        } else if status == 401 {
            r matches Err(LlmError::AuthenticationFailed(m)) && m@ == "Invalid API key"@
        } else {
            r matches Err(LlmError::ConnectionFailed(m)) && m@ == "Health check failed with status "@
                + status_text@
        }),
        provider != Provider::Anthropic ==> (if is_success_status(status) {
            r is Ok
        } else {
            r matches Err(LlmError::ConnectionFailed(m)) && m@ == "Health check failed with status "@
                + status_text@
        }),
{
    let ok = is_success(status);
    match provider {
        Provider::Anthropic => {
            if ok || status == 400 {
                Ok(())
            } else if status == 401 {
                Err(LlmError::AuthenticationFailed(owned("Invalid API key")))
            } else {
                Err(LlmError::ConnectionFailed(concat("Health check failed with status ", status_text)))
            }
        },
        _ => {
            if ok {
                Ok(())
            } else {
                Err(LlmError::ConnectionFailed(concat("Health check failed with status ", status_text)))
            }
        },
    }
}

} // verus!
