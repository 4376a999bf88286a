//! Retrieval-augmented answers: the question to embed, the numbered
//! context block built from the passages found, the citations, and the
//! messages handed to the generator.

use vstd::prelude::*;
use crate::model::{ChatMessage, ChatRole, ChatSource, SearchResult};
use crate::text::{decimal, decimal_string, take_chars};

verus! {

/// Passages retrieved for an answer.
pub const RAG_TOP_N: u64 = 5;

/// Characters of a passage kept in a citation.
pub const CITATION_CHARS: usize = 200;

/// Instructions that precede the passages in the system message.
pub const RAG_PREAMBLE: &'static str = "Tu es un assistant bibliothécaire. Réponds aux questions en te basant sur les extraits de livres suivants. Cite tes sources quand c'est pertinent. Si tu ne trouves pas la réponse dans les extraits, dis-le.\n\nExtraits :\n";

/// Why an answer could not be given.
pub enum ChatError {
    /// The conversation holds no message from the user.
    NoUserMessage,
    /// No embedding provider is configured.
    EmbeddingUnavailable,
    /// The embedding provider failed.
    EmbeddingFailed(String),
    /// The vector index failed.
    SearchFailed(String),
    /// The generator failed.
    GenerationFailed(String),
}

pub open spec fn is_user(m: ChatMessage) -> bool {
    m.role == ChatRole::User
}

/// Index of the last message written by the user, if any.
pub open spec fn last_user_index(msgs: Seq<ChatMessage>) -> Option<int>
    decreases msgs.len(),
{
    if msgs.len() == 0 {
        None
    } else if is_user(msgs.last()) {
        Some(msgs.len() - 1)
    } else {
        last_user_index(msgs.drop_last())
    }
}

proof fn lemma_last_user_index(msgs: Seq<ChatMessage>)
    ensures
        last_user_index(msgs) is None <==> forall|i: int|
            0 <= i < msgs.len() ==> !is_user(#[trigger] msgs[i]),
        last_user_index(msgs) is Some ==> ({
            let k = last_user_index(msgs)->Some_0;
            &&& 0 <= k < msgs.len()
            &&& is_user(msgs[k])
            &&& forall|i: int| k < i < msgs.len() ==> !is_user(#[trigger] msgs[i])
        }),
    decreases msgs.len(),
{
    if msgs.len() > 0 {
        let d = msgs.drop_last();
        lemma_last_user_index(d);
        if !is_user(msgs.last()) {
            assert forall|i: int| 0 <= i < d.len() implies d[i] == msgs[i] by {}
        }
    }
}

/// Position of the most recent message written by the user.
pub fn last_user_message(messages: &[ChatMessage]) -> (r: Option<usize>)
    ensures
        r is None ==> last_user_index(messages@) is None,
        r is Some ==> last_user_index(messages@) == Some(r->Some_0 as int) && r->Some_0
            < messages@.len(),
{
    let mut i: usize = messages.len();
    assert(messages@.take(i as int) =~= messages@);
    while i > 0
        invariant
            i <= messages@.len(),
            last_user_index(messages@) == last_user_index(messages@.take(i as int)),
        decreases i,
    {
        assert(messages@.take(i as int).drop_last() =~= messages@.take(i - 1));
        if messages[i - 1].role == ChatRole::User {
            return Some(i - 1);
        }
        i = i - 1;
    }
    None
}

/// The question to embed: the text of the last message from the user.
pub fn chat_query(messages: &[ChatMessage], provider_configured: bool) -> (r: Result<
    String,
    ChatError,
>)
    ensures
        last_user_index(messages@) is None ==> r == Err::<String, ChatError>(
            ChatError::NoUserMessage,
        ),
        last_user_index(messages@) is Some && !provider_configured ==> r == Err::<
            String,
            ChatError,
        >(ChatError::EmbeddingUnavailable),
        last_user_index(messages@) is Some && provider_configured ==> r is Ok && r->Ok_0
            == messages@[last_user_index(messages@)->Some_0].content,
{
    match last_user_message(messages) {
        None => Err(ChatError::NoUserMessage),
        Some(i) => {
            if !provider_configured {
                Err(ChatError::EmbeddingUnavailable)
            } else {
                Ok(messages[i].content.clone())
            }
        },
    }
}

/// The embedding of the question: one vector is expected; a failure or any
/// other count fails the answer.
pub fn check_embedding(received: Result<usize, String>) -> (r: Result<(), ChatError>)
    ensures
        received == Ok::<usize, String>(1) ==> r is Ok,
        received is Ok && received->Ok_0 != 1 ==> r is Err && r->Err_0 is EmbeddingFailed,
        received is Err ==> r == Err::<(), ChatError>(ChatError::EmbeddingFailed(received->Err_0)),
{
    match received {
        Ok(n) => if n == 1 {
            Ok(())
        } else {
            Err(ChatError::EmbeddingFailed(String::from_str("no embedding returned")))
        },
        Err(e) => Err(ChatError::EmbeddingFailed(e)),
    }
}

/// The context block and the citations of the passages found, or the
/// failure of the vector index.
pub fn chat_context(found: Result<Vec<SearchResult>, String>) -> (r: Result<
    (String, Vec<ChatSource>),
    ChatError,
>)
    ensures
        found is Err ==> r == Err::<(String, Vec<ChatSource>), ChatError>(
            ChatError::SearchFailed(found->Err_0),
        ),
        found is Ok ==> r is Ok && r->Ok_0.0@ == context_spec(found->Ok_0@) && r->Ok_0.1@.len()
            == found->Ok_0@.len() && forall|i: int|
            0 <= i < found->Ok_0@.len() ==> is_citation(
                #[trigger] r->Ok_0.1@[i],
                found->Ok_0@[i],
            ),
{
    match found {
        Ok(results) => {
            let context = build_context(results.as_slice());
            let sources = build_sources(results.as_slice());
            Ok((context, sources))
        },
        Err(e) => Err(ChatError::SearchFailed(e)),
    }
}

/// The labelled section of passage number `i` (counting from zero).
pub open spec fn source_section(i: nat, r: SearchResult) -> Seq<char> {
    "[Source "@ + decimal(i + 1) + ": "@ + r.title@ + " - "@ + r.reference@ + "]\n"@
        + r.chunk_text@ + "\n"@
}

/// The context block: the sections of all passages, in order.
pub open spec fn context_spec(results: Seq<SearchResult>) -> Seq<char>
    decreases results.len(),
{
    if results.len() == 0 {
        Seq::empty()
    } else {
        context_spec(results.drop_last()) + source_section(
            (results.len() - 1) as nat,
            results.last(),
        )
    }
}

/// Builds the numbered context block.
pub fn build_context(results: &[SearchResult]) -> (r: String)
    ensures
        r@ == context_spec(results@),
{
    let mut out = String::new();
    let mut i: usize = 0;
    while i < results.len()
        invariant
            i <= results@.len(),
            out@ == context_spec(results@.take(i as int)),
        decreases results@.len() - i,
    {
        let r = &results[i];
        assert(results@.take(i + 1).drop_last() =~= results@.take(i as int));
        out.append("[Source ");
        let num = decimal_string(i + 1);
        out.append(num.as_str());
        out.append(": ");
        out.append(r.title.as_str());
        out.append(" - ");
        out.append(r.reference.as_str());
        out.append("]\n");
        out.append(r.chunk_text.as_str());
        out.append("\n");
        i = i + 1;
        assert(out@ =~= context_spec(results@.take(i as int)));
    }
    assert(results@.take(i as int) =~= results@);
    out
}

/// The citation of passage `r`: its reference, its title and the first
/// `CITATION_CHARS` characters of its text.
pub open spec fn is_citation(c: ChatSource, r: SearchResult) -> bool {
    &&& c.reference == r.reference
    &&& c.title == r.title
    &&& c.chunk_text@ == r.chunk_text@.take(
        if CITATION_CHARS <= r.chunk_text@.len() {
            CITATION_CHARS as int
        } else {
            r.chunk_text@.len() as int
        },
    )
}

/// One citation per passage, in order.
pub fn build_sources(results: &[SearchResult]) -> (r: Vec<ChatSource>)
    ensures
        r@.len() == results@.len(),
        forall|i: int| 0 <= i < results@.len() ==> is_citation(#[trigger] r@[i], results@[i]),
{
    let mut out: Vec<ChatSource> = Vec::new();
    let mut i: usize = 0;
    while i < results.len()
        invariant
            i <= results@.len(),
            out@.len() == i,
            forall|k: int| 0 <= k < i ==> is_citation(#[trigger] out@[k], results@[k]),
        decreases results@.len() - i,
    {
        let r = &results[i];
        let c = ChatSource {
            reference: r.reference.clone(),
            title: r.title.clone(),
            chunk_text: take_chars(r.chunk_text.as_str(), CITATION_CHARS),
        };
        out.push(c);
        i = i + 1;
    }
    out
}

/// The role of a message as the generator names it.
pub open spec fn role_name(role: ChatRole) -> Seq<char> {
    match role {
        ChatRole::User => "user"@,
        ChatRole::Assistant => "assistant"@,
    }
}

/// The system message that carries the context block.
pub open spec fn system_message(context: Seq<char>) -> Seq<char> {
    RAG_PREAMBLE@ + context
}

/// The messages for the generator: the system message with the context
/// block, then the whole conversation as (role, text) pairs.
pub fn rag_messages(context: &str, history: &[ChatMessage]) -> (r: Vec<(String, String)>)
    ensures
        r@.len() == history@.len() + 1,
        r@[0].0@ == "system"@,
        r@[0].1@ == system_message(context@),
        forall|i: int|
            0 <= i < history@.len() ==> (#[trigger] r@[i + 1]).0@ == role_name(history@[i].role)
                && r@[i + 1].1 == history@[i].content,
{
    let mut system = String::from_str(RAG_PREAMBLE);
    system.append(context);
    let mut out: Vec<(String, String)> = Vec::new();
    out.push((String::from_str("system"), system));
    let mut i: usize = 0;
    while i < history.len()
        invariant
            i <= history@.len(),
            out@.len() == i + 1,
            out@[0].0@ == "system"@,
            out@[0].1@ == system_message(context@),
            forall|k: int|
                0 <= k < i ==> (#[trigger] out@[k + 1]).0@ == role_name(history@[k].role)
                    && out@[k + 1].1 == history@[k].content,
        decreases history@.len() - i,
    {
        let m = &history[i];
        let role = match m.role {
            ChatRole::User => String::from_str("user"),
            ChatRole::Assistant => String::from_str("assistant"),
        };
        out.push((role, m.content.clone()));
        i = i + 1;
    }
    out
}

/// The answer: the generated text with the citations, or the generator's
/// failure.
pub fn chat_answer(generated: Result<String, String>, sources: Vec<ChatSource>) -> (r: Result<
    ChatMessage,
    ChatError,
>)
    ensures
        generated is Ok ==> r is Ok && r->Ok_0.role == ChatRole::Assistant && r->Ok_0.content
            == generated->Ok_0 && r->Ok_0.sources == sources,
        generated is Err ==> r == Err::<ChatMessage, ChatError>(
            ChatError::GenerationFailed(generated->Err_0),
        ),
{
    match generated {
        Ok(content) => Ok(ChatMessage { role: ChatRole::Assistant, content, sources }),
        Err(e) => Err(ChatError::GenerationFailed(e)),
    }
}

/// With no message from the user there is nothing to answer.
pub proof fn lemma_empty_history_no_user(messages: Seq<ChatMessage>)
    requires
        forall|i: int| 0 <= i < messages.len() ==> !is_user(#[trigger] messages[i]),
    ensures
        last_user_index(messages) is None,
{
    lemma_last_user_index(messages);
}

} // verus!
