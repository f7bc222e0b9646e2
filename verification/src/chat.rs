//! Chat requests: the messages of a conversation, how a mode routes a
//! request between the local engine and the online provider, the review
//! prompts of the hybrid mode, and the context window asked of the local
//! engine.
use crate::json::{choice_content, message_content, spec_choice_content, spec_json_valid, spec_message_content};
use crate::text::{append_str, str_eq, str_views, to_chars, trim_end_char_index};
use vstd::prelude::*;

verus! {

/// One message of a conversation.
pub struct ChatMessage {
    pub role: String,
    pub content: String,
}

/// A message handed to the online provider.
pub struct ChatMsgArg {
    pub role: String,
    pub content: String,
}

/// The settings of the optional online provider.
pub struct OnlineProviderConfig {
    pub label: String,
    pub base_url: String,
    pub api_key: String,
    pub model: String,
}

/// How a request is answered.
#[derive(PartialEq, Eq, Structural, Debug, Clone, Copy)]
pub enum ChatRoute {
    /// Only the online provider.
    Online,
    /// A local draft, reviewed by the online provider.
    Hybrid,
    /// Only the local engine.
    Local,
}

// ---------------------------------------------------------------------
// Specifications
// ---------------------------------------------------------------------

/// `(role, content)` of a message.
pub open spec fn msg_view(m: ChatMessage) -> (Seq<char>, Seq<char>) {
    (m.role@, m.content@)
}

/// `(role, content)` of a provider message.
pub open spec fn arg_view(m: ChatMsgArg) -> (Seq<char>, Seq<char>) {
    (m.role@, m.content@)
}

/// The route of a mode: `online`, `hibrit`, and the local engine for
/// everything else (`lokal` and unknown values).
pub open spec fn route_of(mode: Seq<char>) -> ChatRoute {
    if mode == "online"@ {
        ChatRoute::Online
    } else if mode == "hibrit"@ {
        ChatRoute::Hybrid
    } else {
        ChatRoute::Local
    }
}

/// The last message's content (empty without messages) and the messages
/// before it.
pub open spec fn split_last_spec(ms: Seq<ChatMessage>) -> (Seq<char>, Seq<(Seq<char>, Seq<char>)>) {
    let prompt = if ms.len() == 0 {
        Seq::<char>::empty()
    } else {
        ms.last().content@
    };
    let n = if ms.len() == 0 {
        0
    } else {
        ms.len() - 1
    };
    (prompt, ms.take(n).map_values(|m: ChatMessage| msg_view(m)))
}

/// The history sent to the online provider, then the prompt as a user
/// message.
pub open spec fn with_user_prompt(history: Seq<(Seq<char>, Seq<char>)>, prompt: Seq<char>) -> Seq<
    (Seq<char>, Seq<char>),
> {
    history.push(("user"@, prompt))
}

/// The review prompt of the hybrid chat mode around a local draft.
pub open spec fn chat_review_prompt(draft: Seq<char>) -> Seq<char> {
    chat_review_head()@ + draft + draft_end()@
}

/// The review prompt of a hybrid single request around a local draft.
pub open spec fn single_review_prompt(prompt: Seq<char>, draft: Seq<char>) -> Seq<char> {
    single_review_head()@ + prompt + single_review_middle()@ + draft + draft_end()@
}

/// Start of the hybrid chat review prompt.
pub open spec fn chat_review_head() -> &'static str {
    "Aşağıda yerel bir yapay zeka modelinin ürettiği taslak cevap var. Kullanıcının son isteğini (sohbet geçmişinde) dikkate alarak bu taslağı gözden geçir, gerekirse düzelt/geliştir/tamamla. Sadece son, iyileştirilmiş cevabı ver — taslaktan ya da bu talimattan bahsetme.\n\n--- TASLAK ---\n"
}

/// Start of the hybrid single-request review prompt.
pub open spec fn single_review_head() -> &'static str {
    "Aşağıda yerel bir modelin ürettiği taslak cevap var. Orijinal istek: \""
}

/// Middle of the hybrid single-request review prompt.
pub open spec fn single_review_middle() -> &'static str {
    "\"\n\nBu taslağı gözden geçir, gerekirse düzelt/geliştir. Sadece son hâli ver, taslaktan bahsetme.\n\n--- TASLAK ---\n"
}

/// End of both review prompts.
pub open spec fn draft_end() -> &'static str {
    "\n--- TASLAK SONU ---"
}

/// The context window asked of the local engine for inputs of `total`
/// bytes: a third of it (as `u32`) plus 512, kept between 2048 and 131072.
pub open spec fn context_window_for(total: nat) -> nat {
    let x = ((total / 3) as u32) + 512;
    if x < 2048 {
        2048
    } else if x > 131072 {
        131072
    } else {
        x as nat
    }
}

/// The model asked of the local engine: the given one, or `llama3.2`.
pub open spec fn local_model(m: Seq<char>) -> Seq<char> {
    if m.len() == 0 {
        "llama3.2"@
    } else {
        m
    }
}

/// The chat-completions endpoint of a provider base URL, without the base
/// URL's trailing slashes.
pub open spec fn completions_url(base: Seq<char>) -> Seq<char> {
    crate::text::trim_end_char(base, '/') + "/chat/completions"@
}

// ---------------------------------------------------------------------
// Executable functions
// ---------------------------------------------------------------------

/// The route of a mode string.
pub fn route(mode: &str) -> (r: ChatRoute)
    ensures
        r == route_of(mode@),
{
    if str_eq(mode, "online") {
        ChatRoute::Online
    } else if str_eq(mode, "hibrit") {
        ChatRoute::Hybrid
    } else {
        ChatRoute::Local
    }
}

/// Copies a message into the provider's message type.
fn to_arg(m: &ChatMessage) -> (r: ChatMsgArg)
    ensures
        arg_view(r) == msg_view(*m),
{
    ChatMsgArg { role: m.role.clone(), content: m.content.clone() }
}

/// The provider messages as plain values.
pub open spec fn arg_views(v: Seq<ChatMsgArg>) -> Seq<(Seq<char>, Seq<char>)> {
    v.map_values(|m: ChatMsgArg| arg_view(m))
}

/// The last message's content (empty without messages) and, as provider
/// messages, the messages before it.
pub fn split_last(messages: &[ChatMessage]) -> (r: (String, Vec<ChatMsgArg>))
    ensures
        (r.0@, arg_views(r.1@)) == split_last_spec(messages@),
{
    let prompt = if messages.len() == 0 {
        String::new()
    } else {
        messages[messages.len() - 1].content.clone()
    };
    let n = if messages.len() == 0 {
        0
    } else {
        messages.len() - 1
    };
    let mut history: Vec<ChatMsgArg> = Vec::new();
    let mut i: usize = 0;
    while i < n
        invariant
            i <= n,
            n == (if messages@.len() == 0 {
                0
            } else {
                messages@.len() - 1
            }),
            arg_views(history@) == messages@.take(i as int).map_values(
                |m: ChatMessage| msg_view(m),
            ),
        decreases n - i,
    {
        let ghost before = arg_views(history@);
        let a = to_arg(&messages[i]);
        history.push(a);
        proof {
            assert(arg_views(history@) =~= before.push(msg_view(messages@[i as int])));
            assert(messages@.take(i + 1) =~= messages@.take(i as int).push(messages@[i as int]));
            assert(messages@.take(i + 1).map_values(|m: ChatMessage| msg_view(m))
                =~= messages@.take(i as int).map_values(|m: ChatMessage| msg_view(m)).push(
                msg_view(messages@[i as int]),
            ));
        }
        i = i + 1;
    }
    proof {
        assert(arg_views(history@) =~= split_last_spec(messages@).1);
    }
    (prompt, history)
}

/// The messages sent to the online provider: the history, then the prompt
/// as a user message.
pub fn online_messages(prompt: String, history: Vec<ChatMsgArg>) -> (r: Vec<ChatMsgArg>)
    ensures
        arg_views(r@) == with_user_prompt(arg_views(history@), prompt@),
{
    let mut h = history;
    let ghost before = arg_views(h@);
    h.push(ChatMsgArg { role: "user".to_owned(), content: prompt });
    proof {
        assert(arg_views(h@) =~= before.push(("user"@, prompt@)));
    }
    h
}

/// The review request of the hybrid chat mode: the prompt that asks the
/// online provider to improve the local draft, and the conversation it
/// goes with (the earlier messages, then the last message itself).
pub fn hybrid_review_request(messages: &[ChatMessage], draft: &str) -> (r: (String, Vec<ChatMsgArg>))
    ensures
        r.0@ == chat_review_prompt(draft@),
        arg_views(r.1@) == with_user_prompt(split_last_spec(messages@).1, split_last_spec(messages@).0),
{
    let (orig_prompt, history) = split_last(messages);
    let history = online_messages(orig_prompt, history);
    let mut p = String::new();
    append_str(&mut p, chat_review_head_text());
    append_str(&mut p, draft);
    append_str(&mut p, draft_end_text());
    (p, history)
}

/// The review prompt of a hybrid single request.
pub fn single_review(prompt: &str, draft: &str) -> (r: String)
    ensures
        r@ == single_review_prompt(prompt@, draft@),
{
    let mut p = String::new();
    append_str(&mut p, single_review_head_text());
    append_str(&mut p, prompt);
    append_str(&mut p, single_review_middle_text());
    append_str(&mut p, draft);
    append_str(&mut p, draft_end_text());
    p
}

fn chat_review_head_text() -> (s: &'static str)
    ensures
        s@ == chat_review_head()@,
{
    "Aşağıda yerel bir yapay zeka modelinin ürettiği taslak cevap var. Kullanıcının son isteğini (sohbet geçmişinde) dikkate alarak bu taslağı gözden geçir, gerekirse düzelt/geliştir/tamamla. Sadece son, iyileştirilmiş cevabı ver — taslaktan ya da bu talimattan bahsetme.\n\n--- TASLAK ---\n"
}

fn single_review_head_text() -> (s: &'static str)
    ensures
        s@ == single_review_head()@,
{
    "Aşağıda yerel bir modelin ürettiği taslak cevap var. Orijinal istek: \""
}

fn single_review_middle_text() -> (s: &'static str)
    ensures
        s@ == single_review_middle()@,
{
    "\"\n\nBu taslağı gözden geçir, gerekirse düzelt/geliştir. Sadece son hâli ver, taslaktan bahsetme.\n\n--- TASLAK ---\n"
}

fn draft_end_text() -> (s: &'static str)
    ensures
        s@ == draft_end()@,
{
    "\n--- TASLAK SONU ---"
}

/// The context window for inputs of `total_bytes` bytes.
pub fn context_window(total_bytes: usize) -> (r: u32)
    requires
        ((total_bytes / 3) as u32) + 512 <= u32::MAX,
    ensures
        r == context_window_for(total_bytes as nat),
{
    let x = ((total_bytes / 3) as u32) + 512;
    if x < 2048 {
        2048
    } else if x > 131072 {
        131072
    } else {
        x
    }
}

/// The model asked of the local engine.
pub fn ollama_model(model: &str) -> (r: String)
    ensures
        r@ == local_model(model@),
{
    if model.is_empty() {
        "llama3.2".to_owned()
    } else {
        model.to_owned()
    }
}

/// The chat-completions endpoint of a provider.
pub fn chat_completions_url(base_url: &str) -> (r: String)
    ensures
        r@ == completions_url(base_url@),
{
    let v = to_chars(base_url);
    let end = trim_end_char_index(&v, '/');
    let mut s = crate::text::string_of_range(&v, 0, end);
    append_str(&mut s, "/chat/completions");
    s
}

/// The refusal of a chat without messages.
pub fn empty_chat_error() -> (r: String)
    ensures
        r@ == "Boş mesaj listesi."@,
{
    "Boş mesaj listesi.".to_owned()
}

/// The route of a multi-turn chat in `mode`; a chat without messages is
/// refused before any request is made.
pub fn chat_route(mode: &str, messages: &[ChatMessage]) -> (r: Result<ChatRoute, String>)
    ensures
        messages@.len() == 0 ==> r is Err && r->Err_0@ == "Boş mesaj listesi."@,
        messages@.len() > 0 ==> r == Ok::<ChatRoute, String>(route_of(mode@)),
{
    if messages.len() == 0 {
        Err(empty_chat_error())
    } else {
        Ok(route(mode))
    }
}

/// The refusal when the online mode is used without a saved provider.
pub fn missing_provider_error() -> (r: String)
    ensures
        r@ == "Kayıtlı bir online sağlayıcı yok. Ayarlardan ekleyin veya yerel modda kalın."@,
{
    "Kayıtlı bir online sağlayıcı yok. Ayarlardan ekleyin veya yerel modda kalın.".to_owned()
}

/// The saved provider, or the refusal when there is none.
pub fn require_provider(cfg: Option<OnlineProviderConfig>) -> (r: Result<OnlineProviderConfig, String>)
    ensures
        match cfg {
            Some(c) => r == Ok::<OnlineProviderConfig, String>(c),
            None => r is Err && r->Err_0@ == "Kayıtlı bir online sağlayıcı yok. Ayarlardan ekleyin veya yerel modda kalın."@,
        },
{
    match cfg {
        Some(c) => Ok(c),
        None => Err(missing_provider_error()),
    }
}

/// Whether `p` is a prefix of `s`.
pub open spec fn has_prefix(s: Seq<char>, p: Seq<char>) -> bool {
    p.len() <= s.len() && s.take(p.len() as int) == p
}

/// The answer in a reply body of the local engine: its
/// `message.content`, or a refusal when the body is not JSON or lacks it.
pub fn ollama_reply(body: &str) -> (r: Result<String, String>)
    ensures
        !spec_json_valid(body@) ==> r is Err && r->Err_0@ == "Ollama yanıtı çözümlenemedi: "@ + crate::json::body_decode_message(),
        spec_json_valid(body@) ==> match spec_message_content(body@) {
            Some(c) => r is Ok && r->Ok_0@ == c,
            None => r is Err && r->Err_0@ == "Ollama yanıtında beklenen içerik bulunamadı."@,
        },
{
    match message_content(body) {
        Ok(Some(c)) => Ok(c),
        Ok(None) => Err("Ollama yanıtında beklenen içerik bulunamadı.".to_owned()),
        Err(_) => {
            let mut msg = "Ollama yanıtı çözümlenemedi: ".to_owned();
            let t = crate::json::body_decode_error();
            append_str(&mut msg, t.as_str());
            Err(msg)
        },
    }
}

/// The answer in a reply body of the online provider: the first choice's
/// message content, or a refusal when the body is not JSON (the parser's
/// message) or lacks it.
pub fn online_reply(body: &str) -> (r: Result<String, String>)
    ensures
        !spec_json_valid(body@) ==> r is Err && r->Err_0@ == crate::json::body_decode_message(),
        spec_json_valid(body@) ==> match spec_choice_content(body@) {
            Some(c) => r is Ok && r->Ok_0@ == c,
            None => r is Err && r->Err_0@ == "Beklenmeyen yanıt formatı."@,
        },
{
    match choice_content(body) {
        Ok(Some(c)) => Ok(c),
        Ok(None) => Err("Beklenmeyen yanıt formatı.".to_owned()),
        Err(_) => Err(crate::json::body_decode_error()),
    }
}

} // verus!
