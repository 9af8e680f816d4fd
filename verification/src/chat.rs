use vstd::prelude::*;

use crate::errors::PipelineError;

verus! {

/// One role-tagged message of a completion request.
#[derive(Debug)]
pub struct ChatMessage {
    pub role: String,
    pub content: String,
}

/// The body of a completion request: a model name and an ordered sequence
/// of messages.
#[derive(Debug)]
pub struct ChatRequest {
    pub model: String,
    pub messages: Vec<ChatMessage>,
}

/// The message carried by one choice of a completion response.
#[derive(Debug)]
pub struct ChoiceMessage {
    pub role: String,
    pub content: String,
}

/// One candidate answer of a completion response.
#[derive(Debug)]
pub struct Choice {
    pub message: ChoiceMessage,
}

/// The decoded body of a completion response.
#[derive(Debug)]
pub struct Completion {
    pub choices: Vec<Choice>,
}

/// The fixed instruction handed to the model as the opening turn.
pub open spec fn spec_instruction() -> Seq<char> {
    "\n\t\t\t\t    You are an assistant that writes concise, conventional commit\n                    messages based on the provided git diff. Return the commit\n                    message without any quotes.\n                    "@
}

/// The instruction text itself.
pub fn instruction_text() -> (s: &'static str)
    ensures
        s@ == spec_instruction(),
{
    "\n\t\t\t\t    You are an assistant that writes concise, conventional commit\n                    messages based on the provided git diff. Return the commit\n                    message without any quotes.\n                    "
}

/// Compares two strings character by character.
pub fn str_eq(a: &str, b: &str) -> (r: bool)
    ensures
        r == (a@ == b@),
{
    let n = a.unicode_len();
    let m = b.unicode_len();
    if n != m {
        return false;
    }
    let mut j: usize = 0;
    while j < n
        invariant
            0 <= j <= n,
            n == a@.len(),
            n == b@.len(),
            forall|q: int| 0 <= q < j ==> a@[q] == b@[q],
        decreases n - j,
    {
        if a.get_char(j) != b.get_char(j) {
            return false;
        }
        j = j + 1;
    }
    assert(a@ =~= b@);
    true
}

/// Builds the two-message request body: the fixed instruction as the
/// developer turn, then the staged diff as the user turn.
pub fn build_chat_request(model: String, diff: String) -> (req: ChatRequest)
    ensures
        req.model@ == model@,
        req.messages@.len() == 2,
        req.messages@[0].role@ == "developer"@,
        req.messages@[0].content@ == spec_instruction(),
        req.messages@[1].role@ == "user"@,
        req.messages@[1].content@ == diff@,
{
    let mut messages: Vec<ChatMessage> = Vec::new();
    messages.push(
        ChatMessage {
            role: String::from_str("developer"),
            content: String::from_str(instruction_text()),
        },
    );
    messages.push(ChatMessage { role: String::from_str("user"), content: diff });
    ChatRequest { model, messages }
}

/// True when some choice of the response carries an assistant-role message.
pub open spec fn has_assistant_choice(c: Completion) -> bool {
    exists|i: int| 0 <= i < c.choices@.len() && c.choices@[i].message.role@ == "assistant"@
}

/// Picks the first assistant-role message of the response. The absence of
/// any such message is a fatal condition, never an empty substitute.
pub fn extract_assistant_message(c: &Completion) -> (r: Result<String, PipelineError>)
    ensures
        r is Ok <==> has_assistant_choice(*c),
        match r {
            Ok(m) => exists|i: int|
                0 <= i < c.choices@.len() && c.choices@[i].message.role@ == "assistant"@
                    && m@ == c.choices@[i].message.content@ && (forall|j: int|
                    0 <= j < i ==> c.choices@[j].message.role@ != "assistant"@),
            Err(e) => e == PipelineError::NoAssistantMessage && (forall|i: int|
                0 <= i < c.choices@.len() ==> c.choices@[i].message.role@ != "assistant"@),
        },
{
    let n = c.choices.len();
    let mut i: usize = 0;
    while i < n
        invariant
            0 <= i <= n,
            n == c.choices@.len(),
            forall|j: int| 0 <= j < i ==> c.choices@[j].message.role@ != "assistant"@,
        decreases n - i,
    {
        if str_eq(c.choices[i].message.role.as_str(), "assistant") {
            return Ok(c.choices[i].message.content.clone());
        }
        i = i + 1;
    }
    Err(PipelineError::NoAssistantMessage)
}

} // verus!
