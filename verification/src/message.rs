//! Messages of a conversation and what a transcript of them weighs.

use crate::error::HarnessError;
use crate::limits::check_view;
use crate::limits::AgentLimits;
use crate::text::{byte_len, decimal, decimal_digits, join3, text_option, utf8_len};
use crate::tool::{calls_view, copy_calls, ToolCall, ToolResult};
use crate::text::copy_option;
use vstd::prelude::*;

verus! {

/// Who wrote a message.
#[derive(Clone, Copy, Debug, PartialEq, Eq, Structural)]
#[non_exhaustive]
pub enum MessageRole {
    /// The host.
    System,
    /// The user.
    User,
    /// The model.
    Assistant,
    /// A tool.
    Tool,
}

/// One message of a conversation.
#[derive(Clone, Debug, PartialEq, Eq)]
#[non_exhaustive]
pub struct Message {
    /// Who wrote the message.
    pub role: MessageRole,
    /// Its text.
    pub content: String,
    /// The call that a tool message answers.
    pub tool_call_id: Option<String>,
    /// The calls that an assistant message asks for.
    pub tool_calls: Vec<ToolCall>,
}

/// The model of a message.
pub struct MessageModel {
    /// Who wrote the message.
    pub role: MessageRole,
    /// Its text.
    pub content: Seq<char>,
    /// The call that a tool message answers.
    pub tool_call_id: Option<Seq<char>>,
    /// The calls that an assistant message asks for.
    pub tool_calls: Seq<ToolCall<Seq<char>>>,
}

impl View for Message {
    type V = MessageModel;

    open spec fn view(&self) -> MessageModel {
        MessageModel {
            role: self.role,
            content: self.content@,
            tool_call_id: text_option(self.tool_call_id),
            tool_calls: calls_view(self.tool_calls@),
        }
    }
}

/// The views of a conversation.
pub open spec fn messages_view(messages: Seq<Message>) -> Seq<MessageModel> {
    messages.map_values(|message: Message| message@)
}

/// A message that holds text alone.
pub open spec fn plain_message(role: MessageRole, content: Seq<char>) -> MessageModel {
    MessageModel { role, content, tool_call_id: None, tool_calls: Seq::empty() }
}

/// The message that records the calls of a model response.
pub open spec fn tool_calls_message(calls: Seq<ToolCall<Seq<char>>>) -> MessageModel {
    MessageModel {
        role: MessageRole::Assistant,
        content: ""@,
        tool_call_id: None,
        tool_calls: calls,
    }
}

/// The message that hands a tool's result to the model.
pub open spec fn tool_message(call_id: Seq<char>, content: Seq<char>) -> MessageModel {
    MessageModel {
        role: MessageRole::Tool,
        content,
        tool_call_id: Some(call_id),
        tool_calls: Seq::empty(),
    }
}

/// Bytes of one call in a transcript.
pub open spec fn call_bytes(call: ToolCall<Seq<char>>) -> nat {
    utf8_len(call.id) + utf8_len(call.tool_id) + utf8_len(call.arguments_json)
}

/// Bytes of a list of calls in a transcript.
pub open spec fn calls_bytes(calls: Seq<ToolCall<Seq<char>>>) -> nat
    decreases calls.len(),
{
    if calls.len() == 0 {
        0
    } else {
        calls_bytes(calls.drop_last()) + call_bytes(calls.last())
    }
}

impl MessageModel {
    /// Bytes of the message in a transcript.
    pub open spec fn bytes(self) -> nat {
        utf8_len(self.content) + (match self.tool_call_id {
            Some(id) => utf8_len(id),
            None => 0,
        }) + calls_bytes(self.tool_calls)
    }
}

/// Bytes of a transcript.
pub open spec fn transcript_len(messages: Seq<MessageModel>) -> nat
    decreases messages.len(),
{
    if messages.len() == 0 {
        0
    } else {
        transcript_len(messages.drop_last()) + messages.last().bytes()
    }
}

impl Message {
    /// Creates a message that holds text alone.
    pub fn new(role: MessageRole, content: &str) -> (result: Message)
        ensures
            result@ == plain_message(role, content@),
    {
        let result = Message {
            role,
            content: content.to_owned(),
            tool_call_id: None,
            tool_calls: Vec::new(),
        };
        assert(result@.tool_calls =~= Seq::empty());
        result
    }

    /// Names the call that the message answers.
    pub fn with_tool_call_id(self, tool_call_id: &str) -> (result: Message)
        ensures
            result@ == (MessageModel { tool_call_id: Some(tool_call_id@), ..self@ }),
    {
        let mut result = self;
        result.tool_call_id = Some(tool_call_id.to_owned());
        result
    }

    /// Attaches the calls that the message asks for.
    pub fn with_tool_calls(self, tool_calls: Vec<ToolCall>) -> (result: Message)
        ensures
            result@ == (MessageModel { tool_calls: calls_view(tool_calls@), ..self@ }),
    {
        let mut result = self;
        result.tool_calls = tool_calls;
        result
    }

    /// Creates a message of the user.
    pub fn user(content: &str) -> (result: Message)
        ensures
            result@ == plain_message(MessageRole::User, content@),
    {
        Message::new(MessageRole::User, content)
    }

    /// Creates a message of the host.
    pub fn system(content: &str) -> (result: Message)
        ensures
            result@ == plain_message(MessageRole::System, content@),
    {
        Message::new(MessageRole::System, content)
    }

    /// Creates a message of the model.
    pub fn assistant(content: &str) -> (result: Message)
        ensures
            result@ == plain_message(MessageRole::Assistant, content@),
    {
        Message::new(MessageRole::Assistant, content)
    }

    /// Creates the message that records the calls of a model response.
    pub fn assistant_tool_calls(tool_calls: Vec<ToolCall>) -> (result: Message)
        ensures
            result@ == tool_calls_message(calls_view(tool_calls@)),
    {
        Message::new(MessageRole::Assistant, "").with_tool_calls(tool_calls)
    }

    /// Creates the message that hands a tool's result to the model.
    pub fn tool(call_id: &str, result: &ToolResult) -> (message: Message)
        ensures
            message@ == tool_message(call_id@, result@.json_text()),
    {
        Message::new(MessageRole::Tool, result.to_json_text().as_str()).with_tool_call_id(call_id)
    }

    /// A copy of the message.
    pub fn duplicate(&self) -> (result: Message)
        ensures
            result@ == self@,
    {
        Message {
            role: self.role,
            content: self.content.clone(),
            tool_call_id: copy_option(&self.tool_call_id),
            tool_calls: copy_calls(&self.tool_calls),
        }
    }

    /// Bytes of the message in a transcript; `None` where no `u64` holds them.
    pub fn transcript_bytes(&self) -> (result: Option<u64>)
        ensures
            match result {
                Some(bytes) => bytes == self@.bytes(),
                None => self@.bytes() > u64::MAX,
            },
    {
        let mut total: u64 = byte_len(self.content.as_str()) as u64;
        if let Some(id) = &self.tool_call_id {
            match total.checked_add(byte_len(id.as_str()) as u64) {
                Some(sum) => total = sum,
                None => return None,
            }
        }
        let mut i: usize = 0;
        let ghost base = total;
        let ghost calls = self@.tool_calls;
        assert(calls.take(0) =~= Seq::empty());
        while i < self.tool_calls.len()
            invariant
                i <= self.tool_calls@.len(),
                calls == calls_view(self.tool_calls@),
                total == base + calls_bytes(calls.take(i as int)),
                base + calls_bytes(calls) == self@.bytes(),
            decreases self.tool_calls@.len() - i,
        {
            let call = &self.tool_calls[i];
            let ghost next = calls.take(i as int + 1);
            assert(next.drop_last() =~= calls.take(i as int));
            assert(next.last() == call@);
            proof {
                calls_bytes_grow(calls, i as nat + 1);
            }
            match total.checked_add(byte_len(call.id.as_str()) as u64) {
                Some(sum) => total = sum,
                None => return None,
            }
            match total.checked_add(byte_len(call.tool_id.as_str()) as u64) {
                Some(sum) => total = sum,
                None => return None,
            }
            match total.checked_add(byte_len(call.arguments_json.as_str()) as u64) {
                Some(sum) => total = sum,
                None => return None,
            }
            i += 1;
        }
        assert(calls.take(calls.len() as int) =~= calls);
        Some(total)
    }
}

proof fn calls_bytes_grow(calls: Seq<ToolCall<Seq<char>>>, count: nat)
    requires
        count <= calls.len(),
    ensures
        calls_bytes(calls.take(count as int)) <= calls_bytes(calls),
    decreases calls.len(),
{
    if count < calls.len() {
        assert(calls.drop_last().take(count as int) =~= calls.take(count as int));
        calls_bytes_grow(calls.drop_last(), count);
    } else {
        assert(calls.take(count as int) =~= calls);
    }
}

proof fn transcript_grows(messages: Seq<MessageModel>, count: nat)
    requires
        count <= messages.len(),
    ensures
        transcript_len(messages.take(count as int)) <= transcript_len(messages),
    decreases messages.len(),
{
    if count < messages.len() {
        assert(messages.drop_last().take(count as int) =~= messages.take(count as int));
        transcript_grows(messages.drop_last(), count);
    } else {
        assert(messages.take(count as int) =~= messages);
    }
}

/// Bytes of a transcript; `None` where no `u64` holds them.
pub fn transcript_total(messages: &Vec<Message>) -> (result: Option<u64>)
    ensures
        match result {
            Some(bytes) => bytes == transcript_len(messages_view(messages@)),
            None => transcript_len(messages_view(messages@)) > u64::MAX,
        },
{
    let ghost all = messages_view(messages@);
    let mut total: u64 = 0;
    let mut i: usize = 0;
    assert(all.take(0) =~= Seq::empty());
    while i < messages.len()
        invariant
            i <= messages@.len(),
            all == messages_view(messages@),
            total == transcript_len(all.take(i as int)),
        decreases messages@.len() - i,
    {
        let ghost next = all.take(i as int + 1);
        assert(next.drop_last() =~= all.take(i as int));
        assert(next.last() == messages@[i as int]@);
        proof {
            transcript_grows(all, i as nat + 1);
        }
        let bytes = match messages[i].transcript_bytes() {
            Some(bytes) => bytes,
            None => return None,
        };
        match total.checked_add(bytes) {
            Some(sum) => total = sum,
            None => return None,
        }
        i += 1;
    }
    assert(all.take(all.len() as int) =~= all);
    Some(total)
}

/// What the transcript check answers.
pub open spec fn transcript_check(messages: Seq<MessageModel>, limits: AgentLimits) -> Result<
    (),
    HarnessError<Seq<char>>,
> {
    if transcript_len(messages) > limits.max_transcript_bytes {
        Err(
            HarnessError::ResourceLimit(
                "transcript exceeds "@ + decimal_digits(limits.max_transcript_bytes as nat)
                    + " bytes"@,
            ),
        )
    } else {
        Ok(())
    }
}

/// Refuses a transcript that is larger than the limit.
pub fn ensure_transcript(messages: &Vec<Message>, limits: &AgentLimits) -> (result: Result<
    (),
    HarnessError,
>)
    ensures
        check_view(result) == transcript_check(messages_view(messages@), *limits),
{
    let fits = match transcript_total(messages) {
        Some(bytes) => bytes <= limits.max_transcript_bytes,
        None => false,
    };
    if !fits {
        return Err(
            HarnessError::ResourceLimit(
                join3(
                    "transcript exceeds ",
                    decimal(limits.max_transcript_bytes).as_str(),
                    " bytes",
                ),
            ),
        );
    }
    Ok(())
}

/// A copy of a conversation.
pub fn copy_messages(messages: &Vec<Message>) -> (result: Vec<Message>)
    ensures
        messages_view(result@) == messages_view(messages@),
{
    let mut result: Vec<Message> = Vec::new();
    let mut i: usize = 0;
    while i < messages.len()
        invariant
            i <= messages@.len(),
            result@.len() == i,
            forall|j: int| 0 <= j < i ==> (#[trigger] result@[j])@ == messages@[j]@,
        decreases messages@.len() - i,
    {
        result.push(messages[i].duplicate());
        i += 1;
    }
    assert(messages_view(result@) =~= messages_view(messages@));
    result
}

/// What handing a tool result to the model answers.
///
/// The message is part of the conversation even where the transcript is then too large.
pub fn push_tool_message(
    messages: &mut Vec<Message>,
    call: &ToolCall,
    result: &ToolResult,
    limits: &AgentLimits,
) -> (outcome: Result<(), HarnessError>)
    ensures
        messages_view(final(messages)@) == messages_view(old(messages)@).push(
            tool_message(call@.id, result@.json_text()),
        ),
        check_view(outcome) == transcript_check(messages_view(final(messages)@), *limits),
{
    let ghost before = messages_view(messages@);
    messages.push(Message::tool(call.id.as_str(), result));
    assert(messages_view(messages@) =~= before.push(tool_message(call@.id, result@.json_text())));
    ensure_transcript(messages, limits)
}

} // verus!
