//! The chat-completion data model: the polymorphic conversation message with
//! its flattened role tag, the tool descriptors and tool calls, the request
//! aggregate with its optional sampling parameters, and the response and
//! stream-event shapes. The request side carries its own verified JSON
//! encoding: the `role` discriminator is a sibling field of the message
//! body, unset optionals are omitted entirely, and an empty participant name
//! is omitted rather than serialized as an empty string.

use vstd::prelude::*;

verus! {

/// A message from the system.
#[derive(Debug, Clone, PartialEq)]
pub struct SystemMessage {
    /// The contents of the system message.
    pub content: String,
    /// An optional name for the participant.
    pub name: Option<String>,
}

/// A message from a human.
#[derive(Debug, Clone, PartialEq)]
pub struct UserMessage {
    /// The contents of the user message.
    pub content: String,
    /// An optional name for the participant.
    pub name: Option<String>,
}

/// A message from the assistant.
#[derive(Debug, Clone, PartialEq)]
pub struct AssistantMessage {
    /// The contents of the message, absent when the model only called tools.
    pub content: Option<String>,
    /// An optional name for the participant.
    pub name: Option<String>,
    /// The tool calls generated by the model.
    pub tool_calls: Vec<ToolCall>,
}

/// A message carrying a tool's result back to the model.
#[derive(Debug, Clone, PartialEq)]
pub struct ToolMessage {
    /// The contents of the tool message.
    pub content: String,
    /// The tool call this message responds to.
    pub tool_call_id: String,
}

/// One tool invocation emitted by the model.
#[derive(Debug, Clone, PartialEq)]
pub struct ToolCall {
    /// The ID of the tool call.
    pub id: String,
    /// The kind of tool; only functions exist today.
    pub kind: ToolType,
    /// The function the model called.
    pub function: FunctionCall,
}

/// The function named by a tool call. The arguments are raw text from the
/// model and may be syntactically invalid JSON; the caller validates them.
#[derive(Debug, Clone, PartialEq)]
pub struct FunctionCall {
    /// The name of the function to call.
    pub name: String,
    /// The arguments, as raw JSON text generated by the model.
    pub arguments: String,
}

/// The kind of a tool; only functions exist today.
#[derive(Debug, Clone, Copy, PartialEq, Eq, Structural)]
pub enum ToolType {
    Function,
}

/// One conversation turn, a closed set of roles. The role is serialized as
/// a sibling field of the message body.
#[derive(Debug, Clone, PartialEq)]
pub enum ChatCompletionMessage {
    System(SystemMessage),
    User(UserMessage),
    Assistant(AssistantMessage),
    Tool(ToolMessage),
}

/// A callable tool offered to the model.
#[derive(Debug, Clone, PartialEq)]
pub struct Tool {
    /// The kind of tool; only functions exist today.
    pub kind: ToolType,
    /// The function this tool exposes.
    pub function: FunctionInfo,
}

/// The description of a callable function.
#[derive(Debug, Clone, PartialEq)]
pub struct FunctionInfo {
    /// What the function does; the model uses this to choose a tool.
    pub description: String,
    /// The name of the function.
    pub name: String,
    /// The parameters the function accepts: a JSON Schema document, carried
    /// as pre-rendered JSON text and spliced into the request verbatim.
    pub parameters: String,
}

/// Forces or forbids tool use for one request.
#[derive(Debug, Clone, PartialEq)]
pub enum ToolChoice {
    /// The model must not call a tool.
    NoTool,
    /// The model may pick between answering and calling a tool.
    Auto,
    /// The model must call the named function.
    Function { name: String },
}

/// The format the model must answer in.
#[derive(Debug, Clone, Copy, PartialEq, Eq, Structural)]
pub enum ChatResponseFormat {
    Text,
    Json,
}

/// Wrapper object carrying the response format on the wire.
#[derive(Debug, Clone, Copy, PartialEq, Eq, Structural)]
pub struct ChatResponseFormatObject {
    pub kind: ChatResponseFormat,
}

/// The model that answers the request.
#[derive(Debug, Clone, PartialEq)]
pub enum ChatCompleteModel {
    /// The default model.
    Gpt3Turbo,
    /// GPT-3.5 turbo with instruct capability.
    Gpt3TurboInstruct,
    /// The latest GPT-4 model.
    Gpt4Turbo,
    /// The latest GPT-4 model with vision capability.
    Gpt4TurboVision,
    DeepSeekChat,
    DeepSeekCoder,
    DeepSeekReasoner,
    /// Any other model, under its wire name.
    Other(String),
}

/// Why the model stopped generating.
#[derive(Debug, Clone, Copy, PartialEq, Eq, Structural)]
pub enum FinishReason {
    Stop,
    Length,
    ContentFilter,
    ToolCalls,
}

/// A chat-completion request: the conversation so far, the model, and the
/// optional sampling and tool parameters. Every optional field is omitted
/// from the wire when unset.
#[derive(Debug, Clone, PartialEq)]
pub struct ChatCompletionRequest {
    /// The conversation so far.
    pub messages: Vec<ChatCompletionMessage>,
    /// The model to use.
    pub model: ChatCompleteModel,
    /// Upper bound on the generated token count.
    pub max_tokens: Option<usize>,
    /// How many choices to generate.
    pub n: Option<usize>,
    /// The format the model must answer in.
    pub response_format: Option<ChatResponseFormatObject>,
    /// Seed for best-effort deterministic sampling.
    pub seed: Option<usize>,
    /// A sequence at which the model stops generating.
    pub stop: Option<String>,
    /// Whether partial deltas are streamed back as server-sent events.
    pub stream: Option<bool>,
    /// The tools the model may call.
    pub tools: Vec<Tool>,
    /// Which tool the model must call, if forced.
    pub tool_choice: Option<ToolChoice>,
    /// An identifier for the end user.
    pub user: Option<String>,
}

/// One decoded answer of a non-streaming chat completion.
#[derive(Debug, Clone, PartialEq)]
pub struct ChatCompletionResponse {
    /// A unique identifier for the chat completion.
    pub id: String,
    /// The generated choices; more than one when `n` exceeds 1.
    pub choices: Vec<ChatCompletionChoice>,
    /// The Unix timestamp (in seconds) of creation.
    pub created: usize,
    /// The model that produced the completion.
    pub model: ChatCompleteModel,
    /// Fingerprint of the backend configuration.
    pub system_fingerprint: Option<String>,
    /// The object type tag.
    pub object: String,
    /// Token usage statistics.
    pub usage: ChatCompleteUsage,
}

/// One generated choice of a completion.
#[derive(Debug, Clone, PartialEq)]
pub struct ChatCompletionChoice {
    /// Why the model stopped generating this choice.
    pub finish_reason: FinishReason,
    /// The index of this choice.
    pub index: usize,
    /// The generated message.
    pub message: AssistantMessage,
}

/// Token usage statistics of one request.
#[derive(Debug, Clone, Copy, PartialEq, Eq, Structural)]
pub struct ChatCompleteUsage {
    /// Tokens in the generated completion.
    pub completion_tokens: usize,
    /// Tokens in the prompt.
    pub prompt_tokens: usize,
    /// Prompt plus completion tokens.
    pub total_tokens: usize,
}

/// The incremental content of one streamed choice delta.
#[derive(Debug, Clone, PartialEq)]
pub struct Delta {
    /// A fragment of answer content.
    pub content: Option<String>,
    /// A fragment of reasoning content.
    pub reasoning_content: Option<String>,
    /// The role, sent on the first delta of a choice.
    pub role: Option<String>,
}

/// One streamed choice delta.
#[derive(Debug, Clone, PartialEq)]
pub struct ChatStreamChoice {
    /// The incremental content.
    pub delta: Delta,
    /// Why the model stopped, on the final delta of a choice.
    pub finish_reason: Option<String>,
    /// The index of the choice this delta belongs to.
    pub index: usize,
    /// Log-probability information, when requested.
    pub logprobs: Option<String>,
}

/// One decoded server-sent event of a streaming chat completion; a single
/// event may carry several choice deltas when `n` exceeds 1.
#[derive(Debug, Clone, PartialEq)]
pub struct ChatStreamResponse {
    /// The choice deltas of this event.
    pub choices: Vec<ChatStreamChoice>,
    /// The Unix timestamp (in seconds) of creation.
    pub created: usize,
    /// A unique identifier, shared by all events of one stream.
    pub id: String,
    /// The model that produces the stream.
    pub model: String,
    /// The object type tag.
    pub object: String,
    /// Fingerprint of the backend configuration.
    pub system_fingerprint: Option<String>,
}

impl Default for ChatCompleteModel {
    /// The default model.
    fn default() -> (m: ChatCompleteModel)
        ensures
            m == ChatCompleteModel::Gpt3Turbo,
    {
        ChatCompleteModel::Gpt3Turbo
    }
}

impl Default for FinishReason {
    /// The default finish reason.
    fn default() -> (r: FinishReason)
        ensures
            r == FinishReason::Stop,
    {
        FinishReason::Stop
    }
}

impl Default for ChatResponseFormat {
    /// The default response format.
    fn default() -> (f: ChatResponseFormat)
        ensures
            f == ChatResponseFormat::Json,
    {
        ChatResponseFormat::Json
    }
}

impl Default for ToolChoice {
    /// By default no tool call is forced or forbidden explicitly.
    fn default() -> (t: ToolChoice)
        ensures
            t == ToolChoice::NoTool,
    {
        ToolChoice::NoTool
    }
}

/// Whether an optional participant name holds exactly the characters `n`
/// when `n` is not empty, and is absent when `n` is empty.
pub open spec fn opt_name_matches(o: Option<String>, n: Seq<char>) -> bool {
    if n.len() == 0 {
        o is None
    } else {
        o matches Some(s) && s@ == n
    }
}

impl ChatCompletionMessage {
    /// An empty participant name means no name at all: the field is dropped
    /// entirely rather than carried as an empty string.
    pub fn get_name(name: &str) -> (r: Option<String>)
        ensures
            opt_name_matches(r, name@),
    {
        if name.is_empty() {
            None
        } else {
            Some(name.to_owned())
        }
    }

    /// Builds a system message; an empty `name` is omitted.
    pub fn new_system(content: &str, name: &str) -> (m: ChatCompletionMessage)
        ensures
            m matches ChatCompletionMessage::System(sm) && sm.content@ == content@
                && opt_name_matches(sm.name, name@),
    {
        ChatCompletionMessage::System(
            SystemMessage { content: content.to_owned(), name: Self::get_name(name) },
        )
    }

    /// Builds a user message; an empty `name` is omitted.
    pub fn new_user(content: &str, name: &str) -> (m: ChatCompletionMessage)
        ensures
            m matches ChatCompletionMessage::User(um) && um.content@ == content@
                && opt_name_matches(um.name, name@),
    {
        ChatCompletionMessage::User(
            UserMessage { content: content.to_owned(), name: Self::get_name(name) },
        )
    }
}

impl Tool {
    /// Builds a function tool from its name, its description for the model,
    /// and the JSON Schema text describing its parameters. The schema text
    /// is spliced into the request verbatim.
    pub fn new_function(name: &str, description: &str, parameters: &str) -> (t: Tool)
        ensures
            t.kind == ToolType::Function,
            t.function.name@ == name@,
            t.function.description@ == description@,
            t.function.parameters@ == parameters@,
    {
        Tool {
            kind: ToolType::Function,
            function: FunctionInfo {
                description: description.to_owned(),
                name: name.to_owned(),
                parameters: parameters.to_owned(),
            },
        }
    }
}

impl ChatCompletionRequest {
    /// A request with the given model and conversation and every optional
    /// parameter unset.
    pub fn new(model: ChatCompleteModel, messages: Vec<ChatCompletionMessage>) -> (r:
        ChatCompletionRequest)
        ensures
            r.messages == messages,
            r.model == model,
            r.max_tokens is None,
            r.n is None,
            r.response_format is None,
            r.seed is None,
            r.stop is None,
            r.stream is None,
            r.tools@.len() == 0,
            r.tool_choice is None,
            r.user is None,
    {
        ChatCompletionRequest {
            messages,
            model,
            max_tokens: None,
            n: None,
            response_format: None,
            seed: None,
            stop: None,
            stream: None,
            tools: Vec::new(),
            tool_choice: None,
            user: None,
        }
    }

    /// A request with the given model, conversation and tool list, and
    /// every other optional parameter unset.
    pub fn new_with_tools(
        model: ChatCompleteModel,
        messages: Vec<ChatCompletionMessage>,
        tools: Vec<Tool>,
    ) -> (r: ChatCompletionRequest)
        ensures
            r.messages == messages,
            r.model == model,
            r.tools == tools,
            r.max_tokens is None,
            r.n is None,
            r.response_format is None,
            r.seed is None,
            r.stop is None,
            r.stream is None,
            r.tool_choice is None,
            r.user is None,
    {
        ChatCompletionRequest {
            messages,
            model,
            max_tokens: None,
            n: None,
            response_format: None,
            seed: None,
            stop: None,
            stream: None,
            tools,
            tool_choice: None,
            user: None,
        }
    }
}

/// The wire name of a model.
pub open spec fn model_wire(m: ChatCompleteModel) -> Seq<char> {
    match m {
        ChatCompleteModel::Gpt3Turbo => "gpt-3.5-turbo-1106"@,
        ChatCompleteModel::Gpt3TurboInstruct => "gpt-3.5-turbo-instruct"@,
        ChatCompleteModel::Gpt4Turbo => "gpt-4-1106-preview"@,
        ChatCompleteModel::Gpt4TurboVision => "gpt-4-1106-vision-preview"@,
        ChatCompleteModel::DeepSeekChat => "deepseek-chat"@,
        ChatCompleteModel::DeepSeekCoder => "deepseek-coder"@,
        ChatCompleteModel::DeepSeekReasoner => "deepseek-reasoner"@,
        ChatCompleteModel::Other(s) => s@,
    }
}

impl ChatCompleteModel {
    /// The wire name of this model.
    pub fn wire_name(&self) -> (r: &str)
        ensures
            r@ == model_wire(*self),
    {
        match self {
            ChatCompleteModel::Gpt3Turbo => "gpt-3.5-turbo-1106",
            ChatCompleteModel::Gpt3TurboInstruct => "gpt-3.5-turbo-instruct",
            ChatCompleteModel::Gpt4Turbo => "gpt-4-1106-preview",
            ChatCompleteModel::Gpt4TurboVision => "gpt-4-1106-vision-preview",
            ChatCompleteModel::DeepSeekChat => "deepseek-chat",
            ChatCompleteModel::DeepSeekCoder => "deepseek-coder",
            ChatCompleteModel::DeepSeekReasoner => "deepseek-reasoner",
            ChatCompleteModel::Other(s) => s.as_str(),
        }
    }
}

} // verus!
