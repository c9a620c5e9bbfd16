use vstd::prelude::*;

verus! {

/// A JSON document of any shape, such as the input of a tool. Carried through
/// the library without being inspected.
#[verifier::external_type_specification]
#[verifier::external_body]
pub struct ExJsonValue(serde_json::Value);

/// Relies on the derived `Clone` of `serde_json::Value`: a deep copy, equal to
/// the value it was made from.
pub assume_specification[ <serde_json::Value as Clone>::clone ](v: &serde_json::Value) -> (r:
    serde_json::Value)
    ensures
        r == *v,
;

/// Token counts of a response.
#[derive(Debug, Clone, Copy, PartialEq, Eq, Structural)]
pub struct Usage {
    pub input_tokens: Option<u32>,
    pub output_tokens: Option<u32>,
}

/// Which tool, if any, the model must use.
#[derive(Clone, Debug)]
pub enum ToolChoice {
    Auto,
    Any,
    Tool(String),
}

/// Who wrote a message.
#[derive(Debug, Clone, Copy, PartialEq, Eq, Structural)]
pub enum MessageRole {
    User,
    Assistant,
}

/// One message of a conversation.
#[derive(Debug, Clone, PartialEq)]
pub struct Message {
    pub role: MessageRole,
    pub content: MessageContentList,
}

/// The content blocks of a message, in order.
#[derive(Debug, Clone, PartialEq, Default)]
pub struct MessageContentList(pub Vec<MessageContent>);

/// One content block.
#[derive(Debug, PartialEq)]
pub enum MessageContent {
    ToolUse(ToolUse),
    ToolResult(ToolResult),
    Text(Text),
}

/// A request of the model to call a tool.
#[derive(Debug, PartialEq, Default)]
pub struct ToolUse {
    pub id: String,
    pub input: serde_json::Value,
    pub name: String,
}

/// The result of a tool call, sent back to the model.
#[derive(Debug, PartialEq, Default)]
pub struct ToolResult {
    pub tool_use_id: String,
    pub content: Option<String>,
    pub is_error: bool,
}

/// A block of text.
#[derive(Debug, PartialEq, Default)]
pub struct Text {
    pub text: String,
}

/// The response to a request for a message.
#[derive(Debug, Clone)]
pub struct CreateMessagesResponse {
    pub id: Option<String>,
    pub content: Option<Vec<MessageContent>>,
    pub model: Option<String>,
    pub stop_reason: Option<String>,
    pub stop_sequence: Option<String>,
    pub usage: Option<Usage>,
}

/// The change of a content block that a stream reports.
#[derive(Clone, Debug, PartialEq, Eq)]
pub enum ContentBlockDelta {
    TextDelta { text: String },
}

/// Token counts that a stream reports at the end of a message.
#[derive(Clone, Copy, Debug, PartialEq, Eq, Structural)]
pub struct MessageDeltaUsage {
    pub output_tokens: usize,
}

/// Why and where a streamed message stopped.
#[derive(Clone, Debug, PartialEq, Eq)]
pub struct MessageDelta {
    pub stop_reason: Option<String>,
    pub stop_sequence: Option<String>,
}

/// One event of a streamed message.
#[derive(Clone, Debug, PartialEq)]
pub enum MessagesStreamEvent {
    MessageStart { message: Message },
    ContentBlockStart { index: usize, content_block: MessageContent },
    ContentBlockDelta { index: usize, delta: ContentBlockDelta },
    ContentBlockStop { index: usize },
    MessageDelta { delta: MessageDelta, usage: MessageDeltaUsage },
    MessageStop,
}

/// A page of the models that the API offers.
#[derive(Clone, Debug, PartialEq)]
pub struct ListModelsResponse {
    pub data: Vec<Model>,
    pub first_id: Option<String>,
    pub has_more: bool,
    pub last_id: Option<String>,
}

/// A model that the API offers.
#[derive(Clone, Debug, PartialEq)]
pub struct Model {
    pub created_at: String,
    pub display_name: String,
    pub id: String,
    pub model_type: String,
}

pub type GetModelResponse = Model;

impl Clone for Text {
    fn clone(&self) -> (r: Text)
        ensures
            r == *self,
    {
        Text { text: self.text.clone() }
    }
}

impl Clone for ToolResult {
    fn clone(&self) -> (r: ToolResult)
        ensures
            r == *self,
    {
        let content = match &self.content {
            Some(c) => Some(c.clone()),
            None => None,
        };
        ToolResult { tool_use_id: self.tool_use_id.clone(), content, is_error: self.is_error }
    }
}

impl Clone for ToolUse {
    fn clone(&self) -> (r: ToolUse)
        ensures
            r == *self,
    {
        ToolUse { id: self.id.clone(), input: self.input.clone(), name: self.name.clone() }
    }
}

impl Clone for MessageContent {
    fn clone(&self) -> (r: MessageContent)
        ensures
            r == *self,
    {
        match self {
            MessageContent::ToolUse(t) => MessageContent::ToolUse(t.clone()),
            MessageContent::ToolResult(t) => MessageContent::ToolResult(t.clone()),
            MessageContent::Text(t) => MessageContent::Text(t.clone()),
        }
    }
}

/// The tool uses among `contents`, in order.
pub open spec fn tool_uses_of(contents: Seq<MessageContent>) -> Seq<ToolUse>
    decreases contents.len(),
{
    if contents.len() == 0 {
        Seq::empty()
    } else {
        let before = tool_uses_of(contents.drop_last());
        match contents.last() {
            MessageContent::ToolUse(t) => before.push(t),
            _ => before,
        }
    }
}

/// The text of the first text block among `contents`, if there is one.
pub open spec fn first_text(contents: Seq<MessageContent>) -> Option<Seq<char>>
    decreases contents.len(),
{
    if contents.len() == 0 {
        None
    } else {
        match contents[0] {
            MessageContent::Text(t) => Some(t.text@),
            _ => first_text(contents.drop_first()),
        }
    }
}

impl Message {
    /// All the tool uses of the message, in order.
    pub fn tool_uses(&self) -> (r: Vec<ToolUse>)
        ensures
            r@ == tool_uses_of(self.content.0@),
    {
        let contents = &self.content.0;
        let mut r: Vec<ToolUse> = Vec::new();
        let mut i: usize = 0;
        while i < contents.len()
            invariant
                i <= contents@.len(),
                r@ == tool_uses_of(contents@.subrange(0, i as int)),
            decreases contents@.len() - i,
        {
            assert(contents@.subrange(0, i + 1).drop_last() =~= contents@.subrange(0, i as int));
            match &contents[i] {
                MessageContent::ToolUse(t) => r.push(t.clone()),
                _ => {},
            }
            i = i + 1;
        }
        assert(contents@.subrange(0, i as int) =~= contents@);
        r
    }

    /// The text of the first text block of the message, if there is one.
    pub fn text(&self) -> (r: Option<String>)
        ensures
            match r {
                Some(t) => first_text(self.content.0@) == Some(t@),
                None => first_text(self.content.0@) is None,
            },
    {
        let contents = &self.content.0;
        let n = contents.len();
        let mut i: usize = 0;
        assert(contents@.subrange(0, n as int) =~= contents@);
        while i < n
            invariant
                i <= n,
                n == contents@.len(),
                contents@ == self.content.0@,
                first_text(contents@) == first_text(contents@.subrange(i as int, n as int)),
            decreases n - i,
        {
            assert(contents@.subrange(i as int, n as int).drop_first() =~= contents@.subrange(
                i + 1,
                n as int,
            ));
            match &contents[i] {
                MessageContent::Text(t) => {
                    assert(contents@.subrange(i as int, n as int)[0] == contents@[i as int]);
                    return Some(t.text.clone());
                },
                _ => {},
            }
            i = i + 1;
        }
        None
    }
}

/// The messages that carry each of `contents`, one block each, written by the assistant.
pub open spec fn as_messages(contents: Seq<MessageContent>, r: Seq<Message>) -> bool {
    &&& r.len() == contents.len()
    &&& forall|i: int|
        0 <= i < r.len() ==> (#[trigger] r[i]).role == MessageRole::Assistant && r[i].content.0@
            == seq![contents[i]]
}

impl CreateMessagesResponse {
    /// The content of the response as messages of the assistant, one per
    /// block, so that they can be sent back in a later request.
    pub fn messages(&self) -> (r: Vec<Message>)
        ensures
            match self.content {
                Some(c) => as_messages(c@, r@),
                None => r@.len() == 0,
            },
    {
        let contents = match &self.content {
            Some(c) => c,
            None => {
                return Vec::new();
            },
        };
        let mut r: Vec<Message> = Vec::new();
        let mut i: usize = 0;
        while i < contents.len()
            invariant
                i <= contents@.len(),
                as_messages(contents@.subrange(0, i as int), r@),
            decreases contents@.len() - i,
        {
            let block = contents[i].clone();
            let list = MessageContentList(vec![block]);
            assert(list.0@ =~= seq![contents@[i as int]]);
            r.push(Message { role: MessageRole::Assistant, content: list });
            i = i + 1;
        }
        assert(contents@.subrange(0, i as int) =~= contents@);
        r
    }
}

impl MessageContent {
    pub fn as_tool_use(&self) -> (r: Option<&ToolUse>)
        ensures
            match self {
                MessageContent::ToolUse(t) => r == Some(t),
                _ => r is None,
            },
    {
        match self {
            MessageContent::ToolUse(t) => Some(t),
            _ => None,
        }
    }

    pub fn as_tool_result(&self) -> (r: Option<&ToolResult>)
        ensures
            match self {
                MessageContent::ToolResult(t) => r == Some(t),
                _ => r is None,
            },
    {
        match self {
            MessageContent::ToolResult(t) => Some(t),
            _ => None,
        }
    }

    pub fn as_text(&self) -> (r: Option<&Text>)
        ensures
            match self {
                MessageContent::Text(t) => r == Some(t),
                _ => r is None,
            },
    {
        match self {
            MessageContent::Text(t) => Some(t),
            _ => None,
        }
    }
}

impl core::ops::Deref for MessageContentList {
    type Target = Vec<MessageContent>;

    fn deref(&self) -> (r: &Vec<MessageContent>)
        ensures
            *r == self.0,
    {
        &self.0
    }
}

impl core::ops::DerefMut for MessageContentList {
    fn deref_mut(&mut self) -> (r: &mut Vec<MessageContent>)
        ensures
            *r == old(self).0,
            *final(self) == MessageContentList(*final(r)),
    {
        &mut self.0
    }
}

impl From<ToolUse> for MessageContent {
    fn from(tool_use: ToolUse) -> (r: MessageContent) {
        MessageContent::ToolUse(tool_use)
    }
}

impl vstd::std_specs::convert::FromSpecImpl<ToolUse> for MessageContent {
    open spec fn obeys_from_spec() -> bool {
        true
    }

    open spec fn from_spec(v: ToolUse) -> MessageContent {
        MessageContent::ToolUse(v)
    }
}

impl From<ToolResult> for MessageContent {
    fn from(tool_result: ToolResult) -> (r: MessageContent) {
        MessageContent::ToolResult(tool_result)
    }
}

impl vstd::std_specs::convert::FromSpecImpl<ToolResult> for MessageContent {
    open spec fn obeys_from_spec() -> bool {
        true
    }

    open spec fn from_spec(v: ToolResult) -> MessageContent {
        MessageContent::ToolResult(v)
    }
}

impl From<Text> for MessageContent {
    fn from(text: Text) -> (r: MessageContent) {
        MessageContent::Text(text)
    }
}

impl vstd::std_specs::convert::FromSpecImpl<Text> for MessageContent {
    open spec fn obeys_from_spec() -> bool {
        true
    }

    open spec fn from_spec(v: Text) -> MessageContent {
        MessageContent::Text(v)
    }
}

impl From<MessageContent> for MessageContentList {
    fn from(content: MessageContent) -> (r: MessageContentList)
        ensures
            r.0@ == seq![content],
    {
        let r = MessageContentList(vec![content]);
        assert(r.0@ =~= seq![content]);
        r
    }
}

// A list is a fresh vector, which no spec function can build: what `from`
// returns is stated on each impl instead.
impl vstd::std_specs::convert::FromSpecImpl<MessageContent> for MessageContentList {
    open spec fn obeys_from_spec() -> bool {
        false
    }

    open spec fn from_spec(v: MessageContent) -> MessageContentList {
        arbitrary()
    }
}

impl From<ToolUse> for MessageContentList {
    fn from(tool_use: ToolUse) -> (r: MessageContentList)
        ensures
            r.0@ == seq![MessageContent::ToolUse(tool_use)],
    {
        MessageContentList::from(MessageContent::ToolUse(tool_use))
    }
}

impl vstd::std_specs::convert::FromSpecImpl<ToolUse> for MessageContentList {
    open spec fn obeys_from_spec() -> bool {
        false
    }

    open spec fn from_spec(v: ToolUse) -> MessageContentList {
        arbitrary()
    }
}

impl From<ToolResult> for MessageContentList {
    fn from(tool_result: ToolResult) -> (r: MessageContentList)
        ensures
            r.0@ == seq![MessageContent::ToolResult(tool_result)],
    {
        MessageContentList::from(MessageContent::ToolResult(tool_result))
    }
}

impl vstd::std_specs::convert::FromSpecImpl<ToolResult> for MessageContentList {
    open spec fn obeys_from_spec() -> bool {
        false
    }

    open spec fn from_spec(v: ToolResult) -> MessageContentList {
        arbitrary()
    }
}

impl From<Text> for MessageContentList {
    fn from(text: Text) -> (r: MessageContentList)
        ensures
            r.0@ == seq![MessageContent::Text(text)],
    {
        MessageContentList::from(MessageContent::Text(text))
    }
}

impl vstd::std_specs::convert::FromSpecImpl<Text> for MessageContentList {
    open spec fn obeys_from_spec() -> bool {
        false
    }

    open spec fn from_spec(v: Text) -> MessageContentList {
        arbitrary()
    }
}

// A text is a fresh string, which no spec function can build from a `&str`:
// what `from` returns is stated on each impl instead.
impl From<&str> for Text {
    fn from(s: &str) -> (r: Text)
        ensures
            r.text@ == s@,
    {
        Text { text: String::from_str(s) }
    }
}

impl vstd::std_specs::convert::FromSpecImpl<&str> for Text {
    open spec fn obeys_from_spec() -> bool {
        false
    }

    open spec fn from_spec(v: &str) -> Text {
        arbitrary()
    }
}

impl From<&str> for MessageContent {
    fn from(s: &str) -> (r: MessageContent)
        ensures
            r matches MessageContent::Text(t) && t.text@ == s@,
    {
        MessageContent::Text(Text::from(s))
    }
}

impl vstd::std_specs::convert::FromSpecImpl<&str> for MessageContent {
    open spec fn obeys_from_spec() -> bool {
        false
    }

    open spec fn from_spec(v: &str) -> MessageContent {
        arbitrary()
    }
}

impl From<&str> for MessageContentList {
    fn from(s: &str) -> (r: MessageContentList)
        ensures
            r.0@.len() == 1,
            r.0@[0] matches MessageContent::Text(t) && t.text@ == s@,
    {
        MessageContentList::from(MessageContent::from(s))
    }
}

impl vstd::std_specs::convert::FromSpecImpl<&str> for MessageContentList {
    open spec fn obeys_from_spec() -> bool {
        false
    }

    open spec fn from_spec(v: &str) -> MessageContentList {
        arbitrary()
    }
}

impl From<&str> for Message {
    /// A message of the user made of one text block.
    fn from(s: &str) -> (r: Message)
        ensures
            r.role == MessageRole::User,
            r.content.0@.len() == 1,
            r.content.0@[0] matches MessageContent::Text(t) && t.text@ == s@,
    {
        Message { role: MessageRole::User, content: MessageContentList::from(s) }
    }
}

impl vstd::std_specs::convert::FromSpecImpl<&str> for Message {
    open spec fn obeys_from_spec() -> bool {
        false
    }

    open spec fn from_spec(v: &str) -> Message {
        arbitrary()
    }
}

impl From<String> for Text {
    fn from(s: String) -> (r: Text) {
        Text { text: s }
    }
}

impl vstd::std_specs::convert::FromSpecImpl<String> for Text {
    open spec fn obeys_from_spec() -> bool {
        true
    }

    open spec fn from_spec(v: String) -> Text {
        Text { text: v }
    }
}

impl From<String> for MessageContent {
    fn from(s: String) -> (r: MessageContent) {
        MessageContent::Text(Text { text: s })
    }
}

impl vstd::std_specs::convert::FromSpecImpl<String> for MessageContent {
    open spec fn obeys_from_spec() -> bool {
        true
    }

    open spec fn from_spec(v: String) -> MessageContent {
        MessageContent::Text(Text { text: v })
    }
}

impl From<String> for MessageContentList {
    fn from(s: String) -> (r: MessageContentList)
        ensures
            r.0@ == seq![MessageContent::Text(Text { text: s })],
    {
        MessageContentList::from(MessageContent::Text(Text { text: s }))
    }
}

impl vstd::std_specs::convert::FromSpecImpl<String> for MessageContentList {
    open spec fn obeys_from_spec() -> bool {
        false
    }

    open spec fn from_spec(v: String) -> MessageContentList {
        arbitrary()
    }
}

impl From<String> for Message {
    /// A message of the user made of one text block.
    fn from(s: String) -> (r: Message)
        ensures
            r.role == MessageRole::User,
            r.content.0@ == seq![MessageContent::Text(Text { text: s })],
    {
        Message { role: MessageRole::User, content: MessageContentList::from(s) }
    }
}

impl vstd::std_specs::convert::FromSpecImpl<String> for Message {
    open spec fn obeys_from_spec() -> bool {
        false
    }

    open spec fn from_spec(v: String) -> Message {
        arbitrary()
    }
}

} // verus!
