//! Chat messages exchanged with the language model, and the tool calls it
//! asks for.

use vstd::prelude::*;
use vstd::string::StringExecFns;

verus! {

/// JSON values, as `serde_json` represents them; the library only carries
/// them along.
#[verifier::external_type_specification]
#[verifier::external_body]
pub struct ExValue(serde_json::Value);

/// Copies a JSON value: `serde_json::Value` derives `Clone`, which copies
/// every node, so the copy is the same value.
#[verifier::external_body]
pub(crate) fn clone_value(v: &serde_json::Value) -> (r: serde_json::Value)
    ensures
        r == *v,
{
    v.clone()
}

/// A call of a tool that the model asked for.
#[derive(Debug)]
pub struct ToolCall {
    pub id: String,
    pub name: String,
    pub arguments: serde_json::Value,
}

impl Clone for ToolCall {
    fn clone(&self) -> (r: Self)
        ensures
            r == *self,
    {
        ToolCall {
            id: self.id.clone(),
            name: self.name.clone(),
            arguments: clone_value(&self.arguments),
        }
    }
}

/// A chat message: its role (`"system"`, `"user"`, `"assistant"` or
/// `"tool"`), its text, and for the model's tool requests and the tools'
/// answers the calls, the id of the call answered and the tool's name.
#[derive(Debug)]
pub struct Message {
    pub role: String,
    pub content: Option<String>,
    pub tool_calls: Option<Vec<ToolCall>>,
    pub tool_call_id: Option<String>,
    pub name: Option<String>,
}

/// A message as a value: its strings taken by their characters.
pub struct MessageView {
    pub role: Seq<char>,
    pub content: Option<Seq<char>>,
    pub tool_calls: Option<Seq<ToolCall>>,
    pub tool_call_id: Option<Seq<char>>,
    pub name: Option<Seq<char>>,
}

/// The characters of an optional string.
pub open spec fn opt_view(s: Option<String>) -> Option<Seq<char>> {
    match s {
        Some(t) => Some(t@),
        None => None,
    }
}

impl View for Message {
    type V = MessageView;

    open spec fn view(&self) -> MessageView {
        MessageView {
            role: self.role@,
            content: opt_view(self.content),
            tool_calls: match self.tool_calls {
                Some(v) => Some(v@),
                None => None,
            },
            tool_call_id: opt_view(self.tool_call_id),
            name: opt_view(self.name),
        }
    }
}

/// Copies an optional string.
pub fn clone_opt_string(s: &Option<String>) -> (r: Option<String>)
    ensures
        r == *s,
{
    match s {
        Some(t) => Some(t.clone()),
        None => None,
    }
}

/// Copies a list of tool calls.
pub fn clone_tool_calls(v: &Vec<ToolCall>) -> (r: Vec<ToolCall>)
    ensures
        r@ == v@,
{
    let mut r: Vec<ToolCall> = Vec::new();
    let mut k: usize = 0;
    while k < v.len()
        invariant
            k <= v.len(),
            r@ == v@.take(k as int),
        decreases v.len() - k,
    {
        r.push(v[k].clone());
        assert(v@.take(k + 1) =~= v@.take(k as int).push(v@[k as int]));
        k = k + 1;
    }
    assert(v@.take(v.len() as int) =~= v@);
    r
}

impl Clone for Message {
    fn clone(&self) -> (r: Self)
        ensures
            r@ == self@,
    {
        Message {
            role: self.role.clone(),
            content: clone_opt_string(&self.content),
            tool_calls: match &self.tool_calls {
                Some(v) => Some(clone_tool_calls(v)),
                None => None,
            },
            tool_call_id: clone_opt_string(&self.tool_call_id),
            name: clone_opt_string(&self.name),
        }
    }
}

impl Message {
    /// A message from the user.
    pub fn user(content: &str) -> (r: Message)
        ensures
            r@ == (MessageView {
                role: "user"@,
                content: Some(content@),
                tool_calls: None,
                tool_call_id: None,
                name: None,
            }),
    {
        Message {
            role: String::from_str("user"),
            content: Some(String::from_str(content)),
            tool_calls: None,
            tool_call_id: None,
            name: None,
        }
    }

    /// The model's request to call the tools `calls`.
    pub fn assistant_with_tool_calls(calls: &[ToolCall]) -> (r: Message)
        ensures
            r@ == (MessageView {
                role: "assistant"@,
                content: None,
                tool_calls: Some(calls@),
                tool_call_id: None,
                name: None,
            }),
    {
        let mut v: Vec<ToolCall> = Vec::new();
        let mut k: usize = 0;
        while k < calls.len()
            invariant
                k <= calls.len(),
                v@ == calls@.take(k as int),
            decreases calls.len() - k,
        {
            v.push(calls[k].clone());
            assert(calls@.take(k + 1) =~= calls@.take(k as int).push(calls@[k as int]));
            k = k + 1;
        }
        assert(calls@.take(calls.len() as int) =~= calls@);
        Message {
            role: String::from_str("assistant"),
            content: None,
            tool_calls: Some(v),
            tool_call_id: None,
            name: None,
        }
    }

    /// The answer `content` of a tool to the call `tool_call_id`.
    pub fn tool_result(tool_call_id: &str, content: &str) -> (r: Message)
        ensures
            r@ == (MessageView {
                role: "tool"@,
                content: Some(content@),
                tool_calls: None,
                tool_call_id: Some(tool_call_id@),
                name: None,
            }),
    {
        Message::tool_result_named(tool_call_id, content, None)
    }

    /// The answer `content` of the tool `name` to the call `tool_call_id`.
    pub fn tool_result_named(tool_call_id: &str, content: &str, name: Option<&str>) -> (r: Message)
        ensures
            r@ == (MessageView {
                role: "tool"@,
                content: Some(content@),
                tool_calls: None,
                tool_call_id: Some(tool_call_id@),
                name: match name {
                    Some(n) => Some(n@),
                    None => None,
                },
            }),
    {
        Message {
            role: String::from_str("tool"),
            content: Some(String::from_str(content)),
            tool_calls: None,
            tool_call_id: Some(String::from_str(tool_call_id)),
            name: match name {
                Some(n) => Some(String::from_str(n)),
                None => None,
            },
        }
    }
}

} // verus!
