//! Verified JSON encoding of the request model. Each encoder's contract
//! states the exact text produced, through the `JVal` model and its
//! rendering: the `role` tag is a sibling field of the message body, unset
//! optional fields are omitted entirely (never `null`), and an empty
//! participant name is omitted rather than carried as an empty string.

use vstd::prelude::*;
use vstd::seq_lib::lemma_concat_associative;
use crate::chat::{
    AssistantMessage, ChatCompletionMessage, ChatCompletionRequest, ChatResponseFormat,
    ChatResponseFormatObject, SystemMessage, Tool, ToolCall, ToolChoice, ToolMessage,
    UserMessage, model_wire,
};
use crate::json::{
    JVal, chars_to_string, emit_quoted, emit_raw, emit_u64, lemma_fields_cons,
    lemma_fields_tail_concat, lemma_fields_tail_singleton, lemma_items_tail_concat,
    lemma_items_tail_singleton, quoted, render, render_field, render_fields,
    render_fields_tail, render_items, render_items_tail,
};

verus! {

/// The `name` member: present exactly when a non-empty name is set.
pub open spec fn name_field(o: Option<String>) -> Seq<(Seq<char>, JVal)> {
    match o {
        Some(s) => if s@.len() > 0 {
            seq![("name"@, JVal::Str(s@))]
        } else {
            Seq::empty()
        },
        None => Seq::empty(),
    }
}

/// An optional `content` member: present exactly when content is set.
pub open spec fn content_opt_field(o: Option<String>) -> Seq<(Seq<char>, JVal)> {
    match o {
        Some(s) => seq![("content"@, JVal::Str(s@))],
        None => Seq::empty(),
    }
}

/// The JSON value of one tool call.
pub open spec fn call_jval(c: ToolCall) -> JVal {
    JVal::Obj(
        seq![
            ("id"@, JVal::Str(c.id@)),
            ("type"@, JVal::Str("function"@)),
            (
                "function"@,
                JVal::Obj(
                    seq![
                        ("name"@, JVal::Str(c.function.name@)),
                        ("arguments"@, JVal::Str(c.function.arguments@)),
                    ],
                ),
            ),
        ],
    )
}

/// The `tool_calls` member: present exactly when the list is not empty.
pub open spec fn tool_calls_field(tc: Seq<ToolCall>) -> Seq<(Seq<char>, JVal)> {
    if tc.len() == 0 {
        Seq::empty()
    } else {
        seq![("tool_calls"@, JVal::Arr(tc.map_values(|c: ToolCall| call_jval(c))))]
    }
}

/// The JSON value of one conversation message: its role as a sibling field
/// of the message body.
pub open spec fn msg_jval(m: ChatCompletionMessage) -> JVal {
    match m {
        ChatCompletionMessage::System(sm) => JVal::Obj(
            seq![("role"@, JVal::Str("system"@)), ("content"@, JVal::Str(sm.content@))]
                + name_field(sm.name),
        ),
        ChatCompletionMessage::User(um) => JVal::Obj(
            seq![("role"@, JVal::Str("user"@)), ("content"@, JVal::Str(um.content@))] + name_field(
                um.name,
            ),
        ),
        ChatCompletionMessage::Assistant(am) => JVal::Obj(
            seq![("role"@, JVal::Str("assistant"@))] + content_opt_field(am.content) + name_field(
                am.name,
            ) + tool_calls_field(am.tool_calls@),
        ),
        ChatCompletionMessage::Tool(tm) => JVal::Obj(
            seq![
                ("role"@, JVal::Str("tool"@)),
                ("content"@, JVal::Str(tm.content@)),
                ("tool_call_id"@, JVal::Str(tm.tool_call_id@)),
            ],
        ),
    }
}

/// The JSON value of a forced tool choice: the two keywords serialize as
/// bare strings, a forced function as a tagged object naming it.
pub open spec fn tool_choice_jval(t: ToolChoice) -> JVal {
    match t {
        ToolChoice::NoTool => JVal::Str("none"@),
        ToolChoice::Auto => JVal::Str("auto"@),
        ToolChoice::Function { name } => JVal::Obj(
            seq![
                ("type"@, JVal::Str("function"@)),
                ("function"@, JVal::Obj(seq![("name"@, JVal::Str(name@))])),
            ],
        ),
    }
}

/// The JSON value of one tool descriptor; the parameters schema text is
/// spliced in verbatim.
pub open spec fn tool_jval(t: Tool) -> JVal {
    JVal::Obj(
        seq![
            ("type"@, JVal::Str("function"@)),
            (
                "function"@,
                JVal::Obj(
                    seq![
                        ("description"@, JVal::Str(t.function.description@)),
                        ("name"@, JVal::Str(t.function.name@)),
                        ("parameters"@, JVal::Raw(t.function.parameters@)),
                    ],
                ),
            ),
        ],
    )
}

/// The wire keyword of a response format.
pub open spec fn format_wire(f: ChatResponseFormat) -> Seq<char> {
    match f {
        ChatResponseFormat::Text => "text"@,
        ChatResponseFormat::Json => "json"@,
    }
}

/// The JSON value of the response format wrapper object.
pub open spec fn format_jval(f: ChatResponseFormatObject) -> JVal {
    JVal::Obj(seq![("type"@, JVal::Str(format_wire(f.kind)))])
}

/// An optional unsigned member: present exactly when set.
pub open spec fn uint_field(k: Seq<char>, o: Option<usize>) -> Seq<(Seq<char>, JVal)> {
    match o {
        Some(v) => seq![(k, JVal::UInt(v as u64))],
        None => Seq::empty(),
    }
}

/// An optional string member: present exactly when set.
pub open spec fn str_field(k: Seq<char>, o: Option<String>) -> Seq<(Seq<char>, JVal)> {
    match o {
        Some(s) => seq![(k, JVal::Str(s@))],
        None => Seq::empty(),
    }
}

/// An optional boolean member: present exactly when set.
pub open spec fn bool_field(k: Seq<char>, o: Option<bool>) -> Seq<(Seq<char>, JVal)> {
    match o {
        Some(b) => seq![(k, JVal::Bool(b))],
        None => Seq::empty(),
    }
}

/// The optional `response_format` member.
pub open spec fn format_field(o: Option<ChatResponseFormatObject>) -> Seq<(Seq<char>, JVal)> {
    match o {
        Some(f) => seq![("response_format"@, format_jval(f))],
        None => Seq::empty(),
    }
}

/// The `tools` member: present exactly when the list is not empty.
pub open spec fn tools_field(ts: Seq<Tool>) -> Seq<(Seq<char>, JVal)> {
    if ts.len() == 0 {
        Seq::empty()
    } else {
        seq![("tools"@, JVal::Arr(ts.map_values(|t: Tool| tool_jval(t))))]
    }
}

/// The optional `tool_choice` member.
pub open spec fn choice_field(o: Option<ToolChoice>) -> Seq<(Seq<char>, JVal)> {
    match o {
        Some(t) => seq![("tool_choice"@, tool_choice_jval(t))],
        None => Seq::empty(),
    }
}

/// The members of a request object: the conversation and the model always,
/// then each optional parameter exactly when it is set.
pub open spec fn request_fields(r: ChatCompletionRequest) -> Seq<(Seq<char>, JVal)> {
    seq![
        ("messages"@, JVal::Arr(r.messages@.map_values(|m: ChatCompletionMessage| msg_jval(m)))),
        ("model"@, JVal::Str(model_wire(r.model))),
    ] + uint_field("max_tokens"@, r.max_tokens) + uint_field("n"@, r.n) + format_field(
        r.response_format,
    ) + uint_field("seed"@, r.seed) + str_field("stop"@, r.stop) + bool_field(
        "stream"@,
        r.stream,
    ) + tools_field(r.tools@) + choice_field(r.tool_choice) + str_field("user"@, r.user)
}

/// The JSON value of a whole request.
pub open spec fn request_jval(r: ChatCompletionRequest) -> JVal {
    JVal::Obj(request_fields(r))
}

/// Appends one `"key": "value"` object member with a string value.
fn emit_str_field(out: &mut Vec<char>, key: &str, val: &str)
    ensures
        final(out)@ == old(out)@ + render_field((key@, JVal::Str(val@))),
{
    emit_quoted(out, key);
    out.push(':');
    emit_quoted(out, val);
    proof {
        assert(((old(out)@ + quoted(key@)) + seq![':']) + quoted(val@) =~= old(out)@
            + render_field((key@, JVal::Str(val@))));
    }
}

/// Appends the object text for one tool call.
#[verifier::rlimit(60)]
fn emit_call(out: &mut Vec<char>, c: &ToolCall)
    ensures
        final(out)@ == old(out)@ + render(call_jval(*c)),
{
    let ghost f_id = ("id"@, JVal::Str(c.id@));
    let ghost f_ty = ("type"@, JVal::Str("function"@));
    let ghost f_name = ("name"@, JVal::Str(c.function.name@));
    let ghost f_args = ("arguments"@, JVal::Str(c.function.arguments@));
    let ghost inner = JVal::Obj(seq![f_name, f_args]);
    let ghost f_fn = ("function"@, inner);
    out.push('{');
    emit_str_field(out, "id", c.id.as_str());
    out.push(',');
    emit_str_field(out, "type", "function");
    out.push(',');
    emit_quoted(out, "function");
    out.push(':');
    out.push('{');
    emit_str_field(out, "name", c.function.name.as_str());
    out.push(',');
    emit_str_field(out, "arguments", c.function.arguments.as_str());
    out.push('}');
    out.push('}');
    proof {
        assert(render(inner) == seq!['{'] + render_fields(seq![f_name, f_args]) + seq!['}']);
        assert(seq![f_name, f_args] =~= seq![f_name] + seq![f_args]);
        lemma_fields_cons(f_name, seq![f_args]);
        lemma_fields_tail_singleton(f_args);
        assert(render_field(f_fn) == quoted("function"@) + seq![':'] + render(inner));
        assert(call_jval(*c) == JVal::Obj(seq![f_id, f_ty, f_fn]));
        assert(seq![f_id, f_ty, f_fn] =~= seq![f_id] + (seq![f_ty] + seq![f_fn]));
        lemma_fields_cons(f_id, seq![f_ty] + seq![f_fn]);
        lemma_fields_tail_concat(seq![f_ty], seq![f_fn]);
        lemma_fields_tail_singleton(f_ty);
        lemma_fields_tail_singleton(f_fn);
        assert(final(out)@ =~= old(out)@ + render(call_jval(*c)));
    }
}

/// Appends the array text for a non-empty tool-call list.
fn emit_tool_calls(out: &mut Vec<char>, calls: &Vec<ToolCall>)
    ensures
        final(out)@ == old(out)@ + render(
            JVal::Arr(calls@.map_values(|c: ToolCall| call_jval(c))),
        ),
{
    let ghost items = calls@.map_values(|c: ToolCall| call_jval(c));
    out.push('[');
    if calls.len() > 0 {
        emit_call(out, &calls[0]);
        proof {
            assert(items[0] == call_jval(calls@[0]));
        }
        let mut i: usize = 1;
        while i < calls.len()
            invariant
                1 <= i <= calls.len(),
                items == calls@.map_values(|c: ToolCall| call_jval(c)),
                out@ == old(out)@ + seq!['['] + render(items[0]) + render_items_tail(
                    items.subrange(1, i as int),
                ),
            decreases calls.len() - i,
        {
            let ghost o_start = out@;
            out.push(',');
            emit_call(out, &calls[i]);
            proof {
                let pre = items.subrange(1, i as int);
                let post = items.subrange(1, i + 1);
                assert(post =~= pre + seq![items[i as int]]);
                lemma_items_tail_concat(pre, seq![items[i as int]]);
                lemma_items_tail_singleton(items[i as int]);
                assert(items[i as int] == call_jval(calls@[i as int]));
                assert(out@ == (o_start + seq![',']) + render(call_jval(calls@[i as int])));
                assert(out@ =~= old(out)@ + seq!['['] + render(items[0]) + render_items_tail(
                    post,
                ));
            }
            i = i + 1;
        }
        proof {
            assert(items.subrange(1, calls@.len() as int) =~= items.drop_first());
            assert(render_items(items) == render(items[0]) + render_items_tail(
                items.drop_first(),
            ));
        }
    } else {
        proof {
            assert(items.len() == 0);
            assert(render_items(items) == Seq::<char>::empty());
        }
    }
    out.push(']');
    proof {
        assert(final(out)@ =~= old(out)@ + render(
            JVal::Arr(calls@.map_values(|c: ToolCall| call_jval(c))),
        ));
    }
}

/// Appends the object text of one conversation message.
fn emit_message(out: &mut Vec<char>, m: &ChatCompletionMessage)
    ensures
        final(out)@ == old(out)@ + render(msg_jval(*m)),
{
    match m {
        ChatCompletionMessage::System(sm) => emit_system(out, sm),
        ChatCompletionMessage::User(um) => emit_user(out, um),
        ChatCompletionMessage::Assistant(am) => emit_assistant(out, am),
        ChatCompletionMessage::Tool(tm) => emit_tool_message(out, tm),
    }
}

/// Appends the object text of a system message.
fn emit_system(out: &mut Vec<char>, sm: &SystemMessage)
    ensures
        final(out)@ == old(out)@ + render(msg_jval(ChatCompletionMessage::System(*sm))),
{
    let ghost rf = ("role"@, JVal::Str("system"@));
    let ghost cf = ("content"@, JVal::Str(sm.content@));
    let ghost nf = name_field(sm.name);
    out.push('{');
    emit_str_field(out, "role", "system");
    out.push(',');
    emit_str_field(out, "content", sm.content.as_str());
    emit_name(out, &sm.name);
    out.push('}');
    proof {
        lemma_fields_tail_singleton(cf);
        assert(msg_jval(ChatCompletionMessage::System(*sm)) == JVal::Obj(seq![rf, cf] + nf));
        assert(seq![rf, cf] + nf =~= seq![rf] + (seq![cf] + nf));
        lemma_fields_cons(rf, seq![cf] + nf);
        lemma_fields_tail_concat(seq![cf], nf);
        assert(final(out)@ =~= old(out)@ + render(
            msg_jval(ChatCompletionMessage::System(*sm)),
        ));
    }
}

/// Appends the object text of a user message.
fn emit_user(out: &mut Vec<char>, um: &UserMessage)
    ensures
        final(out)@ == old(out)@ + render(msg_jval(ChatCompletionMessage::User(*um))),
{
    let ghost rf = ("role"@, JVal::Str("user"@));
    let ghost cf = ("content"@, JVal::Str(um.content@));
    let ghost nf = name_field(um.name);
    out.push('{');
    emit_str_field(out, "role", "user");
    out.push(',');
    emit_str_field(out, "content", um.content.as_str());
    emit_name(out, &um.name);
    out.push('}');
    proof {
        lemma_fields_tail_singleton(cf);
        assert(msg_jval(ChatCompletionMessage::User(*um)) == JVal::Obj(seq![rf, cf] + nf));
        assert(seq![rf, cf] + nf =~= seq![rf] + (seq![cf] + nf));
        lemma_fields_cons(rf, seq![cf] + nf);
        lemma_fields_tail_concat(seq![cf], nf);
        assert(final(out)@ =~= old(out)@ + render(msg_jval(ChatCompletionMessage::User(*um))));
    }
}

/// Appends the object text of an assistant message.
#[verifier::rlimit(60)]
fn emit_assistant(out: &mut Vec<char>, am: &AssistantMessage)
    ensures
        final(out)@ == old(out)@ + render(msg_jval(ChatCompletionMessage::Assistant(*am))),
{
    let ghost rf = ("role"@, JVal::Str("assistant"@));
    let ghost cfs = content_opt_field(am.content);
    let ghost nfs = name_field(am.name);
    let ghost tfs = tool_calls_field(am.tool_calls@);
    out.push('{');
    emit_str_field(out, "role", "assistant");
    match &am.content {
        Some(s) => {
            out.push(',');
            emit_str_field(out, "content", s.as_str());
            proof {
                lemma_fields_tail_singleton(("content"@, JVal::Str(s@)));
                assert(cfs =~= seq![("content"@, JVal::Str(s@))]);
            }
        },
        None => {
            proof {
                assert(render_fields_tail(cfs) == Seq::<char>::empty());
            }
        },
    }
    emit_name(out, &am.name);
    if am.tool_calls.len() > 0 {
        out.push(',');
        emit_quoted(out, "tool_calls");
        out.push(':');
        emit_tool_calls(out, &am.tool_calls);
        proof {
            let tcv = JVal::Arr(am.tool_calls@.map_values(|c: ToolCall| call_jval(c)));
            assert(tfs =~= seq![("tool_calls"@, tcv)]);
            lemma_fields_tail_singleton(("tool_calls"@, tcv));
            assert(render_field(("tool_calls"@, tcv)) == quoted("tool_calls"@) + seq![':']
                + render(tcv));
        }
    } else {
        proof {
            assert(tfs.len() == 0);
            assert(render_fields_tail(tfs) == Seq::<char>::empty());
        }
    }
    out.push('}');
    proof {
        assert(msg_jval(ChatCompletionMessage::Assistant(*am)) == JVal::Obj(
            seq![rf] + cfs + nfs + tfs,
        ));
        assert(seq![rf] + cfs + nfs + tfs =~= seq![rf] + (cfs + nfs + tfs));
        lemma_fields_cons(rf, cfs + nfs + tfs);
        lemma_fields_tail_concat(cfs + nfs, tfs);
        lemma_fields_tail_concat(cfs, nfs);
        assert(final(out)@ =~= old(out)@ + render(
            msg_jval(ChatCompletionMessage::Assistant(*am)),
        ));
    }
}

/// Appends the object text of a tool-result message.
fn emit_tool_message(out: &mut Vec<char>, tm: &ToolMessage)
    ensures
        final(out)@ == old(out)@ + render(msg_jval(ChatCompletionMessage::Tool(*tm))),
{
    let ghost rf = ("role"@, JVal::Str("tool"@));
    let ghost cf = ("content"@, JVal::Str(tm.content@));
    let ghost idf = ("tool_call_id"@, JVal::Str(tm.tool_call_id@));
    out.push('{');
    emit_str_field(out, "role", "tool");
    out.push(',');
    emit_str_field(out, "content", tm.content.as_str());
    out.push(',');
    emit_str_field(out, "tool_call_id", tm.tool_call_id.as_str());
    out.push('}');
    proof {
        assert(msg_jval(ChatCompletionMessage::Tool(*tm)) == JVal::Obj(seq![rf, cf, idf]));
        assert(seq![rf, cf, idf] =~= seq![rf] + (seq![cf] + seq![idf]));
        lemma_fields_cons(rf, seq![cf] + seq![idf]);
        lemma_fields_tail_concat(seq![cf], seq![idf]);
        lemma_fields_tail_singleton(cf);
        lemma_fields_tail_singleton(idf);
        assert(final(out)@ =~= old(out)@ + render(msg_jval(ChatCompletionMessage::Tool(*tm))));
    }
}

/// Appends the comma-prefixed `name` member when a non-empty name is set,
/// and nothing otherwise.
fn emit_name(out: &mut Vec<char>, name: &Option<String>)
    ensures
        final(out)@ == old(out)@ + render_fields_tail(name_field(*name)),
{
    match name {
        Some(n) => {
            if !n.as_str().is_empty() {
                out.push(',');
                emit_str_field(out, "name", n.as_str());
                proof {
                    assert(name_field(*name) =~= seq![("name"@, JVal::Str(n@))]);
                    lemma_fields_tail_singleton(("name"@, JVal::Str(n@)));
                    assert((old(out)@ + seq![',']) + render_field(("name"@, JVal::Str(n@)))
                        =~= old(out)@ + render_fields_tail(name_field(*name)));
                }
            } else {
                proof {
                    assert(name_field(*name).len() == 0);
                    assert(old(out)@ + render_fields_tail(name_field(*name)) =~= old(out)@);
                }
            }
        },
        None => {
            proof {
                assert(old(out)@ + render_fields_tail(name_field(*name)) =~= old(out)@);
            }
        },
    }
}

/// Appends the text of a forced tool choice.
fn emit_tool_choice(out: &mut Vec<char>, t: &ToolChoice)
    ensures
        final(out)@ == old(out)@ + render(tool_choice_jval(*t)),
{
    match t {
        ToolChoice::NoTool => {
            emit_quoted(out, "none");
        },
        ToolChoice::Auto => {
            emit_quoted(out, "auto");
        },
        ToolChoice::Function { name } => {
            let ghost f_ty = ("type"@, JVal::Str("function"@));
            let ghost inner = JVal::Obj(seq![("name"@, JVal::Str(name@))]);
            let ghost f_fn = ("function"@, inner);
            out.push('{');
            emit_str_field(out, "type", "function");
            out.push(',');
            emit_quoted(out, "function");
            out.push(':');
            out.push('{');
            emit_str_field(out, "name", name.as_str());
            out.push('}');
            out.push('}');
            proof {
                assert(seq![("name"@, JVal::Str(name@))] =~= seq![("name"@, JVal::Str(name@))]
                    + Seq::<(Seq<char>, JVal)>::empty());
                lemma_fields_cons(("name"@, JVal::Str(name@)), Seq::empty());
                assert(render(inner) == seq!['{'] + render_fields(
                    seq![("name"@, JVal::Str(name@))],
                ) + seq!['}']);
                assert(render_field(f_fn) == quoted("function"@) + seq![':'] + render(inner));
                assert(tool_choice_jval(*t) == JVal::Obj(seq![f_ty, f_fn]));
                assert(seq![f_ty, f_fn] =~= seq![f_ty] + seq![f_fn]);
                lemma_fields_cons(f_ty, seq![f_fn]);
                lemma_fields_tail_singleton(f_fn);
                assert(final(out)@ =~= old(out)@ + render(tool_choice_jval(*t)));
            }
        },
    }
}

/// Appends the object text of one tool descriptor.
fn emit_tool(out: &mut Vec<char>, t: &Tool)
    ensures
        final(out)@ == old(out)@ + render(tool_jval(*t)),
{
    let ghost f_ty = ("type"@, JVal::Str("function"@));
    let ghost f_desc = ("description"@, JVal::Str(t.function.description@));
    let ghost f_name = ("name"@, JVal::Str(t.function.name@));
    let ghost f_par = ("parameters"@, JVal::Raw(t.function.parameters@));
    let ghost inner = JVal::Obj(seq![f_desc, f_name, f_par]);
    let ghost f_fn = ("function"@, inner);
    out.push('{');
    emit_str_field(out, "type", "function");
    out.push(',');
    emit_quoted(out, "function");
    out.push(':');
    out.push('{');
    emit_str_field(out, "description", t.function.description.as_str());
    out.push(',');
    emit_str_field(out, "name", t.function.name.as_str());
    out.push(',');
    emit_quoted(out, "parameters");
    out.push(':');
    emit_raw(out, t.function.parameters.as_str());
    out.push('}');
    out.push('}');
    proof {
        assert(render_field(f_par) == quoted("parameters"@) + seq![':'] + t.function.parameters@);
        assert(seq![f_desc, f_name, f_par] =~= seq![f_desc] + (seq![f_name] + seq![f_par]));
        lemma_fields_cons(f_desc, seq![f_name] + seq![f_par]);
        lemma_fields_tail_concat(seq![f_name], seq![f_par]);
        lemma_fields_tail_singleton(f_name);
        lemma_fields_tail_singleton(f_par);
        assert(render(inner) == seq!['{'] + render_fields(seq![f_desc, f_name, f_par])
            + seq!['}']);
        assert(render_field(f_fn) == quoted("function"@) + seq![':'] + render(inner));
        assert(tool_jval(*t) == JVal::Obj(seq![f_ty, f_fn]));
        assert(seq![f_ty, f_fn] =~= seq![f_ty] + seq![f_fn]);
        lemma_fields_cons(f_ty, seq![f_fn]);
        lemma_fields_tail_singleton(f_fn);
        assert(final(out)@ =~= old(out)@ + render(tool_jval(*t)));
    }
}

/// Appends the array text of the conversation.
fn emit_messages(out: &mut Vec<char>, msgs: &Vec<ChatCompletionMessage>)
    ensures
        final(out)@ == old(out)@ + render(
            JVal::Arr(msgs@.map_values(|m: ChatCompletionMessage| msg_jval(m))),
        ),
{
    let ghost items = msgs@.map_values(|m: ChatCompletionMessage| msg_jval(m));
    out.push('[');
    if msgs.len() > 0 {
        emit_message(out, &msgs[0]);
        proof {
            assert(items[0] == msg_jval(msgs@[0]));
        }
        let mut i: usize = 1;
        while i < msgs.len()
            invariant
                1 <= i <= msgs.len(),
                items == msgs@.map_values(|m: ChatCompletionMessage| msg_jval(m)),
                out@ == old(out)@ + seq!['['] + render(items[0]) + render_items_tail(
                    items.subrange(1, i as int),
                ),
            decreases msgs.len() - i,
        {
            let ghost o_start = out@;
            out.push(',');
            emit_message(out, &msgs[i]);
            proof {
                let pre = items.subrange(1, i as int);
                let post = items.subrange(1, i + 1);
                assert(post =~= pre + seq![items[i as int]]);
                lemma_items_tail_concat(pre, seq![items[i as int]]);
                lemma_items_tail_singleton(items[i as int]);
                assert(items[i as int] == msg_jval(msgs@[i as int]));
                assert(out@ == (o_start + seq![',']) + render(msg_jval(msgs@[i as int])));
                assert(out@ =~= old(out)@ + seq!['['] + render(items[0]) + render_items_tail(
                    post,
                ));
            }
            i = i + 1;
        }
        proof {
            assert(items.subrange(1, msgs@.len() as int) =~= items.drop_first());
            assert(render_items(items) == render(items[0]) + render_items_tail(
                items.drop_first(),
            ));
        }
    } else {
        proof {
            assert(items.len() == 0);
            assert(render_items(items) == Seq::<char>::empty());
        }
    }
    out.push(']');
    proof {
        assert(final(out)@ =~= old(out)@ + render(
            JVal::Arr(msgs@.map_values(|m: ChatCompletionMessage| msg_jval(m))),
        ));
    }
}

/// Appends the array text of the tool list.
fn emit_tools(out: &mut Vec<char>, tools: &Vec<Tool>)
    ensures
        final(out)@ == old(out)@ + render(JVal::Arr(tools@.map_values(|t: Tool| tool_jval(t)))),
{
    let ghost items = tools@.map_values(|t: Tool| tool_jval(t));
    out.push('[');
    if tools.len() > 0 {
        emit_tool(out, &tools[0]);
        proof {
            assert(items[0] == tool_jval(tools@[0]));
        }
        let mut i: usize = 1;
        while i < tools.len()
            invariant
                1 <= i <= tools.len(),
                items == tools@.map_values(|t: Tool| tool_jval(t)),
                out@ == old(out)@ + seq!['['] + render(items[0]) + render_items_tail(
                    items.subrange(1, i as int),
                ),
            decreases tools.len() - i,
        {
            let ghost o_start = out@;
            out.push(',');
            emit_tool(out, &tools[i]);
            proof {
                let pre = items.subrange(1, i as int);
                let post = items.subrange(1, i + 1);
                assert(post =~= pre + seq![items[i as int]]);
                lemma_items_tail_concat(pre, seq![items[i as int]]);
                lemma_items_tail_singleton(items[i as int]);
                assert(items[i as int] == tool_jval(tools@[i as int]));
                assert(out@ == (o_start + seq![',']) + render(tool_jval(tools@[i as int])));
                assert(out@ =~= old(out)@ + seq!['['] + render(items[0]) + render_items_tail(
                    post,
                ));
            }
            i = i + 1;
        }
        proof {
            assert(items.subrange(1, tools@.len() as int) =~= items.drop_first());
            assert(render_items(items) == render(items[0]) + render_items_tail(
                items.drop_first(),
            ));
        }
    } else {
        proof {
            assert(items.len() == 0);
            assert(render_items(items) == Seq::<char>::empty());
        }
    }
    out.push(']');
    proof {
        assert(final(out)@ =~= old(out)@ + render(
            JVal::Arr(tools@.map_values(|t: Tool| tool_jval(t))),
        ));
    }
}

/// Appends the text of a boolean value.
fn emit_bool(out: &mut Vec<char>, b: bool)
    ensures
        final(out)@ == old(out)@ + render(JVal::Bool(b)),
{
    if b {
        out.push('t');
        out.push('r');
        out.push('u');
        out.push('e');
        proof {
            assert(old(out)@ + seq!['t'] + seq!['r'] + seq!['u'] + seq!['e'] =~= old(out)@
                + render(JVal::Bool(b)));
        }
    } else {
        out.push('f');
        out.push('a');
        out.push('l');
        out.push('s');
        out.push('e');
        proof {
            assert(old(out)@ + seq!['f'] + seq!['a'] + seq!['l'] + seq!['s'] + seq!['e']
                =~= old(out)@ + render(JVal::Bool(b)));
        }
    }
}

/// Appends the response-format wrapper object.
fn emit_format(out: &mut Vec<char>, f: &ChatResponseFormatObject)
    ensures
        final(out)@ == old(out)@ + render(format_jval(*f)),
{
    let wire = match f.kind {
        ChatResponseFormat::Text => "text",
        ChatResponseFormat::Json => "json",
    };
    out.push('{');
    emit_str_field(out, "type", wire);
    out.push('}');
    proof {
        let tf = ("type"@, JVal::Str(format_wire(f.kind)));
        assert(seq![tf][0] == tf);
        assert(seq![tf].drop_first() =~= Seq::<(Seq<char>, JVal)>::empty());
        assert(render_fields(seq![tf]) == render_field(tf) + render_fields_tail(
            Seq::<(Seq<char>, JVal)>::empty(),
        ));
        assert(final(out)@ =~= old(out)@ + render(format_jval(*f)));
    }
}

impl ToolChoice {
    /// The JSON text of this tool choice: `"auto"` and `"none"` as bare
    /// strings, a forced function as a tagged object naming it.
    pub fn to_json(&self) -> (r: String)
        ensures
            r@ == render(tool_choice_jval(*self)),
    {
        let mut out: Vec<char> = Vec::new();
        emit_tool_choice(&mut out, self);
        proof {
            assert(out@ =~= render(tool_choice_jval(*self)));
        }
        chars_to_string(&out)
    }
}

/// Appends the comma-prefixed member for an optional unsigned parameter,
/// and nothing when it is unset.
fn emit_opt_uint(out: &mut Vec<char>, key: &str, o: &Option<usize>)
    ensures
        final(out)@ == old(out)@ + render_fields_tail(uint_field(key@, *o)),
{
    match o {
        Some(v) => {
            out.push(',');
            emit_quoted(out, key);
            out.push(':');
            emit_u64(out, (*v) as u64);
            proof {
                let f = (key@, JVal::UInt((*v) as u64));
                assert(uint_field(key@, *o) =~= seq![f]);
                lemma_fields_tail_singleton(f);
                assert(final(out)@ =~= old(out)@ + render_fields_tail(uint_field(key@, *o)));
            }
        },
        None => {
            proof {
                assert(old(out)@ + render_fields_tail(uint_field(key@, *o)) =~= old(out)@);
            }
        },
    }
}

/// Appends the comma-prefixed member for an optional string parameter, and
/// nothing when it is unset.
fn emit_opt_str(out: &mut Vec<char>, key: &str, o: &Option<String>)
    ensures
        final(out)@ == old(out)@ + render_fields_tail(str_field(key@, *o)),
{
    match o {
        Some(s) => {
            out.push(',');
            emit_str_field(out, key, s.as_str());
            proof {
                let f = (key@, JVal::Str(s@));
                assert(str_field(key@, *o) =~= seq![f]);
                lemma_fields_tail_singleton(f);
                assert(final(out)@ =~= old(out)@ + render_fields_tail(str_field(key@, *o)));
            }
        },
        None => {
            proof {
                assert(old(out)@ + render_fields_tail(str_field(key@, *o)) =~= old(out)@);
            }
        },
    }
}

/// Appends the comma-prefixed member for an optional boolean parameter, and
/// nothing when it is unset.
fn emit_opt_bool(out: &mut Vec<char>, key: &str, o: &Option<bool>)
    ensures
        final(out)@ == old(out)@ + render_fields_tail(bool_field(key@, *o)),
{
    match o {
        Some(b) => {
            out.push(',');
            emit_quoted(out, key);
            out.push(':');
            emit_bool(out, *b);
            proof {
                let f = (key@, JVal::Bool(*b));
                assert(bool_field(key@, *o) =~= seq![f]);
                lemma_fields_tail_singleton(f);
                assert(final(out)@ =~= old(out)@ + render_fields_tail(bool_field(key@, *o)));
            }
        },
        None => {
            proof {
                assert(old(out)@ + render_fields_tail(bool_field(key@, *o)) =~= old(out)@);
            }
        },
    }
}

/// Appends the comma-prefixed `response_format` member, and nothing when it
/// is unset.
fn emit_opt_format(out: &mut Vec<char>, o: &Option<ChatResponseFormatObject>)
    ensures
        final(out)@ == old(out)@ + render_fields_tail(format_field(*o)),
{
    match o {
        Some(f) => {
            out.push(',');
            emit_quoted(out, "response_format");
            out.push(':');
            emit_format(out, f);
            proof {
                let ff = ("response_format"@, format_jval(*f));
                assert(format_field(*o) =~= seq![ff]);
                lemma_fields_tail_singleton(ff);
                assert(final(out)@ =~= old(out)@ + render_fields_tail(format_field(*o)));
            }
        },
        None => {
            proof {
                assert(old(out)@ + render_fields_tail(format_field(*o)) =~= old(out)@);
            }
        },
    }
}

/// Appends the comma-prefixed `tool_choice` member, and nothing when it is
/// unset.
fn emit_opt_choice(out: &mut Vec<char>, o: &Option<ToolChoice>)
    ensures
        final(out)@ == old(out)@ + render_fields_tail(choice_field(*o)),
{
    match o {
        Some(t) => {
            out.push(',');
            emit_quoted(out, "tool_choice");
            out.push(':');
            emit_tool_choice(out, t);
            proof {
                let f = ("tool_choice"@, tool_choice_jval(*t));
                assert(choice_field(*o) =~= seq![f]);
                lemma_fields_tail_singleton(f);
                assert(final(out)@ =~= old(out)@ + render_fields_tail(choice_field(*o)));
            }
        },
        None => {
            proof {
                assert(old(out)@ + render_fields_tail(choice_field(*o)) =~= old(out)@);
            }
        },
    }
}

/// Appends the comma-prefixed `tools` member, and nothing when the tool
/// list is empty.
fn emit_opt_tools(out: &mut Vec<char>, tools: &Vec<Tool>)
    ensures
        final(out)@ == old(out)@ + render_fields_tail(tools_field(tools@)),
{
    if tools.len() > 0 {
        out.push(',');
        emit_quoted(out, "tools");
        out.push(':');
        emit_tools(out, tools);
        proof {
            let tv = JVal::Arr(tools@.map_values(|t: Tool| tool_jval(t)));
            let f = ("tools"@, tv);
            assert(tools_field(tools@) =~= seq![f]);
            lemma_fields_tail_singleton(f);
            assert(render_field(f) == quoted("tools"@) + seq![':'] + render(tv));
            assert(final(out)@ =~= old(out)@ + render_fields_tail(tools_field(tools@)));
        }
    } else {
        proof {
            assert(tools_field(tools@).len() == 0);
            assert(old(out)@ + render_fields_tail(tools_field(tools@)) =~= old(out)@);
        }
    }
}

/// How the rendered request text decomposes into its member segments.
#[verifier::rlimit(100)]
proof fn lemma_request_render(r: ChatCompletionRequest)
    ensures
        ({
            let mf = (
                "messages"@,
                JVal::Arr(r.messages@.map_values(|m: ChatCompletionMessage| msg_jval(m))),
            );
            let modf = ("model"@, JVal::Str(model_wire(r.model)));
            render(request_jval(r)) == seq!['{'] + render_field(mf) + (seq![','] + render_field(
                modf,
            )) + render_fields_tail(uint_field("max_tokens"@, r.max_tokens)) + render_fields_tail(
                uint_field("n"@, r.n),
            ) + render_fields_tail(format_field(r.response_format)) + render_fields_tail(
                uint_field("seed"@, r.seed),
            ) + render_fields_tail(str_field("stop"@, r.stop)) + render_fields_tail(
                bool_field("stream"@, r.stream),
            ) + render_fields_tail(tools_field(r.tools@)) + render_fields_tail(
                choice_field(r.tool_choice),
            ) + render_fields_tail(str_field("user"@, r.user)) + seq!['}']
        }),
{
    let mf = (
        "messages"@,
        JVal::Arr(r.messages@.map_values(|m: ChatCompletionMessage| msg_jval(m))),
    );
    let modf = ("model"@, JVal::Str(model_wire(r.model)));
    let u1 = uint_field("max_tokens"@, r.max_tokens);
    let u2 = uint_field("n"@, r.n);
    let ff = format_field(r.response_format);
    let u3 = uint_field("seed"@, r.seed);
    let s1 = str_field("stop"@, r.stop);
    let b1 = bool_field("stream"@, r.stream);
    let t1 = tools_field(r.tools@);
    let c1 = choice_field(r.tool_choice);
    let s2 = str_field("user"@, r.user);
    let rest = seq![modf] + u1 + u2 + ff + u3 + s1 + b1 + t1 + c1 + s2;
    lemma_request_fields_split(r);
    lemma_fields_cons(mf, rest);
    lemma_request_tail(r);
    lemma_fields_tail_singleton(modf);
    let x1 = render_fields_tail(seq![modf]);
    let x2 = render_fields_tail(u1);
    let x3 = render_fields_tail(u2);
    let x4 = render_fields_tail(ff);
    let x5 = render_fields_tail(u3);
    let x6 = render_fields_tail(s1);
    let x7 = render_fields_tail(b1);
    let x8 = render_fields_tail(t1);
    let x9 = render_fields_tail(c1);
    let x10 = render_fields_tail(s2);
    let a0 = seq!['{'] + render_field(mf);
    lemma_concat_associative(seq!['{'], render_field(mf), render_fields_tail(rest));
    lemma_concat_associative(a0, x1 + x2 + x3 + x4 + x5 + x6 + x7 + x8 + x9, x10);
    lemma_concat_associative(a0, x1 + x2 + x3 + x4 + x5 + x6 + x7 + x8, x9);
    lemma_concat_associative(a0, x1 + x2 + x3 + x4 + x5 + x6 + x7, x8);
    lemma_concat_associative(a0, x1 + x2 + x3 + x4 + x5 + x6, x7);
    lemma_concat_associative(a0, x1 + x2 + x3 + x4 + x5, x6);
    lemma_concat_associative(a0, x1 + x2 + x3 + x4, x5);
    lemma_concat_associative(a0, x1 + x2 + x3, x4);
    lemma_concat_associative(a0, x1 + x2, x3);
    lemma_concat_associative(a0, x1, x2);
    assert(render(request_jval(r)) == a0 + x1 + x2 + x3 + x4 + x5 + x6 + x7 + x8 + x9 + x10
        + seq!['}']);
}

/// The member list of a request is its conversation member followed by the
/// run of the remaining members.
#[verifier::rlimit(100)]
proof fn lemma_request_fields_split(r: ChatCompletionRequest)
    ensures
        ({
            let mf = (
                "messages"@,
                JVal::Arr(r.messages@.map_values(|m: ChatCompletionMessage| msg_jval(m))),
            );
            let modf = ("model"@, JVal::Str(model_wire(r.model)));
            request_fields(r) == seq![mf] + (seq![modf] + uint_field("max_tokens"@, r.max_tokens)
                + uint_field("n"@, r.n) + format_field(r.response_format) + uint_field(
                "seed"@,
                r.seed,
            ) + str_field("stop"@, r.stop) + bool_field("stream"@, r.stream) + tools_field(
                r.tools@,
            ) + choice_field(r.tool_choice) + str_field("user"@, r.user))
        }),
{
    let mf = (
        "messages"@,
        JVal::Arr(r.messages@.map_values(|m: ChatCompletionMessage| msg_jval(m))),
    );
    let modf = ("model"@, JVal::Str(model_wire(r.model)));
    let u1 = uint_field("max_tokens"@, r.max_tokens);
    let u2 = uint_field("n"@, r.n);
    let ff = format_field(r.response_format);
    let u3 = uint_field("seed"@, r.seed);
    let s1 = str_field("stop"@, r.stop);
    let b1 = bool_field("stream"@, r.stream);
    let t1 = tools_field(r.tools@);
    let c1 = choice_field(r.tool_choice);
    let s2 = str_field("user"@, r.user);
    let m0 = seq![mf];
    let m1 = seq![modf];
    assert(seq![mf, modf] =~= m0 + m1);
    lemma_concat_associative(m0, m1, u1);
    lemma_concat_associative(m0, m1 + u1, u2);
    lemma_concat_associative(m0, m1 + u1 + u2, ff);
    lemma_concat_associative(m0, m1 + u1 + u2 + ff, u3);
    lemma_concat_associative(m0, m1 + u1 + u2 + ff + u3, s1);
    lemma_concat_associative(m0, m1 + u1 + u2 + ff + u3 + s1, b1);
    lemma_concat_associative(m0, m1 + u1 + u2 + ff + u3 + s1 + b1, t1);
    lemma_concat_associative(m0, m1 + u1 + u2 + ff + u3 + s1 + b1 + t1, c1);
    lemma_concat_associative(m0, m1 + u1 + u2 + ff + u3 + s1 + b1 + t1 + c1, s2);
}

/// How the comma-prefixed member run after the conversation decomposes into
/// one segment per parameter.
#[verifier::rlimit(100)]
proof fn lemma_request_tail(r: ChatCompletionRequest)
    ensures
        ({
            let modf = ("model"@, JVal::Str(model_wire(r.model)));
            let u1 = uint_field("max_tokens"@, r.max_tokens);
            let u2 = uint_field("n"@, r.n);
            let ff = format_field(r.response_format);
            let u3 = uint_field("seed"@, r.seed);
            let s1 = str_field("stop"@, r.stop);
            let b1 = bool_field("stream"@, r.stream);
            let t1 = tools_field(r.tools@);
            let c1 = choice_field(r.tool_choice);
            let s2 = str_field("user"@, r.user);
            render_fields_tail(seq![modf] + u1 + u2 + ff + u3 + s1 + b1 + t1 + c1 + s2)
                == render_fields_tail(seq![modf]) + render_fields_tail(u1) + render_fields_tail(u2)
                + render_fields_tail(ff) + render_fields_tail(u3) + render_fields_tail(s1)
                + render_fields_tail(b1) + render_fields_tail(t1) + render_fields_tail(c1)
                + render_fields_tail(s2)
        }),
{
    let modf = ("model"@, JVal::Str(model_wire(r.model)));
    let u1 = uint_field("max_tokens"@, r.max_tokens);
    let u2 = uint_field("n"@, r.n);
    let ff = format_field(r.response_format);
    let u3 = uint_field("seed"@, r.seed);
    let s1 = str_field("stop"@, r.stop);
    let b1 = bool_field("stream"@, r.stream);
    let t1 = tools_field(r.tools@);
    let c1 = choice_field(r.tool_choice);
    let s2 = str_field("user"@, r.user);
    lemma_fields_tail_concat(seq![modf], u1);
    lemma_fields_tail_concat(seq![modf] + u1, u2);
    lemma_fields_tail_concat(seq![modf] + u1 + u2, ff);
    lemma_fields_tail_concat(seq![modf] + u1 + u2 + ff, u3);
    lemma_fields_tail_concat(seq![modf] + u1 + u2 + ff + u3, s1);
    lemma_fields_tail_concat(seq![modf] + u1 + u2 + ff + u3 + s1, b1);
    lemma_fields_tail_concat(seq![modf] + u1 + u2 + ff + u3 + s1 + b1, t1);
    lemma_fields_tail_concat(seq![modf] + u1 + u2 + ff + u3 + s1 + b1 + t1, c1);
    lemma_fields_tail_concat(seq![modf] + u1 + u2 + ff + u3 + s1 + b1 + t1 + c1, s2);
}

/// Appends the object text of a whole request.
#[verifier::rlimit(100)]
fn emit_request(out: &mut Vec<char>, r: &ChatCompletionRequest)
    ensures
        final(out)@ == old(out)@ + render(request_jval(*r)),
{
    let ghost mv = JVal::Arr(r.messages@.map_values(|m: ChatCompletionMessage| msg_jval(m)));
    let ghost mf = ("messages"@, mv);
    let ghost modf = ("model"@, JVal::Str(model_wire(r.model)));
    out.push('{');
    emit_quoted(out, "messages");
    out.push(':');
    emit_messages(out, &r.messages);
    out.push(',');
    emit_quoted(out, "model");
    out.push(':');
    emit_quoted(out, r.model.wire_name());
    proof {
        assert(render_field(mf) == quoted("messages"@) + seq![':'] + render(mv));
        assert(render_field(modf) == quoted("model"@) + seq![':'] + quoted(model_wire(r.model)));
    }
    emit_opt_uint(out, "max_tokens", &r.max_tokens);
    emit_opt_uint(out, "n", &r.n);
    emit_opt_format(out, &r.response_format);
    emit_opt_uint(out, "seed", &r.seed);
    emit_opt_str(out, "stop", &r.stop);
    emit_opt_bool(out, "stream", &r.stream);
    emit_opt_tools(out, &r.tools);
    emit_opt_choice(out, &r.tool_choice);
    emit_opt_str(out, "user", &r.user);
    out.push('}');
    proof {
        lemma_request_render(*r);
        assert(final(out)@ =~= old(out)@ + render(request_jval(*r)));
    }
}

impl ChatCompletionRequest {
    /// The JSON body put on the wire for this request: the conversation and
    /// the model, then exactly the optional parameters that are set, with
    /// nothing serialized for the unset ones.
    pub fn to_json_body(&self) -> (r: String)
        ensures
            r@ == render(request_jval(*self)),
    {
        let mut out: Vec<char> = Vec::new();
        emit_request(&mut out, self);
        proof {
            assert(out@ =~= render(request_jval(*self)));
        }
        chars_to_string(&out)
    }
}

impl ChatCompletionMessage {
    /// The JSON text of this message: the role as a sibling field of the
    /// body, the name present exactly when it is set and non-empty.
    pub fn to_json(&self) -> (r: String)
        ensures
            r@ == render(msg_jval(*self)),
    {
        let mut out: Vec<char> = Vec::new();
        emit_message(&mut out, self);
        proof {
            assert(out@ =~= render(msg_jval(*self)));
        }
        chars_to_string(&out)
    }
}

} // verus!
