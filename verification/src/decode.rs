//! The message wire form read back. The encoding of a conversation message
//! is recoverable: reading the role tag and the fields out of the JSON model
//! of an encoded message yields the message back. This module states that
//! reading, and proves the round trip, together with the presence rule for
//! the participant name: the `name` member exists exactly when a non-empty
//! name is set.

use vstd::prelude::*;
use crate::chat::{ChatCompletionMessage, ToolCall};
use crate::encode::{call_jval, msg_jval};
use crate::json::JVal;

verus! {

/// What one conversation message holds, as mathematical values.
pub enum MsgV {
    System { content: Seq<char>, name: Option<Seq<char>> },
    User { content: Seq<char>, name: Option<Seq<char>> },
    Assistant { content: Option<Seq<char>>, name: Option<Seq<char>>, tool_calls: Seq<CallV> },
    Tool { content: Seq<char>, tool_call_id: Seq<char> },
}

/// What one tool call holds, as mathematical values.
pub struct CallV {
    pub id: Seq<char>,
    pub name: Seq<char>,
    pub arguments: Seq<char>,
}

/// The mathematical content of a tool call.
pub open spec fn call_view(c: ToolCall) -> CallV {
    CallV { id: c.id@, name: c.function.name@, arguments: c.function.arguments@ }
}

/// The mathematical content of an optional string.
pub open spec fn opt_view(o: Option<String>) -> Option<Seq<char>> {
    match o {
        Some(s) => Some(s@),
        None => None,
    }
}

/// The mathematical content of a conversation message.
pub open spec fn msg_view(m: ChatCompletionMessage) -> MsgV {
    match m {
        ChatCompletionMessage::System(sm) => MsgV::System {
            content: sm.content@,
            name: opt_view(sm.name),
        },
        ChatCompletionMessage::User(um) => MsgV::User {
            content: um.content@,
            name: opt_view(um.name),
        },
        ChatCompletionMessage::Assistant(am) => MsgV::Assistant {
            content: opt_view(am.content),
            name: opt_view(am.name),
            tool_calls: am.tool_calls@.map_values(|c: ToolCall| call_view(c)),
        },
        ChatCompletionMessage::Tool(tm) => MsgV::Tool {
            content: tm.content@,
            tool_call_id: tm.tool_call_id@,
        },
    }
}

/// A participant name is well formed when it is never the empty string: an
/// empty name is expressed as no name at all.
pub open spec fn name_wf(n: Option<Seq<char>>) -> bool {
    match n {
        Some(s) => s.len() > 0,
        None => true,
    }
}

/// A message is well formed when its optional participant name, if any, is
/// not the empty string.
pub open spec fn msg_view_wf(v: MsgV) -> bool {
    match v {
        MsgV::System { name, .. } => name_wf(name),
        MsgV::User { name, .. } => name_wf(name),
        MsgV::Assistant { name, .. } => name_wf(name),
        MsgV::Tool { .. } => true,
    }
}

/// The value of the first member with key `k`, if any.
pub open spec fn lookup(fs: Seq<(Seq<char>, JVal)>, k: Seq<char>) -> Option<JVal>
    decreases fs.len(),
{
    if fs.len() == 0 {
        None
    } else if fs[0].0 == k {
        Some(fs[0].1)
    } else {
        lookup(fs.drop_first(), k)
    }
}

/// Whether the JSON value is an object with a member named `k`.
pub open spec fn obj_has_key(v: JVal, k: Seq<char>) -> bool {
    v matches JVal::Obj(fs) && lookup(fs, k) is Some
}

/// Reads one tool call out of its JSON value.
pub open spec fn call_of_jval(v: JVal) -> Option<CallV> {
    match v {
        JVal::Obj(fs) => match (lookup(fs, "id"@), lookup(fs, "function"@)) {
            (Some(JVal::Str(id)), Some(JVal::Obj(ffs))) => match (
                lookup(ffs, "name"@),
                lookup(ffs, "arguments"@),
            ) {
                (Some(JVal::Str(n)), Some(JVal::Str(a))) => Some(
                    CallV { id, name: n, arguments: a },
                ),
                _ => None,
            },
            _ => None,
        },
        _ => None,
    }
}

/// Reads a run of tool calls out of their JSON values; fails when any one
/// of them is malformed.
pub open spec fn calls_of(items: Seq<JVal>) -> Option<Seq<CallV>>
    decreases items.len(),
{
    if items.len() == 0 {
        Some(Seq::empty())
    } else {
        match (call_of_jval(items[0]), calls_of(items.drop_first())) {
            (Some(c), Some(rest)) => Some(seq![c] + rest),
            _ => None,
        }
    }
}

/// Reads the optional participant name: absent is a valid outcome (`Some`
/// of `None`), a non-string value is malformed.
pub open spec fn name_of(fs: Seq<(Seq<char>, JVal)>) -> Option<Option<Seq<char>>> {
    match lookup(fs, "name"@) {
        None => Some(None),
        Some(JVal::Str(s)) => Some(Some(s)),
        Some(_) => None,
    }
}

/// Reads one conversation message out of its JSON value: the `role` member
/// selects the variant, and the variant's fields are read by key.
pub open spec fn msg_of_jval(v: JVal) -> Option<MsgV> {
    match v {
        JVal::Obj(fs) => match lookup(fs, "role"@) {
            Some(JVal::Str(role)) => if role == "system"@ {
                match (lookup(fs, "content"@), name_of(fs)) {
                    (Some(JVal::Str(c)), Some(n)) => Some(MsgV::System { content: c, name: n }),
                    _ => None,
                }
            } else if role == "user"@ {
                match (lookup(fs, "content"@), name_of(fs)) {
                    (Some(JVal::Str(c)), Some(n)) => Some(MsgV::User { content: c, name: n }),
                    _ => None,
                }
            } else if role == "assistant"@ {
                let content = match lookup(fs, "content"@) {
                    None => Some(None),
                    Some(JVal::Str(s)) => Some(Some(s)),
                    Some(_) => None,
                };
                let tcs = match lookup(fs, "tool_calls"@) {
                    None => Some(Seq::<CallV>::empty()),
                    Some(JVal::Arr(items)) => calls_of(items),
                    Some(_) => None,
                };
                match (content, name_of(fs), tcs) {
                    (Some(c), Some(n), Some(t)) => Some(
                        MsgV::Assistant { content: c, name: n, tool_calls: t },
                    ),
                    _ => None,
                }
            } else if role == "tool"@ {
                match (lookup(fs, "content"@), lookup(fs, "tool_call_id"@)) {
                    (Some(JVal::Str(c)), Some(JVal::Str(id))) => Some(
                        MsgV::Tool { content: c, tool_call_id: id },
                    ),
                    _ => None,
                }
            } else {
                None
            },
            _ => None,
        },
        _ => None,
    }
}

/// The keys and role tags of the message encoding are pairwise distinct.
proof fn lemma_keys_distinct()
    ensures
        "role"@ != "content"@,
        "role"@ != "name"@,
        "role"@ != "tool_calls"@,
        "role"@ != "tool_call_id"@,
        "content"@ != "name"@,
        "content"@ != "tool_calls"@,
        "content"@ != "tool_call_id"@,
        "name"@ != "tool_calls"@,
        "name"@ != "tool_call_id"@,
        "id"@ != "function"@,
        "type"@ != "id"@,
        "type"@ != "function"@,
        "name"@ != "arguments"@,
        "system"@ != "user"@,
        "system"@ != "assistant"@,
        "system"@ != "tool"@,
        "user"@ != "assistant"@,
        "user"@ != "tool"@,
        "assistant"@ != "tool"@,
{
    reveal_strlit("role");
    reveal_strlit("content");
    reveal_strlit("name");
    reveal_strlit("tool_calls");
    reveal_strlit("tool_call_id");
    reveal_strlit("id");
    reveal_strlit("type");
    reveal_strlit("function");
    reveal_strlit("arguments");
    reveal_strlit("system");
    reveal_strlit("user");
    reveal_strlit("assistant");
    reveal_strlit("tool");
    assert("role"@.len() == 4);
    assert("content"@.len() == 7);
    assert("name"@.len() == 4);
    assert("tool_calls"@.len() == 10);
    assert("tool_call_id"@.len() == 12);
    assert("id"@.len() == 2);
    assert("type"@.len() == 4);
    assert("function"@.len() == 8);
    assert("arguments"@.len() == 9);
    assert("system"@.len() == 6);
    assert("user"@.len() == 4);
    assert("assistant"@.len() == 9);
    assert("tool"@.len() == 4);
    assert("role"@[0] == 'r');
    assert("name"@[0] == 'n');
    assert("user"@[0] == 'u');
    assert("tool"@[0] == 't');
}

/// Reading back the encoding of one tool call yields the call.
proof fn lemma_call_round_trip(c: ToolCall)
    ensures
        call_of_jval(call_jval(c)) == Some(call_view(c)),
{
    lemma_keys_distinct();
    reveal_with_fuel(lookup, 6);
    let fs = seq![
        ("id"@, JVal::Str(c.id@)),
        ("type"@, JVal::Str("function"@)),
        (
            "function"@,
            JVal::Obj(
                seq![
                    ("name"@, JVal::Str(c.function.name@)),
                    ("arguments"@, JVal::Str(c.function.arguments@)),
                ],
            ),
        ),
    ];
    let ffs = seq![
        ("name"@, JVal::Str(c.function.name@)),
        ("arguments"@, JVal::Str(c.function.arguments@)),
    ];
    assert(lookup(fs, "id"@) == Some(JVal::Str(c.id@)));
    assert(lookup(fs, "function"@) == Some(JVal::Obj(ffs))) by {
        assert(fs.drop_first()[0] == fs[1]);
        assert(fs.drop_first().drop_first()[0] == fs[2]);
    }
    assert(lookup(ffs, "name"@) == Some(JVal::Str(c.function.name@)));
    assert(lookup(ffs, "arguments"@) == Some(JVal::Str(c.function.arguments@))) by {
        assert(ffs.drop_first()[0] == ffs[1]);
    }
}

/// Reading back the encodings of a run of tool calls yields the run.
proof fn lemma_calls_round_trip(tc: Seq<ToolCall>)
    ensures
        calls_of(tc.map_values(|c: ToolCall| call_jval(c))) == Some(
            tc.map_values(|c: ToolCall| call_view(c)),
        ),
    decreases tc.len(),
{
    reveal_with_fuel(calls_of, 2);
    let enc = tc.map_values(|c: ToolCall| call_jval(c));
    let dec = tc.map_values(|c: ToolCall| call_view(c));
    if tc.len() == 0 {
        assert(enc.len() == 0);
        assert(dec =~= Seq::<CallV>::empty());
    } else {
        lemma_call_round_trip(tc[0]);
        lemma_calls_round_trip(tc.drop_first());
        assert(enc[0] == call_jval(tc[0]));
        assert(enc.drop_first() =~= tc.drop_first().map_values(|c: ToolCall| call_jval(c)));
        assert(dec =~= seq![call_view(tc[0])] + tc.drop_first().map_values(
            |c: ToolCall| call_view(c),
        ));
    }
}

/// Law: the encoding of a conversation message is recoverable. For every
/// well-formed message (one whose optional participant name is not the
/// empty string), reading the encoded JSON value back yields exactly the
/// original role and field set.
pub proof fn lemma_message_round_trip(m: ChatCompletionMessage)
    requires
        msg_view_wf(msg_view(m)),
    ensures
        msg_of_jval(msg_jval(m)) == Some(msg_view(m)),
{
    lemma_keys_distinct();
    reveal_with_fuel(lookup, 6);
    match m {
        ChatCompletionMessage::System(sm) => {
            let base = seq![("role"@, JVal::Str("system"@)), ("content"@, JVal::Str(sm.content@))];
            let fs = base + crate::encode::name_field(sm.name);
            assert(fs[0] == base[0]);
            assert(fs[1] == base[1]);
            assert(lookup(fs, "role"@) == Some(JVal::Str("system"@)));
            assert(lookup(fs, "content"@) == Some(JVal::Str(sm.content@))) by {
                assert(fs.drop_first()[0] == fs[1]);
            }
            match sm.name {
                Some(n) => {
                    assert(fs.len() == 3);
                    assert(fs[2] == ("name"@, JVal::Str(n@)));
                    assert(lookup(fs, "name"@) == Some(JVal::Str(n@))) by {
                        assert(fs.drop_first()[0] == fs[1]);
                        assert(fs.drop_first().drop_first()[0] == fs[2]);
                    }
                },
                None => {
                    assert(fs.len() == 2);
                    assert(lookup(fs, "name"@) is None) by {
                        assert(fs.drop_first()[0] == fs[1]);
                        assert(fs.drop_first().drop_first().len() == 0);
                    }
                },
            }
        },
        ChatCompletionMessage::User(um) => {
            let base = seq![("role"@, JVal::Str("user"@)), ("content"@, JVal::Str(um.content@))];
            let fs = base + crate::encode::name_field(um.name);
            assert(fs[0] == base[0]);
            assert(fs[1] == base[1]);
            assert(lookup(fs, "role"@) == Some(JVal::Str("user"@)));
            assert(lookup(fs, "content"@) == Some(JVal::Str(um.content@))) by {
                assert(fs.drop_first()[0] == fs[1]);
            }
            match um.name {
                Some(n) => {
                    assert(fs.len() == 3);
                    assert(fs[2] == ("name"@, JVal::Str(n@)));
                    assert(lookup(fs, "name"@) == Some(JVal::Str(n@))) by {
                        assert(fs.drop_first()[0] == fs[1]);
                        assert(fs.drop_first().drop_first()[0] == fs[2]);
                    }
                },
                None => {
                    assert(fs.len() == 2);
                    assert(lookup(fs, "name"@) is None) by {
                        assert(fs.drop_first()[0] == fs[1]);
                        assert(fs.drop_first().drop_first().len() == 0);
                    }
                },
            }
        },
        ChatCompletionMessage::Assistant(am) => {
            lemma_assistant_round_trip(am);
        },
        ChatCompletionMessage::Tool(tm) => {
            let fs = seq![
                ("role"@, JVal::Str("tool"@)),
                ("content"@, JVal::Str(tm.content@)),
                ("tool_call_id"@, JVal::Str(tm.tool_call_id@)),
            ];
            assert(lookup(fs, "role"@) == Some(JVal::Str("tool"@)));
            assert(lookup(fs, "content"@) == Some(JVal::Str(tm.content@))) by {
                assert(fs.drop_first()[0] == fs[1]);
            }
            assert(lookup(fs, "tool_call_id"@) == Some(JVal::Str(tm.tool_call_id@))) by {
                assert(fs.drop_first()[0] == fs[1]);
                assert(fs.drop_first().drop_first()[0] == fs[2]);
            }
        },
    }
}

/// The assistant case of the round trip, with its optional content, name
/// and tool-call members.
#[verifier::rlimit(100)]
proof fn lemma_assistant_round_trip(am: crate::chat::AssistantMessage)
    requires
        name_wf(opt_view(am.name)),
    ensures
        msg_of_jval(msg_jval(ChatCompletionMessage::Assistant(am))) == Some(
            msg_view(ChatCompletionMessage::Assistant(am)),
        ),
{
    lemma_keys_distinct();
    reveal_with_fuel(lookup, 6);
    let cfs = crate::encode::content_opt_field(am.content);
    let nfs = crate::encode::name_field(am.name);
    let tfs = crate::encode::tool_calls_field(am.tool_calls@);
    let fs = seq![("role"@, JVal::Str("assistant"@))] + cfs + nfs + tfs;
    reveal_strlit("system");
    reveal_strlit("user");
    reveal_strlit("assistant");
    assert(fs[0] == ("role"@, JVal::Str("assistant"@)));
    assert(lookup(fs, "role"@) == Some(JVal::Str("assistant"@)));
    let t1 = fs.drop_first();
    assert(t1 =~= cfs + nfs + tfs);
    match am.content {
        Some(c) => {
            assert(t1[0] == ("content"@, JVal::Str(c@)));
            assert(lookup(fs, "content"@) == Some(JVal::Str(c@)));
            let t2 = t1.drop_first();
            assert(t2 =~= nfs + tfs);
            lemma_tail_fields(fs, t2, am);
        },
        None => {
            assert(t1 =~= nfs + tfs);
            lemma_tail_fields(fs, t1, am);
            assert(lookup(fs, "content"@) is None) by {
                lemma_lookup_absent_content(t1, am);
            }
        },
    }
    if am.tool_calls@.len() > 0 {
        lemma_calls_round_trip(am.tool_calls@);
    } else {
        assert(am.tool_calls@.map_values(|c: ToolCall| call_view(c)) =~= Seq::<CallV>::empty());
    }
}

/// In the member run after role (and content), the `name` and `tool_calls`
/// members are found exactly as the encoding placed them.
proof fn lemma_tail_fields(
    fs: Seq<(Seq<char>, JVal)>,
    t: Seq<(Seq<char>, JVal)>,
    am: crate::chat::AssistantMessage,
)
    requires
        name_wf(opt_view(am.name)),
        t == crate::encode::name_field(am.name) + crate::encode::tool_calls_field(am.tool_calls@),
        lookup(fs, "name"@) == lookup(t, "name"@),
        lookup(fs, "tool_calls"@) == lookup(t, "tool_calls"@),
    ensures
        lookup(fs, "name"@) == match opt_view(am.name) {
            Some(s) => Some(JVal::Str(s)),
            None => None::<JVal>,
        },
        lookup(fs, "tool_calls"@) == (if am.tool_calls@.len() == 0 {
            None::<JVal>
        } else {
            Some(
                JVal::Arr(am.tool_calls@.map_values(|c: ToolCall| crate::encode::call_jval(c))),
            )
        }),
{
    lemma_keys_distinct();
    reveal_with_fuel(lookup, 6);
    let nfs = crate::encode::name_field(am.name);
    let tfs = crate::encode::tool_calls_field(am.tool_calls@);
    match am.name {
        Some(n) => {
            assert(nfs =~= seq![("name"@, JVal::Str(n@))]);
            assert(t[0] == ("name"@, JVal::Str(n@)));
            assert(lookup(t, "name"@) == Some(JVal::Str(n@)));
            let t2 = t.drop_first();
            assert(t2 =~= tfs);
            if am.tool_calls@.len() > 0 {
                assert(t2[0] == (
                    "tool_calls"@,
                    JVal::Arr(am.tool_calls@.map_values(|c: ToolCall| crate::encode::call_jval(c))),
                ));
                assert(lookup(t, "tool_calls"@) == lookup(t2, "tool_calls"@));
            } else {
                assert(t2.len() == 0);
                assert(lookup(t, "tool_calls"@) is None);
            }
        },
        None => {
            assert(nfs.len() == 0);
            assert(t =~= tfs);
            if am.tool_calls@.len() > 0 {
                assert(t[0] == (
                    "tool_calls"@,
                    JVal::Arr(am.tool_calls@.map_values(|c: ToolCall| crate::encode::call_jval(c))),
                ));
                assert(t.drop_first().len() == 0);
                assert(lookup(t, "name"@) is None);
            } else {
                assert(t.len() == 0);
            }
        },
    }
}

/// When content is absent, no later member of the assistant encoding is
/// named `content`.
proof fn lemma_lookup_absent_content(
    t: Seq<(Seq<char>, JVal)>,
    am: crate::chat::AssistantMessage,
)
    requires
        t == crate::encode::name_field(am.name) + crate::encode::tool_calls_field(am.tool_calls@),
    ensures
        lookup(t, "content"@) is None,
{
    lemma_keys_distinct();
    reveal_with_fuel(lookup, 6);
    let nfs = crate::encode::name_field(am.name);
    let tfs = crate::encode::tool_calls_field(am.tool_calls@);
    if nfs.len() > 0 {
        assert(t[0] == nfs[0]);
        assert(t.drop_first() =~= tfs);
        if tfs.len() > 0 {
            assert(t.drop_first()[0] == tfs[0]);
            assert(t.drop_first().drop_first().len() == 0);
        }
    } else {
        assert(t =~= tfs);
        if tfs.len() > 0 {
            assert(t[0] == tfs[0]);
            assert(t.drop_first().len() == 0);
        }
    }
}

/// Law: the `name` member is present in an encoded message exactly when a
/// non-empty participant name is set; an empty name never appears as a
/// member. This holds for every message, well formed or not.
pub proof fn lemma_name_presence(m: ChatCompletionMessage)
    ensures
        ({
            let v = msg_jval(m);
            match m {
                ChatCompletionMessage::System(sm) => obj_has_key(v, "name"@) <==> (
                sm.name matches Some(s) && s@.len() > 0),
                ChatCompletionMessage::User(um) => obj_has_key(v, "name"@) <==> (
                um.name matches Some(s) && s@.len() > 0),
                ChatCompletionMessage::Assistant(am) => obj_has_key(v, "name"@) <==> (
                am.name matches Some(s) && s@.len() > 0),
                ChatCompletionMessage::Tool(_) => !obj_has_key(v, "name"@),
            }
        }),
{
    lemma_keys_distinct();
    reveal_with_fuel(lookup, 6);
    match m {
        ChatCompletionMessage::System(sm) => {
            let base = seq![("role"@, JVal::Str("system"@)), ("content"@, JVal::Str(sm.content@))];
            let nfs = crate::encode::name_field(sm.name);
            let fs = base + nfs;
            assert(fs[0] == base[0]);
            assert(fs[1] == base[1]);
            assert(fs.drop_first()[0] == fs[1]);
            if nfs.len() > 0 {
                assert(fs.len() == 3);
                assert(fs[2] == nfs[0]);
                assert(lookup(fs, "name"@) == Some(nfs[0].1)) by {
                    assert(fs.drop_first().drop_first()[0] == fs[2]);
                }
            } else {
                assert(fs.len() == 2);
                assert(lookup(fs, "name"@) is None) by {
                    assert(fs.drop_first().drop_first().len() == 0);
                }
            }
        },
        ChatCompletionMessage::User(um) => {
            let base = seq![("role"@, JVal::Str("user"@)), ("content"@, JVal::Str(um.content@))];
            let nfs = crate::encode::name_field(um.name);
            let fs = base + nfs;
            assert(fs[0] == base[0]);
            assert(fs[1] == base[1]);
            assert(fs.drop_first()[0] == fs[1]);
            if nfs.len() > 0 {
                assert(fs.len() == 3);
                assert(fs[2] == nfs[0]);
                assert(lookup(fs, "name"@) == Some(nfs[0].1)) by {
                    assert(fs.drop_first().drop_first()[0] == fs[2]);
                }
            } else {
                assert(fs.len() == 2);
                assert(lookup(fs, "name"@) is None) by {
                    assert(fs.drop_first().drop_first().len() == 0);
                }
            }
        },
        ChatCompletionMessage::Assistant(am) => {
            let cfs = crate::encode::content_opt_field(am.content);
            let nfs = crate::encode::name_field(am.name);
            let tfs = crate::encode::tool_calls_field(am.tool_calls@);
            let fs = seq![("role"@, JVal::Str("assistant"@))] + cfs + nfs + tfs;
            let t1 = fs.drop_first();
            assert(fs[0] == ("role"@, JVal::Str("assistant"@)));
            assert(t1 =~= cfs + nfs + tfs);
            lemma_name_lookup_tail(cfs + nfs + tfs, cfs, nfs, tfs);
            assert(lookup(fs, "name"@) == lookup(cfs + nfs + tfs, "name"@));
        },
        ChatCompletionMessage::Tool(tm) => {
            let fs = seq![
                ("role"@, JVal::Str("tool"@)),
                ("content"@, JVal::Str(tm.content@)),
                ("tool_call_id"@, JVal::Str(tm.tool_call_id@)),
            ];
            assert(lookup(fs, "name"@) is None) by {
                assert(fs.drop_first()[0] == fs[1]);
                assert(fs.drop_first().drop_first()[0] == fs[2]);
                assert(fs.drop_first().drop_first().drop_first().len() == 0);
            }
        },
    }
}

/// In the run of optional assistant members, a `name` member is found
/// exactly when the name field list is non-empty.
proof fn lemma_name_lookup_tail(
    t: Seq<(Seq<char>, JVal)>,
    cfs: Seq<(Seq<char>, JVal)>,
    nfs: Seq<(Seq<char>, JVal)>,
    tfs: Seq<(Seq<char>, JVal)>,
)
    requires
        t == cfs + nfs + tfs,
        cfs.len() == 0 || (cfs.len() == 1 && cfs[0].0 == "content"@),
        nfs.len() == 0 || (nfs.len() == 1 && nfs[0].0 == "name"@),
        tfs.len() == 0 || (tfs.len() == 1 && tfs[0].0 == "tool_calls"@),
    ensures
        nfs.len() == 1 ==> lookup(t, "name"@) == Some(nfs[0].1),
        nfs.len() == 0 ==> lookup(t, "name"@) is None,
{
    lemma_keys_distinct();
    reveal_with_fuel(lookup, 6);
    if cfs.len() == 1 {
        assert(t[0] == cfs[0]);
        assert(t.drop_first() =~= nfs + tfs);
        lemma_name_lookup_short(nfs + tfs, nfs, tfs);
    } else {
        assert(t =~= nfs + tfs);
        lemma_name_lookup_short(nfs + tfs, nfs, tfs);
    }
}

/// As above, once any `content` member is skipped.
proof fn lemma_name_lookup_short(
    t: Seq<(Seq<char>, JVal)>,
    nfs: Seq<(Seq<char>, JVal)>,
    tfs: Seq<(Seq<char>, JVal)>,
)
    requires
        t == nfs + tfs,
        nfs.len() == 0 || (nfs.len() == 1 && nfs[0].0 == "name"@),
        tfs.len() == 0 || (tfs.len() == 1 && tfs[0].0 == "tool_calls"@),
    ensures
        nfs.len() == 1 ==> lookup(t, "name"@) == Some(nfs[0].1),
        nfs.len() == 0 ==> lookup(t, "name"@) is None,
{
    lemma_keys_distinct();
    reveal_with_fuel(lookup, 6);
    if nfs.len() == 1 {
        assert(t[0] == nfs[0]);
    } else {
        assert(t =~= tfs);
        if tfs.len() == 1 {
            assert(t[0] == tfs[0]);
            assert(t.drop_first().len() == 0);
        }
    }
}

} // verus!
