//! The JSON schema a worker's reply must satisfy: the fixed nine-field
//! result protocol, with the agent and, when known, the task pinned.

use crate::agent::{ProjectAgentTaskResult, ProjectAgentTaskStatus};
use crate::command_tool::{all_strings, lookup, member, JsonValue};
use crate::text::{owned, push_str, same_text};
use crate::types::{valid_agent_id, ProjectAgentId};
use vstd::prelude::*;

verus! {

broadcast use vstd::string::group_string_axioms;

/// Whether `v` is the JSON string `t`.
pub open spec fn json_text(v: JsonValue, t: Seq<char>) -> bool {
    v matches JsonValue::String(s) && s@ == t
}

/// Whether `items` are the JSON strings `ts`, in order.
pub open spec fn json_texts(items: Seq<JsonValue>, ts: Seq<Seq<char>>) -> bool {
    &&& items.len() == ts.len()
    &&& forall|i: int| 0 <= i < items.len() ==> json_text(#[trigger] items[i], ts[i])
}

/// Whether `v` is a JSON array of the strings `ts`.
pub open spec fn json_text_array(v: JsonValue, ts: Seq<Seq<char>>) -> bool {
    v matches JsonValue::Array(items) && json_texts(items@, ts)
}

/// Whether `v` is a JSON object whose members are named `keys`, in order.
pub open spec fn json_object(v: JsonValue, keys: Seq<Seq<char>>) -> bool {
    &&& v matches JsonValue::Object(members)
    &&& members@.len() == keys.len()
    &&& forall|i: int| 0 <= i < keys.len() ==> (#[trigger] members@[i]).0@ == keys[i]
}

/// The value of the `i`-th member of an object.
pub open spec fn field(v: JsonValue, i: int) -> JsonValue {
    match v {
        JsonValue::Object(members) => members@[i].1,
        _ => JsonValue::Null,
    }
}

/// `{"type": t}`.
pub open spec fn typed(v: JsonValue, t: Seq<char>) -> bool {
    json_object(v, seq!["type"@]) && json_text(field(v, 0), t)
}

/// `{"type": "string", "enum": values}`.
pub open spec fn string_enum(v: JsonValue, values: Seq<Seq<char>>) -> bool {
    &&& json_object(v, seq!["type"@, "enum"@])
    &&& json_text(field(v, 0), "string"@)
    &&& json_text_array(field(v, 1), values)
}

/// `{"type": "array", "items": {"type": "string"}}`.
pub open spec fn string_array(v: JsonValue) -> bool {
    &&& json_object(v, seq!["type"@, "items"@])
    &&& json_text(field(v, 0), "array"@)
    &&& typed(field(v, 1), "string"@)
}

/// `{"type": ["string", "null"]}`.
pub open spec fn nullable_string(v: JsonValue) -> bool {
    json_object(v, seq!["type"@]) && json_text_array(field(v, 0), seq!["string"@, "null"@])
}

/// The nine fields of a worker's reply, in protocol order.
pub open spec fn result_fields() -> Seq<Seq<char>> {
    seq![
        "status"@,
        "agent_id"@,
        "task_id"@,
        "result"@,
        "artifacts"@,
        "evidence"@,
        "memory_candidates"@,
        "improvement_proposals"@,
        "error"@,
    ]
}

/// The four statuses a worker may report.
pub open spec fn result_statuses() -> Seq<Seq<char>> {
    seq!["completed"@, "rejected_out_of_scope"@, "blocked_missing_tool"@, "failed"@]
}

/// The schema of a reply of `agent_id`, for `task_id` when it is known: an
/// object of exactly the nine fields, all required and no others, with the
/// status among the four, the agent pinned, the task pinned when known, the
/// lists lists of strings and the error a string or null.
pub open spec fn is_result_schema(v: JsonValue, agent_id: Seq<char>, task_id: Option<Seq<char>>) -> bool {
    let p = field(v, 1);
    &&& json_object(v, seq!["type"@, "properties"@, "required"@, "additionalProperties"@])
    &&& json_text(field(v, 0), "object"@)
    &&& json_object(p, result_fields())
    &&& string_enum(field(p, 0), result_statuses())
    &&& string_enum(field(p, 1), seq![agent_id])
    &&& match task_id {
        Some(t) => string_enum(field(p, 2), seq![t]),
        None => typed(field(p, 2), "string"@),
    }
    &&& typed(field(p, 3), "string"@)
    &&& string_array(field(p, 4))
    &&& string_array(field(p, 5))
    &&& string_array(field(p, 6))
    &&& string_array(field(p, 7))
    &&& nullable_string(field(p, 8))
    &&& json_text_array(field(v, 2), result_fields())
    &&& field(v, 3) == JsonValue::Bool(false)
}

fn text(s: &str) -> (r: JsonValue)
    ensures
        json_text(r, s@),
{
    JsonValue::String(owned(s))
}

fn texts(values: &[&str]) -> (r: JsonValue)
    ensures
        r matches JsonValue::Array(items) && items@.len() == values@.len() && forall|i: int|
            0 <= i < values@.len() ==> json_text(#[trigger] items@[i], values@[i]@),
{
    let mut items: Vec<JsonValue> = Vec::new();
    for i in 0..values.len()
        invariant
            items@.len() == i,
            forall|j: int| 0 <= j < i ==> json_text(#[trigger] items@[j], values@[j]@),
    {
        items.push(text(values[i]));
    }
    JsonValue::Array(items)
}

fn typed_schema(t: &str) -> (r: JsonValue)
    ensures
        typed(r, t@),
{
    let mut members: Vec<(String, JsonValue)> = Vec::new();
    members.push((owned("type"), text(t)));
    proof {
        reveal_strlit("type");
    }
    JsonValue::Object(members)
}

fn string_enum_schema(values: &[&str]) -> (r: JsonValue)
    ensures
        json_object(r, seq!["type"@, "enum"@]),
        json_text(field(r, 0), "string"@),
        field(r, 1) matches JsonValue::Array(items) && items@.len() == values@.len() && forall|
            i: int,
        |
            0 <= i < values@.len() ==> json_text(#[trigger] items@[i], values@[i]@),
{
    let mut members: Vec<(String, JsonValue)> = Vec::new();
    members.push((owned("type"), text("string")));
    members.push((owned("enum"), texts(values)));
    proof {
        reveal_strlit("type");
        reveal_strlit("enum");
    }
    JsonValue::Object(members)
}

fn string_array_schema() -> (r: JsonValue)
    ensures
        string_array(r),
{
    let mut members: Vec<(String, JsonValue)> = Vec::new();
    members.push((owned("type"), text("array")));
    members.push((owned("items"), typed_schema("string")));
    proof {
        reveal_strlit("type");
        reveal_strlit("items");
    }
    JsonValue::Object(members)
}

/// The schema a reply of `agent_id` must satisfy; `task_id`, when given,
/// pins the task too.
pub fn project_agent_result_schema(agent_id: &ProjectAgentId, task_id: Option<&str>) -> (r:
    JsonValue)
    ensures
        is_result_schema(
            r,
            agent_id@,
            match task_id {
                Some(t) => Some(t@),
                None => None,
            },
        ),
{
    let fields: [&str; 9] = [
        "status",
        "agent_id",
        "task_id",
        "result",
        "artifacts",
        "evidence",
        "memory_candidates",
        "improvement_proposals",
        "error",
    ];
    let statuses: [&str; 4] = ["completed", "rejected_out_of_scope", "blocked_missing_tool", "failed"];
    let agent: [&str; 1] = [agent_id.as_str()];
    let task_schema = match task_id {
        Some(t) => {
            let pinned: [&str; 1] = [t];
            string_enum_schema(&pinned)
        },
        None => typed_schema("string"),
    };
    let mut nullable: Vec<(String, JsonValue)> = Vec::new();
    let null_types: [&str; 2] = ["string", "null"];
    nullable.push((owned("type"), texts(&null_types)));
    let mut properties: Vec<(String, JsonValue)> = Vec::new();
    properties.push((owned(fields[0]), string_enum_schema(&statuses)));
    properties.push((owned(fields[1]), string_enum_schema(&agent)));
    properties.push((owned(fields[2]), task_schema));
    properties.push((owned(fields[3]), typed_schema("string")));
    properties.push((owned(fields[4]), string_array_schema()));
    properties.push((owned(fields[5]), string_array_schema()));
    properties.push((owned(fields[6]), string_array_schema()));
    properties.push((owned(fields[7]), string_array_schema()));
    properties.push((owned(fields[8]), JsonValue::Object(nullable)));
    let mut members: Vec<(String, JsonValue)> = Vec::new();
    members.push((owned("type"), text("object")));
    members.push((owned("properties"), JsonValue::Object(properties)));
    members.push((owned("required"), texts(&fields)));
    members.push((owned("additionalProperties"), JsonValue::Bool(false)));
    proof {
        reveal_strlit("type");
        reveal_strlit("properties");
        reveal_strlit("required");
        reveal_strlit("additionalProperties");
        reveal_strlit("status");
        reveal_strlit("agent_id");
        reveal_strlit("task_id");
        reveal_strlit("result");
        reveal_strlit("artifacts");
        reveal_strlit("evidence");
        reveal_strlit("memory_candidates");
        reveal_strlit("improvement_proposals");
        reveal_strlit("error");
        reveal_strlit("completed");
        reveal_strlit("rejected_out_of_scope");
        reveal_strlit("blocked_missing_tool");
        reveal_strlit("failed");
        reveal_strlit("string");
        reveal_strlit("null");
        reveal_strlit("object");
    }
    JsonValue::Object(members)
}

/// The member `key` of a JSON object, as lookup gives it.
pub open spec fn member_of(v: JsonValue, key: Seq<char>) -> Option<JsonValue> {
    match v {
        JsonValue::Object(members) => member(members@, key),
        _ => None,
    }
}

/// The first of the nine fields, from position `i` on, that `v` lacks.
pub open spec fn first_missing_field(v: JsonValue, i: int) -> Option<Seq<char>>
    decreases 9 - i,
{
    if i < 0 || i >= 9 {
        None
    } else if member_of(v, result_fields()[i]) is None {
        Some(result_fields()[i])
    } else {
        first_missing_field(v, i + 1)
    }
}

/// The status a reply names.
pub open spec fn status_named(v: Option<JsonValue>) -> Option<ProjectAgentTaskStatus> {
    match v {
        Some(JsonValue::String(s)) => if s@ == "completed"@ {
            Some(ProjectAgentTaskStatus::Completed)
        } else if s@ == "rejected_out_of_scope"@ {
            Some(ProjectAgentTaskStatus::RejectedOutOfScope)
        } else if s@ == "blocked_missing_tool"@ {
            Some(ProjectAgentTaskStatus::BlockedMissingTool)
        } else if s@ == "failed"@ {
            Some(ProjectAgentTaskStatus::Failed)
        } else {
            None
        },
        _ => None,
    }
}

/// Each of the four status strings reads as a status of its own: a string
/// names a status exactly when it is one of the four, only `completed`
/// reads as completed, and two strings that name the same status are the
/// same string.
pub proof fn lemma_status_names_distinct(s: String, t: String)
    ensures
        status_named(Some(JsonValue::String(s))) is Some <==> result_statuses().contains(s@),
        status_named(Some(JsonValue::String(s))) == Some(ProjectAgentTaskStatus::Completed) <==> s@
            == "completed"@,
        status_named(Some(JsonValue::String(s))) is Some && status_named(Some(JsonValue::String(s)))
            == status_named(Some(JsonValue::String(t))) ==> s@ == t@,
{
    reveal_strlit("completed");
    reveal_strlit("rejected_out_of_scope");
    reveal_strlit("blocked_missing_tool");
    reveal_strlit("failed");
    let names = result_statuses();
    if names.contains(s@) {
        let k = choose|k: int| 0 <= k < names.len() && names[k] == s@;
        assert(k == 0 || k == 1 || k == 2 || k == 3);
    }
    if s@ == "completed"@ {
        assert(names[0] == s@);
    } else if s@ == "rejected_out_of_scope"@ {
        assert(names[1] == s@);
    } else if s@ == "blocked_missing_tool"@ {
        assert(names[2] == s@);
    } else if s@ == "failed"@ {
        assert(names[3] == s@);
    }
}

/// The text of a string member.
pub open spec fn text_of(v: Option<JsonValue>) -> Option<Seq<char>> {
    match v {
        Some(JsonValue::String(s)) => Some(s@),
        _ => None,
    }
}

/// The texts of an array member whose items are all strings.
pub open spec fn texts_of(v: Option<JsonValue>) -> Option<Seq<Seq<char>>> {
    match v {
        Some(JsonValue::Array(items)) => if all_strings(items@) {
            Some(
                items@.map_values(
                    |x: JsonValue|
                        match x {
                            JsonValue::String(s) => s@,
                            _ => Seq::empty(),
                        },
                ),
            )
        } else {
            None
        },
        _ => None,
    }
}

/// The optional text of a member that is a string or null.
pub open spec fn nullable_text_of(v: Option<JsonValue>) -> Option<Option<Seq<char>>> {
    match v {
        Some(JsonValue::String(s)) => Some(Some(s@)),
        Some(JsonValue::Null) => Some(None),
        _ => None,
    }
}

/// The first field, in protocol order, whose value has the wrong shape.
pub open spec fn first_bad_field(v: JsonValue) -> Option<Seq<char>> {
    if status_named(member_of(v, "status"@)) is None {
        Some("status"@)
    } else if !(text_of(member_of(v, "agent_id"@)) matches Some(a) && valid_agent_id(a)) {
        Some("agent_id"@)
    } else if text_of(member_of(v, "task_id"@)) is None {
        Some("task_id"@)
    } else if text_of(member_of(v, "result"@)) is None {
        Some("result"@)
    } else if texts_of(member_of(v, "artifacts"@)) is None {
        Some("artifacts"@)
    } else if texts_of(member_of(v, "evidence"@)) is None {
        Some("evidence"@)
    } else if texts_of(member_of(v, "memory_candidates"@)) is None {
        Some("memory_candidates"@)
    } else if texts_of(member_of(v, "improvement_proposals"@)) is None {
        Some("improvement_proposals"@)
    } else if nullable_text_of(member_of(v, "error"@)) is None {
        Some("error"@)
    } else {
        None
    }
}

pub open spec fn missing_field_text(name: Seq<char>) -> Seq<char> {
    "missing field `"@ + name + "`"@
}

pub open spec fn invalid_field_text(name: Seq<char>) -> Seq<char> {
    "invalid value for field `"@ + name + "`"@
}

/// The views of a list of strings.
pub open spec fn string_views(v: Seq<String>) -> Seq<Seq<char>> {
    v.map_values(|s: String| s@)
}

fn member_ref<'a>(members: &'a Vec<(String, JsonValue)>, key: &str) -> (r: Option<&'a JsonValue>)
    ensures
        match member(members@, key@) {
            Some(v) => r == Some(&v),
            None => r is None,
        },
{
    lookup(members, key)
}

fn decode_texts(v: Option<&JsonValue>) -> (r: Option<Vec<String>>)
    ensures
        match texts_of(
            match v {
                Some(x) => Some(*x),
                None => None,
            },
        ) {
            Some(t) => r matches Some(l) && string_views(l@) == t,
            None => r is None,
        },
{
    let items = match v {
        Some(JsonValue::Array(items)) => items,
        _ => return None,
    };
    proof {
        assert(v == Some(&JsonValue::Array(*items)));
    }
    let mut out: Vec<String> = Vec::new();
    for i in 0..items.len()
        invariant
            v == Some(&JsonValue::Array(*items)),
            out@.len() == i,
            forall|j: int| 0 <= j < i ==> #[trigger] items@[j] is String,
            forall|j: int|
                0 <= j < i ==> (#[trigger] out@[j])@ == match items@[j] {
                    JsonValue::String(s) => s@,
                    _ => Seq::empty(),
                },
    {
        match &items[i] {
            JsonValue::String(s) => out.push(s.clone()),
            _ => {
                proof {
                    assert(!(items@[i as int] is String));
                    assert(!all_strings(items@));
                }
                return None;
            },
        }
    }
    proof {
        assert(string_views(out@) =~= items@.map_values(
            |x: JsonValue|
                match x {
                    JsonValue::String(s) => s@,
                    _ => Seq::empty(),
                },
        ));
    }
    Some(out)
}

fn decode_text(v: Option<&JsonValue>) -> (r: Option<String>)
    ensures
        match text_of(
            match v {
                Some(x) => Some(*x),
                None => None,
            },
        ) {
            Some(t) => r matches Some(s) && s@ == t,
            None => r is None,
        },
{
    match v {
        Some(JsonValue::String(s)) => Some(s.clone()),
        _ => None,
    }
}

/// Reads a worker's reply as a task result: an object holding all nine
/// fields of the protocol (`error` too, though it may be null). What is
/// missing is named, the first in protocol order; otherwise the first field
/// of the wrong shape is named; otherwise every field is taken as it
/// stands.
pub fn task_result_from_json(v: &JsonValue) -> (r: Result<ProjectAgentTaskResult, String>)
    ensures
        !(*v is Object) ==> (r matches Err(e) && e@ == "invalid type: expected a task result object"@),
        *v is Object && first_missing_field(*v, 0) is Some ==> (r matches Err(e) && e@
            == missing_field_text(first_missing_field(*v, 0).unwrap())),
        *v is Object && first_missing_field(*v, 0) is None && first_bad_field(*v) is Some ==> (
        r matches Err(e) && e@ == invalid_field_text(first_bad_field(*v).unwrap())),
        r matches Ok(t) ==> {
            &&& *v is Object
            &&& first_missing_field(*v, 0) is None
            &&& first_bad_field(*v) is None
            &&& Some(t.status) == status_named(member_of(*v, "status"@))
            &&& Some(t.agent_id@) == text_of(member_of(*v, "agent_id"@))
            &&& Some(t.task_id@) == text_of(member_of(*v, "task_id"@))
            &&& Some(t.result@) == text_of(member_of(*v, "result"@))
            &&& Some(string_views(t.artifacts@)) == texts_of(member_of(*v, "artifacts"@))
            &&& Some(string_views(t.evidence@)) == texts_of(member_of(*v, "evidence"@))
            &&& Some(string_views(t.memory_candidates@)) == texts_of(
                member_of(*v, "memory_candidates"@),
            )
            &&& Some(string_views(t.improvement_proposals@)) == texts_of(
                member_of(*v, "improvement_proposals"@),
            )
            &&& Some(
                match t.error {
                    Some(e) => Some(e@),
                    None => None,
                },
            ) == nullable_text_of(member_of(*v, "error"@))
        },
        *v is Object && first_missing_field(*v, 0) is None && first_bad_field(*v) is None ==> r is Ok,
{
    let members = match v {
        JsonValue::Object(members) => members,
        _ => return Err(owned("invalid type: expected a task result object")),
    };
    let fields: [&str; 9] = [
        "status",
        "agent_id",
        "task_id",
        "result",
        "artifacts",
        "evidence",
        "memory_candidates",
        "improvement_proposals",
        "error",
    ];
    proof {
        reveal_strlit("status");
        reveal_strlit("agent_id");
        reveal_strlit("task_id");
        reveal_strlit("result");
        reveal_strlit("artifacts");
        reveal_strlit("evidence");
        reveal_strlit("memory_candidates");
        reveal_strlit("improvement_proposals");
        reveal_strlit("error");
        assert(fields@.map_values(|f: &str| f@) =~= result_fields());
    }
    for i in 0..9
        invariant
            fields@.map_values(|f: &str| f@) == result_fields(),
            *v == JsonValue::Object(*members),
            first_missing_field(*v, 0) == first_missing_field(*v, i as int),
    {
        assert(fields@[i as int]@ == result_fields()[i as int]);
        if member_ref(members, fields[i]).is_none() {
            let mut e = owned("missing field `");
            push_str(&mut e, fields[i]);
            push_str(&mut e, "`");
            return Err(e);
        }
    }
    let bad = |name: &str| -> (e: String)
        ensures
            e@ == invalid_field_text(name@),
        {
            let mut e = owned("invalid value for field `");
            push_str(&mut e, name);
            push_str(&mut e, "`");
            e
        };
    let status = match member_ref(members, "status") {
        Some(JsonValue::String(s)) => if same_text(s.as_str(), "completed") {
            ProjectAgentTaskStatus::Completed
        } else if same_text(s.as_str(), "rejected_out_of_scope") {
            ProjectAgentTaskStatus::RejectedOutOfScope
        } else if same_text(s.as_str(), "blocked_missing_tool") {
            ProjectAgentTaskStatus::BlockedMissingTool
        } else if same_text(s.as_str(), "failed") {
            ProjectAgentTaskStatus::Failed
        } else {
            return Err(bad("status"));
        },
        _ => return Err(bad("status")),
    };
    let agent_id = match member_ref(members, "agent_id") {
        Some(JsonValue::String(s)) => match ProjectAgentId::new(s.as_str()) {
            Ok(id) => id,
            Err(_) => return Err(bad("agent_id")),
        },
        _ => return Err(bad("agent_id")),
    };
    let task_id = match decode_text(member_ref(members, "task_id")) {
        Some(t) => t,
        None => return Err(bad("task_id")),
    };
    let result = match decode_text(member_ref(members, "result")) {
        Some(t) => t,
        None => return Err(bad("result")),
    };
    let artifacts = match decode_texts(member_ref(members, "artifacts")) {
        Some(t) => t,
        None => return Err(bad("artifacts")),
    };
    let evidence = match decode_texts(member_ref(members, "evidence")) {
        Some(t) => t,
        None => return Err(bad("evidence")),
    };
    let memory_candidates = match decode_texts(member_ref(members, "memory_candidates")) {
        Some(t) => t,
        None => return Err(bad("memory_candidates")),
    };
    let improvement_proposals = match decode_texts(member_ref(members, "improvement_proposals")) {
        Some(t) => t,
        None => return Err(bad("improvement_proposals")),
    };
    let error = match member_ref(members, "error") {
        Some(JsonValue::String(s)) => Some(s.clone()),
        Some(JsonValue::Null) => None,
        _ => return Err(bad("error")),
    };
    Ok(
        ProjectAgentTaskResult {
            status,
            agent_id,
            task_id,
            result,
            artifacts,
            evidence,
            memory_candidates,
            improvement_proposals,
            error,
        },
    )
}

} // verus!
