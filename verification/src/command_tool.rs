//! Command-backed callable interfaces of project AGENTs: the manifest a
//! registration declares and the bounded parameter contract its input
//! schema must state.

use crate::agent::{ProjectAgentToolManifest, ProjectAgentToolTarget, tool_manifest_check};
use crate::text::{chars_end_with, chars_of, chars_start_with, has_prefix, has_suffix, owned, push_str, same_text};
use crate::types::{
    and_then, checked_of, field_failure, invalid_field, valid_relative_path, Checked,
    ProjectAgentId, ProjectAgentValidationError, RelativeProjectAgentPath, ValidationFailure,
    PROJECT_AGENT_SCHEMA_VERSION,
};
use vstd::prelude::*;

verus! {

broadcast use vstd::string::group_string_axioms;

/// A JSON document as the parameter contract reads it. Numbers keep their
/// text; an object keeps its members in order.
#[derive(Debug, PartialEq)]
pub enum JsonValue {
    Null,
    Bool(bool),
    Number(String),
    String(String),
    Array(Vec<JsonValue>),
    Object(Vec<(String, JsonValue)>),
}

/// The value of the last member named `key`, as a JSON object's lookup
/// gives it.
pub open spec fn member(members: Seq<(String, JsonValue)>, key: Seq<char>) -> Option<JsonValue>
    decreases members.len(),
{
    if members.len() == 0 {
        None
    } else if members.last().0@ == key {
        Some(members.last().1)
    } else {
        member(members.drop_last(), key)
    }
}

/// Whether every item of an array is a string.
pub open spec fn all_strings(items: Seq<JsonValue>) -> bool {
    forall|i: int| 0 <= i < items.len() ==> #[trigger] items[i] is String
}

pub open spec fn schema_failure(reason: Seq<char>) -> ValidationFailure {
    field_failure("input_schema"@, reason)
}

/// The rules of a bounded parameter contract, checked in order: an object,
/// whose `type` is the string `object`, whose `properties`, if present, is
/// an object, whose `required`, if present, is an array of strings, and
/// whose `additionalProperties` is `false`.
pub open spec fn parameter_contract_check(schema: JsonValue) -> Checked {
    match schema {
        JsonValue::Object(members) => {
            let members = members@;
            if !(match member(members, "type"@) {
                Some(JsonValue::String(t)) => t@ == "object"@,
                _ => false,
            }) {
                Err(schema_failure("type must be `object`"@))
            } else if (match member(members, "properties"@) {
                Some(JsonValue::Object(_)) => false,
                Some(_) => true,
                None => false,
            }) {
                Err(schema_failure("properties must be a JSON object"@))
            } else if (match member(members, "required"@) {
                Some(JsonValue::Array(items)) => !all_strings(items@),
                Some(_) => true,
                None => false,
            }) {
                Err(schema_failure("required must be an array of property names"@))
            } else if member(members, "additionalProperties"@) != Some(JsonValue::Bool(false)) {
                Err(
                    schema_failure(
                        "additionalProperties must be false for a bounded callable interface"@,
                    ),
                )
            } else {
                Ok(())
            }
        },
        _ => Err(schema_failure("must be a JSON object containing an object parameter schema"@)),
    }
}

/// The `input_schema` failure with the given reason.
pub fn invalid_input_schema(reason: &str) -> (e: ProjectAgentValidationError)
    ensures
        e@ == schema_failure(reason@),
{
    invalid_field("input_schema", reason)
}

pub(crate) fn lookup<'a>(members: &'a Vec<(String, JsonValue)>, key: &str) -> (r: Option<&'a JsonValue>)
    ensures
        match member(members@, key@) {
            Some(v) => r == Some(&v),
            None => r is None,
        },
{
    let mut i = members.len();
    proof {
        assert(members@.take(i as int) =~= members@);
    }
    while i > 0
        invariant
            i <= members.len(),
            member(members@, key@) == member(members@.take(i as int), key@),
        decreases i,
    {
        proof {
            assert(members@.take(i as int).drop_last() =~= members@.take(i - 1));
            assert(members@.take(i as int).last() == members@[i - 1]);
        }
        if same_text(members[i - 1].0.as_str(), key) {
            return Some(&members[i - 1].1);
        }
        i = i - 1;
    }
    None
}

fn is_object_type(v: Option<&JsonValue>) -> (r: bool)
    ensures
        r == (match v {
            Some(JsonValue::String(t)) => t@ == "object"@,
            _ => false,
        }),
{
    match v {
        Some(JsonValue::String(t)) => same_text(t.as_str(), "object"),
        _ => false,
    }
}

fn strings_only(items: &Vec<JsonValue>) -> (r: bool)
    ensures
        r == all_strings(items@),
{
    for i in 0..items.len()
        invariant
            forall|j: int| 0 <= j < i ==> #[trigger] items@[j] is String,
    {
        match &items[i] {
            JsonValue::String(_) => {},
            _ => {
                return false;
            },
        }
    }
    true
}

#[verifier::external_type_specification]
#[verifier::external_body]
pub struct ExSerdeJsonValue(serde_json::Value);

/// What `serde_json::from_str::<serde_json::Value>` makes of `text`: the
/// document it reads, or the text of the error it reports.
pub uninterp spec fn json_document(text: Seq<char>) -> Result<JsonValue, Seq<char>>;

/// A `serde_json::Value` as the library holds it, variant for variant; a
/// number keeps the text `serde_json` writes for it.
#[verifier::external_body]
fn json_of(value: &serde_json::Value) -> JsonValue {
    match value {
        serde_json::Value::Null => JsonValue::Null,
        serde_json::Value::Bool(b) => JsonValue::Bool(*b),
        serde_json::Value::Number(n) => JsonValue::Number(n.to_string()),
        serde_json::Value::String(t) => JsonValue::String(t.clone()),
        serde_json::Value::Array(items) => JsonValue::Array(items.iter().map(json_of).collect()),
        serde_json::Value::Object(members) => JsonValue::Object(
            members.iter().map(|(k, v)| (k.clone(), json_of(v))).collect(),
        ),
    }
}

/// `serde_json::from_str::<serde_json::Value>` on `text`, the value held as
/// a [`JsonValue`] and the error as its text. The contract names the result
/// (`json_document`) and says nothing of which documents parse.
#[verifier::external_body]
pub(crate) fn parse_json(text: &str) -> (r: Result<JsonValue, String>)
    ensures
        json_document(text@) == match r {
            Ok(v) => Ok::<JsonValue, Seq<char>>(v),
            Err(e) => Err::<JsonValue, Seq<char>>(e@),
        },
{
    serde_json::from_str::<serde_json::Value>(text).map(|v| json_of(&v)).map_err(|e| e.to_string())
}

/// Why an input schema file is refused.
#[derive(Debug)]
pub enum InputSchemaError {
    /// The text is not JSON; the parser's message.
    Parse(String),
    /// The document does not state a bounded parameter contract.
    Contract(ProjectAgentValidationError),
}

/// Checks the text of an input schema file: it must be a JSON document
/// that states a bounded parameter contract.
pub fn check_input_schema_text(text: &str) -> (r: Result<(), InputSchemaError>)
    ensures
        match json_document(text@) {
            Ok(v) => match parameter_contract_check(v) {
                Ok(()) => r is Ok,
                Err(f) => r matches Err(InputSchemaError::Contract(e)) && e@ == f,
            },
            Err(m) => r matches Err(InputSchemaError::Parse(e)) && e@ == m,
        },
{
    let schema = match parse_json(text) {
        Ok(v) => v,
        Err(e) => return Err(InputSchemaError::Parse(e)),
    };
    match validate_bounded_parameter_contract(&schema) {
        Ok(()) => Ok(()),
        Err(e) => Err(InputSchemaError::Contract(e)),
    }
}

/// Checks that an input schema states a bounded parameter contract.
pub fn validate_bounded_parameter_contract(schema: &JsonValue) -> (r: Result<
    (),
    ProjectAgentValidationError,
>)
    ensures
        checked_of(r) == parameter_contract_check(*schema),
{
    let members = match schema {
        JsonValue::Object(members) => members,
        _ => {
            return Err(
                invalid_input_schema("must be a JSON object containing an object parameter schema"),
            );
        },
    };
    if !is_object_type(lookup(members, "type")) {
        return Err(invalid_input_schema("type must be `object`"));
    }
    let properties_ok = match lookup(members, "properties") {
        Some(JsonValue::Object(_)) => true,
        Some(_) => false,
        None => true,
    };
    if !properties_ok {
        return Err(invalid_input_schema("properties must be a JSON object"));
    }
    let required_ok = match lookup(members, "required") {
        Some(JsonValue::Array(items)) => strings_only(items),
        Some(_) => false,
        None => true,
    };
    if !required_ok {
        return Err(invalid_input_schema("required must be an array of property names"));
    }
    let closed = match lookup(members, "additionalProperties") {
        Some(JsonValue::Bool(b)) => !*b,
        _ => false,
    };
    if !closed {
        return Err(
            invalid_input_schema(
                "additionalProperties must be false for a bounded callable interface",
            ),
        );
    }
    Ok(())
}

/// The rule a tool file path obeys: under `tools/`, and ending in the
/// required suffix when there is one.
pub open spec fn tool_path_check(field: Seq<char>, path: Seq<char>, suffix: Option<Seq<char>>) -> Checked {
    if !has_prefix(path, "tools/"@) {
        Err(field_failure(field, "`"@ + path + "` must be under tools/"@))
    } else {
        match suffix {
            Some(s) => if !has_suffix(path, s) {
                Err(field_failure(field, "`"@ + path + "` must end in "@ + s))
            } else {
                Ok(())
            },
            None => Ok(()),
        }
    }
}

/// Checks a tool file path against [`tool_path_check`].
pub fn validate_agent_tool_path(
    field: &'static str,
    path: &RelativeProjectAgentPath,
    required_suffix: Option<&str>,
) -> (r: Result<(), ProjectAgentValidationError>)
    ensures
        checked_of(r) == tool_path_check(
            field@,
            path@,
            match required_suffix {
                Some(s) => Some(s@),
                None => None,
            },
        ),
{
    let path_chars = chars_of(path.as_str());
    let prefix = chars_of("tools/");
    if !chars_start_with(path_chars.as_slice(), prefix.as_slice()) {
        let mut reason = owned("`");
        push_str(&mut reason, path.as_str());
        push_str(&mut reason, "` must be under tools/");
        return Err(invalid_field(field, reason.as_str()));
    }
    match required_suffix {
        Some(suffix) => {
            let suffix_chars = chars_of(suffix);
            if !chars_end_with(path_chars.as_slice(), suffix_chars.as_slice()) {
                let mut reason = owned("`");
                push_str(&mut reason, path.as_str());
                push_str(&mut reason, "` must end in ");
                push_str(&mut reason, suffix);
                return Err(invalid_field(field, reason.as_str()));
            }
        },
        None => {},
    }
    Ok(())
}

/// Declares one command-backed callable interface of a project AGENT.
#[derive(Clone, Debug, Eq, PartialEq)]
pub struct ProjectAgentCommandToolRegistration {
    pub agent_id: ProjectAgentId,
    pub tool_id: ProjectAgentId,
    pub description: String,
    pub program: RelativeProjectAgentPath,
    pub input_schema: RelativeProjectAgentPath,
    pub timeout_ms: Option<u64>,
}

/// Where a tool's manifest lives: `tools/<tool id>.x`.
pub open spec fn manifest_path_text(tool_id: Seq<char>) -> Seq<char> {
    "tools/"@ + tool_id + ".x"@
}

/// The manifest a registration declares.
pub open spec fn registration_manifest(r: ProjectAgentCommandToolRegistration) -> ProjectAgentToolManifest {
    ProjectAgentToolManifest {
        schema_version: PROJECT_AGENT_SCHEMA_VERSION,
        id: r.tool_id,
        description: r.description,
        target: ProjectAgentToolTarget::Command { program: r.program },
        timeout_ms: r.timeout_ms,
        input_schema: Some(r.input_schema),
    }
}

/// The rules a registration obeys, checked in order: the program under
/// `tools/`, the input schema under `tools/` ending in `.json`, then the
/// rules of the manifest it declares.
pub open spec fn registration_check(r: ProjectAgentCommandToolRegistration) -> Checked {
    and_then(
        tool_path_check("program"@, r.program@, None),
        and_then(
            tool_path_check("input_schema"@, r.input_schema@, Some(".json"@)),
            tool_manifest_check(registration_manifest(r)),
        ),
    )
}

impl ProjectAgentCommandToolRegistration {
    /// The manifest's path relative to the AGENT directory.
    pub fn manifest_path(&self) -> (r: Result<RelativeProjectAgentPath, ProjectAgentValidationError>)
        ensures
            r is Ok <==> valid_relative_path(manifest_path_text(self.tool_id@)),
            r matches Ok(p) ==> p@ == manifest_path_text(self.tool_id@),
            r matches Err(e) ==> e@ == ValidationFailure::InvalidRelativePath(
                manifest_path_text(self.tool_id@),
            ),
    {
        let mut path = owned("tools/");
        push_str(&mut path, self.tool_id.as_str());
        push_str(&mut path, ".x");
        RelativeProjectAgentPath::new(path.as_str())
    }

    /// The manifest this registration declares, once its paths and the
    /// manifest itself check out.
    pub fn manifest(&self) -> (r: Result<ProjectAgentToolManifest, ProjectAgentValidationError>)
        ensures
            match r {
                Ok(m) => registration_check(*self) is Ok && m.schema_version
                    == PROJECT_AGENT_SCHEMA_VERSION && m.id@ == self.tool_id@ && m.description@
                    == self.description@ && (m.target matches ProjectAgentToolTarget::Command {
                    program,
                } && program@ == self.program@) && m.timeout_ms == self.timeout_ms && (
                m.input_schema matches Some(s) && s@ == self.input_schema@),
                Err(e) => registration_check(*self) == Err::<(), ValidationFailure>(e@),
            },
    {
        validate_agent_tool_path("program", &self.program, None)?;
        validate_agent_tool_path("input_schema", &self.input_schema, Some(".json"))?;
        let manifest = ProjectAgentToolManifest {
            schema_version: PROJECT_AGENT_SCHEMA_VERSION,
            id: self.tool_id.duplicate(),
            description: self.description.clone(),
            target: ProjectAgentToolTarget::Command { program: self.program.duplicate() },
            timeout_ms: self.timeout_ms,
            input_schema: Some(self.input_schema.duplicate()),
        };
        let checked = manifest.validate();
        proof {
            assert(tool_manifest_check(manifest) == tool_manifest_check(
                registration_manifest(*self),
            ));
        }
        match checked {
            Ok(()) => Ok(manifest),
            Err(e) => Err(e),
        }
    }
}

} // verus!
