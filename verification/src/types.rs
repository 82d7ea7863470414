//! Identifiers, relative paths and the shared field validators of project
//! AGENT documents.

use crate::text::{ascii_alnum, is_ascii_alnum, blank, byte_len, chars_of, decimal, is_blank, owned, push_decimal, push_str, utf8_len};
use vstd::prelude::*;

verus! {

broadcast use vstd::string::group_string_axioms;

/// Schema version of every persisted project AGENT document.
pub const PROJECT_AGENT_SCHEMA_VERSION: u32 = 1;

pub const MAX_ID_BYTES: usize = 64;

pub const MAX_RELATIVE_PATH_BYTES: usize = 512;

pub const MAX_TASK_ID_BYTES: usize = 128;

pub const MAX_RESULT_TEXT_BYTES: usize = 65536;

pub const MAX_RESULT_LIST_ITEMS: usize = 128;

pub const MAX_RESULT_LIST_ITEM_BYTES: usize = 8192;

/// Validation failures of project AGENT documents.
#[derive(Clone, Debug, Eq, PartialEq)]
pub enum ProjectAgentValidationError {
    InvalidIdentifier(String),
    InvalidRelativePath(String),
    UnsupportedSchema { document: &'static str, found: u32, expected: u32 },
    InvalidField { field: &'static str, reason: String },
    RegistryPathMismatch { agent_id: ProjectAgentId, expected: String, actual: String },
}

/// The mathematical content of a validation failure.
pub enum ValidationFailure {
    InvalidIdentifier(Seq<char>),
    InvalidRelativePath(Seq<char>),
    UnsupportedSchema { document: Seq<char>, found: u32, expected: u32 },
    InvalidField { field: Seq<char>, reason: Seq<char> },
    RegistryPathMismatch { agent_id: Seq<char>, expected: Seq<char>, actual: Seq<char> },
}

impl View for ProjectAgentValidationError {
    type V = ValidationFailure;

    open spec fn view(&self) -> ValidationFailure {
        match self {
            ProjectAgentValidationError::InvalidIdentifier(v) => ValidationFailure::InvalidIdentifier(
                v@,
            ),
            ProjectAgentValidationError::InvalidRelativePath(v) => ValidationFailure::InvalidRelativePath(
                v@,
            ),
            ProjectAgentValidationError::UnsupportedSchema { document, found, expected } => {
                ValidationFailure::UnsupportedSchema {
                    document: document@,
                    found: *found,
                    expected: *expected,
                }
            },
            ProjectAgentValidationError::InvalidField { field, reason } => {
                ValidationFailure::InvalidField { field: field@, reason: reason@ }
            },
            ProjectAgentValidationError::RegistryPathMismatch { agent_id, expected, actual } => {
                ValidationFailure::RegistryPathMismatch {
                    agent_id: agent_id@,
                    expected: expected@,
                    actual: actual@,
                }
            },
        }
    }
}

/// The message a validation failure displays.
pub open spec fn failure_text(f: ValidationFailure) -> Seq<char> {
    match f {
        ValidationFailure::InvalidIdentifier(v) => "invalid project AGENT identifier `"@ + v + "`"@,
        ValidationFailure::InvalidRelativePath(v) => "invalid project AGENT relative path `"@ + v
            + "`"@,
        ValidationFailure::UnsupportedSchema { document, found, expected } => "unsupported "@
            + document + " schema version "@ + decimal(found as nat) + "; expected "@ + decimal(
            expected as nat,
        ),
        ValidationFailure::InvalidField { field, reason } => "invalid "@ + field + ": "@ + reason,
        ValidationFailure::RegistryPathMismatch { agent_id, expected, actual } => "registry path for `"@
            + agent_id + "` is `"@ + actual + "`; expected `"@ + expected + "`"@,
    }
}

impl ProjectAgentValidationError {
    /// The message this failure displays.
    pub fn message(&self) -> (r: String)
        ensures
            r@ == failure_text(self@),
    {
        match self {
            ProjectAgentValidationError::InvalidIdentifier(v) => {
                let mut s = owned("invalid project AGENT identifier `");
                push_str(&mut s, v.as_str());
                push_str(&mut s, "`");
                s
            },
            ProjectAgentValidationError::InvalidRelativePath(v) => {
                let mut s = owned("invalid project AGENT relative path `");
                push_str(&mut s, v.as_str());
                push_str(&mut s, "`");
                s
            },
            ProjectAgentValidationError::UnsupportedSchema { document, found, expected } => {
                let mut s = owned("unsupported ");
                push_str(&mut s, document);
                push_str(&mut s, " schema version ");
                push_decimal(&mut s, *found as u64);
                push_str(&mut s, "; expected ");
                push_decimal(&mut s, *expected as u64);
                s
            },
            ProjectAgentValidationError::InvalidField { field, reason } => {
                let mut s = owned("invalid ");
                push_str(&mut s, field);
                push_str(&mut s, ": ");
                push_str(&mut s, reason.as_str());
                s
            },
            ProjectAgentValidationError::RegistryPathMismatch { agent_id, expected, actual } => {
                let mut s = owned("registry path for `");
                push_str(&mut s, agent_id.as_str());
                push_str(&mut s, "` is `");
                push_str(&mut s, actual.as_str());
                push_str(&mut s, "`; expected `");
                push_str(&mut s, expected.as_str());
                push_str(&mut s, "`");
                s
            },
        }
    }
}

/// The outcome of a validation, as mathematical content.
pub type Checked = Result<(), ValidationFailure>;

/// What a validator that returned `r` reported.
pub open spec fn checked_of(r: Result<(), ProjectAgentValidationError>) -> Checked {
    match r {
        Ok(()) => Ok(()),
        Err(e) => Err(e@),
    }
}

/// Runs `second` only when `first` succeeded.
pub open spec fn and_then(first: Checked, second: Checked) -> Checked {
    match first {
        Ok(()) => second,
        Err(e) => Err(e),
    }
}

/// An `InvalidField` failure.
pub open spec fn field_failure(field: Seq<char>, reason: Seq<char>) -> ValidationFailure {
    ValidationFailure::InvalidField { field, reason }
}

pub(crate) fn invalid_field(field: &'static str, reason: &str) -> (e: ProjectAgentValidationError)
    ensures
        e@ == field_failure(field@, reason@),
{
    ProjectAgentValidationError::InvalidField { field, reason: owned(reason) }
}

/// A lowercase ASCII letter, an ASCII digit, `-` or `_`.
pub open spec fn is_id_char(c: char) -> bool {
    ('a' <= c && c <= 'z') || ('0' <= c && c <= '9') || c == '-' || c == '_'
}

/// The rule for project AGENT identifiers: 1 to 64 bytes of lowercase ASCII
/// letters, digits, `-` and `_`, starting and ending with a letter or digit.
pub open spec fn valid_agent_id(s: Seq<char>) -> bool {
    &&& s.len() > 0
    &&& utf8_len(s) <= MAX_ID_BYTES
    &&& forall|i: int| 0 <= i < s.len() ==> is_id_char(#[trigger] s[i])
    &&& is_ascii_alnum(s[0])
    &&& is_ascii_alnum(s.last())
}

fn is_id_char_exec(c: char) -> (r: bool)
    ensures
        r == is_id_char(c),
{
    ('a' <= c && c <= 'z') || ('0' <= c && c <= '9') || c == '-' || c == '_'
}

/// Identifier of one project AGENT.
#[derive(Clone, Debug, Eq, Hash, Ord, PartialEq, PartialOrd)]
pub struct ProjectAgentId(String);

impl View for ProjectAgentId {
    type V = Seq<char>;

    closed spec fn view(&self) -> Seq<char> {
        self.0@
    }
}

impl ProjectAgentId {
    /// Accepts `value` exactly when it satisfies [`valid_agent_id`].
    pub fn new(value: &str) -> (r: Result<Self, ProjectAgentValidationError>)
        ensures
            r is Ok <==> valid_agent_id(value@),
            r matches Ok(id) ==> id@ == value@,
            r matches Err(e) ==> e@ == ValidationFailure::InvalidIdentifier(value@),
    {
        let chars = chars_of(value);
        let n = chars.len();
        let mut valid = n > 0 && byte_len(value) <= MAX_ID_BYTES;
        let mut i: usize = 0;
        while i < n
            invariant
                chars@ == value@,
                n == chars@.len(),
                i <= n,
                valid == (n > 0 && utf8_len(value@) <= MAX_ID_BYTES && forall|j: int|
                    0 <= j < i ==> is_id_char(#[trigger] chars@[j])),
            decreases n - i,
        {
            if !is_id_char_exec(chars[i]) {
                valid = false;
            }
            i = i + 1;
        }
        if valid {
            valid = ascii_alnum(chars[0]) && ascii_alnum(chars[n - 1]);
        }
        if !valid {
            return Err(ProjectAgentValidationError::InvalidIdentifier(owned(value)));
        }
        Ok(ProjectAgentId(owned(value)))
    }

    pub fn as_str(&self) -> (r: &str)
        ensures
            r@ == self@,
    {
        self.0.as_str()
    }

    /// A copy of this identifier.
    pub fn duplicate(&self) -> (r: Self)
        ensures
            r@ == self@,
    {
        ProjectAgentId(self.0.clone())
    }

    /// Whether two identifiers are equal.
    pub fn same(&self, other: &Self) -> (r: bool)
        ensures
            r == (self@ == other@),
    {
        self.0 == other.0
    }
}

/// A segment of `s` begins at `i`.
pub open spec fn segment_starts(s: Seq<char>, i: int) -> bool {
    i == 0 || s[i - 1] == '/'
}

/// A segment of `s` ends just before `i`.
pub open spec fn segment_ends(s: Seq<char>, i: int) -> bool {
    i == s.len() || s[i] == '/'
}

/// The segment of `s` at `i` is `.`.
pub open spec fn dot_segment_at(s: Seq<char>, i: int) -> bool {
    segment_starts(s, i) && s[i] == '.' && segment_ends(s, i + 1)
}

/// The segment of `s` at `i` is `..`.
pub open spec fn dot_dot_segment_at(s: Seq<char>, i: int) -> bool {
    segment_starts(s, i) && i + 1 < s.len() && s[i] == '.' && s[i + 1] == '.' && segment_ends(
        s,
        i + 2,
    )
}

/// The `/`-separated segment of `s` that starts at `i` is empty.
pub open spec fn empty_segment_at(s: Seq<char>, i: int) -> bool {
    segment_starts(s, i) && segment_ends(s, i)
}

/// A character that a relative path may not contain.
pub open spec fn is_forbidden_path_char(c: char) -> bool {
    c == '\\' || c == ':' || c == '\0'
}

/// The rule for paths relative to a project AGENT directory: 1 to 512
/// bytes, not absolute, without `\`, `:` or NUL, and made of `/`-separated
/// segments none of which is empty, `.` or `..`.
pub open spec fn valid_relative_path(s: Seq<char>) -> bool {
    &&& s.len() > 0
    &&& utf8_len(s) <= MAX_RELATIVE_PATH_BYTES
    &&& s[0] != '/'
    &&& forall|i: int| 0 <= i < s.len() ==> !is_forbidden_path_char(#[trigger] s[i])
    &&& forall|i: int| 0 <= i <= s.len() ==> !empty_segment_at(s, i)
    &&& forall|i: int| 0 <= i < s.len() ==> !dot_segment_at(s, i) && !dot_dot_segment_at(s, i)
}

fn path_char_ok(v: &Vec<char>, i: usize) -> (r: bool)
    requires
        i < v@.len(),
    ensures
        r == (!is_forbidden_path_char(v@[i as int]) && !empty_segment_at(v@, i as int)
            && !dot_segment_at(v@, i as int) && !dot_dot_segment_at(v@, i as int)),
{
    let n = v.len();
    let c = v[i];
    if c == '\\' || c == ':' || c == '\0' {
        return false;
    }
    let starts = i == 0 || v[i - 1] == '/';
    if starts && c == '/' {
        return false;
    }
    if starts && c == '.' {
        if i + 1 == n || v[i + 1] == '/' {
            return false;
        }
        if v[i + 1] == '.' && (i + 2 == n || v[i + 2] == '/') {
            return false;
        }
    }
    true
}

/// A path relative to a project AGENT directory.
#[derive(Clone, Debug, Eq, Hash, Ord, PartialEq, PartialOrd)]
pub struct RelativeProjectAgentPath(String);

impl View for RelativeProjectAgentPath {
    type V = Seq<char>;

    closed spec fn view(&self) -> Seq<char> {
        self.0@
    }
}

impl RelativeProjectAgentPath {
    /// Accepts `value` exactly when it satisfies [`valid_relative_path`].
    pub fn new(value: &str) -> (r: Result<Self, ProjectAgentValidationError>)
        ensures
            r is Ok <==> valid_relative_path(value@),
            r matches Ok(p) ==> p@ == value@,
            r matches Err(e) ==> e@ == ValidationFailure::InvalidRelativePath(value@),
    {
        let chars = chars_of(value);
        let n = chars.len();
        let mut valid = n > 0 && byte_len(value) <= MAX_RELATIVE_PATH_BYTES;
        if valid {
            valid = chars[0] != '/';
        }
        let mut i: usize = 0;
        while i < n
            invariant
                chars@ == value@,
                n == chars@.len(),
                i <= n,
                valid == (n > 0 && utf8_len(value@) <= MAX_RELATIVE_PATH_BYTES && chars@[0] != '/'
                    && forall|j: int|
                    0 <= j < i ==> (!is_forbidden_path_char(#[trigger] chars@[j])
                        && !empty_segment_at(chars@, j) && !dot_segment_at(chars@, j)
                        && !dot_dot_segment_at(chars@, j))),
            decreases n - i,
        {
            if !path_char_ok(&chars, i) {
                valid = false;
            }
            i = i + 1;
        }
        if valid && chars[n - 1] == '/' {
            valid = false;
        }
        proof {
            if valid {
                assert forall|j: int| 0 <= j <= value@.len() implies !empty_segment_at(
                    value@,
                    j,
                ) by {
                    if j < value@.len() {
                        assert(!empty_segment_at(chars@, j));
                    }
                }
            }
            if !valid && n > 0 && utf8_len(value@) <= MAX_RELATIVE_PATH_BYTES && chars@[0] != '/'
                && chars@[n - 1] == '/' {
                assert(empty_segment_at(value@, n as int));
            }
        }
        if !valid {
            return Err(ProjectAgentValidationError::InvalidRelativePath(owned(value)));
        }
        Ok(RelativeProjectAgentPath(owned(value)))
    }

    pub fn as_str(&self) -> (r: &str)
        ensures
            r@ == self@,
    {
        self.0.as_str()
    }

    /// A copy of this path.
    pub fn duplicate(&self) -> (r: Self)
        ensures
            r@ == self@,
    {
        RelativeProjectAgentPath(self.0.clone())
    }

    /// Whether two paths are equal.
    pub fn same(&self, other: &Self) -> (r: bool)
        ensures
            r == (self@ == other@),
    {
        self.0 == other.0
    }
}

/// Rejects any schema version other than [`PROJECT_AGENT_SCHEMA_VERSION`].
pub open spec fn schema_check(document: Seq<char>, found: u32) -> Checked {
    if found != PROJECT_AGENT_SCHEMA_VERSION {
        Err(
            ValidationFailure::UnsupportedSchema {
                document,
                found,
                expected: PROJECT_AGENT_SCHEMA_VERSION,
            },
        )
    } else {
        Ok(())
    }
}

pub fn validate_schema(document: &'static str, schema_version: u32) -> (r: Result<
    (),
    ProjectAgentValidationError,
>)
    ensures
        checked_of(r) == schema_check(document@, schema_version),
{
    if schema_version != PROJECT_AGENT_SCHEMA_VERSION {
        return Err(
            ProjectAgentValidationError::UnsupportedSchema {
                document,
                found: schema_version,
                expected: PROJECT_AGENT_SCHEMA_VERSION,
            },
        );
    }
    Ok(())
}

/// Rejects text that is empty after trimming whitespace.
pub open spec fn non_empty_check(field: Seq<char>, value: Seq<char>) -> Checked {
    if is_blank(value) {
        Err(field_failure(field, "must not be empty"@))
    } else {
        Ok(())
    }
}

pub fn validate_non_empty(field: &'static str, value: &str) -> (r: Result<
    (),
    ProjectAgentValidationError,
>)
    ensures
        checked_of(r) == non_empty_check(field@, value@),
{
    if blank(value) {
        return Err(invalid_field(field, "must not be empty"));
    }
    Ok(())
}

/// A character allowed in a task identifier.
pub open spec fn is_task_id_char(c: char) -> bool {
    is_ascii_alnum(c) || c == '-' || c == '_' || c == '.'
}

/// The rule for task identifiers: 1 to 128 bytes of ASCII letters, digits,
/// `-`, `_` and `.`.
pub open spec fn valid_task_id(s: Seq<char>) -> bool {
    &&& s.len() > 0
    &&& utf8_len(s) <= MAX_TASK_ID_BYTES
    &&& forall|i: int| 0 <= i < s.len() ==> is_task_id_char(#[trigger] s[i])
}

pub open spec fn task_id_check(value: Seq<char>) -> Checked {
    if valid_task_id(value) {
        Ok(())
    } else {
        Err(field_failure("task_id"@, "must be a bounded ASCII identifier"@))
    }
}

pub fn is_valid_task_id(value: &str) -> (r: bool)
    ensures
        r == valid_task_id(value@),
{
    let chars = chars_of(value);
    let n = chars.len();
    let mut valid = n > 0 && byte_len(value) <= MAX_TASK_ID_BYTES;
    let mut i: usize = 0;
    while i < n
        invariant
            chars@ == value@,
            n == chars@.len(),
            i <= n,
            valid == (n > 0 && utf8_len(value@) <= MAX_TASK_ID_BYTES && forall|j: int|
                0 <= j < i ==> is_task_id_char(#[trigger] chars@[j])),
        decreases n - i,
    {
        let c = chars[i];
        if !(ascii_alnum(c) || c == '-' || c == '_' || c == '.') {
            valid = false;
        }
        i = i + 1;
    }
    valid
}

pub fn validate_task_id(value: &str) -> (r: Result<(), ProjectAgentValidationError>)
    ensures
        checked_of(r) == task_id_check(value@),
{
    if !is_valid_task_id(value) {
        return Err(invalid_field("task_id", "must be a bounded ASCII identifier"));
    }
    Ok(())
}

/// The reason reported for text outside its bounds.
pub open spec fn bounded_text_reason(max_bytes: nat) -> Seq<char> {
    "must be non-empty and at most "@ + decimal(max_bytes) + " bytes"@
}

/// Rejects text that is blank (when required) or longer than `max_bytes`.
pub open spec fn bounded_text_check(
    field: Seq<char>,
    value: Seq<char>,
    max_bytes: nat,
    required: bool,
) -> Checked {
    if (required && is_blank(value)) || utf8_len(value) > max_bytes {
        Err(field_failure(field, bounded_text_reason(max_bytes)))
    } else {
        Ok(())
    }
}

pub fn validate_bounded_text(
    field: &'static str,
    value: &str,
    max_bytes: usize,
    required: bool,
) -> (r: Result<(), ProjectAgentValidationError>)
    ensures
        checked_of(r) == bounded_text_check(field@, value@, max_bytes as nat, required),
{
    if (required && blank(value)) || byte_len(value) > max_bytes {
        let mut reason = owned("must be non-empty and at most ");
        push_decimal(&mut reason, max_bytes as u64);
        push_str(&mut reason, " bytes");
        return Err(ProjectAgentValidationError::InvalidField { field, reason });
    }
    Ok(())
}

/// Every item of `values` is within bounds, checked in order.
pub open spec fn items_check(field: Seq<char>, values: Seq<String>, max_bytes: nat) -> Checked
    decreases values.len(),
{
    if values.len() == 0 {
        Ok(())
    } else {
        and_then(
            items_check(field, values.drop_last(), max_bytes),
            bounded_text_check(field, values.last()@, max_bytes, true),
        )
    }
}

pub(crate) fn validate_items(field: &'static str, values: &Vec<String>, max_bytes: usize) -> (r:
    Result<(), ProjectAgentValidationError>)
    ensures
        checked_of(r) == items_check(field@, values@, max_bytes as nat),
{
    let mut i: usize = 0;
    while i < values.len()
        invariant
            i <= values@.len(),
            items_check(field@, values@.take(i as int), max_bytes as nat) == Ok::<
                (),
                ValidationFailure,
            >(()),
        decreases values.len() - i,
    {
        proof {
            assert(values@.take(i + 1).drop_last() == values@.take(i as int));
        }
        let r = validate_bounded_text(field, values[i].as_str(), max_bytes, true);
        if r.is_err() {
            proof {
                lemma_items_check_prefix_fails(field@, values@, max_bytes as nat, i as int);
            }
            return r;
        }
        i = i + 1;
    }
    proof {
        assert(values@.take(values@.len() as int) == values@);
    }
    Ok(())
}

/// When the first `i` items pass and item `i` fails, the whole check fails
/// with item `i`'s failure.
pub proof fn lemma_items_check_prefix_fails(
    field: Seq<char>,
    values: Seq<String>,
    max_bytes: nat,
    i: int,
)
    requires
        0 <= i < values.len(),
        items_check(field, values.take(i), max_bytes) == Ok::<(), ValidationFailure>(()),
        bounded_text_check(field, values[i]@, max_bytes, true) is Err,
    ensures
        items_check(field, values, max_bytes) == bounded_text_check(
            field,
            values[i]@,
            max_bytes,
            true,
        ),
    decreases values.len(),
{
    if i == values.len() - 1 {
        assert(values.drop_last() == values.take(i));
    } else {
        assert(values.drop_last().take(i) == values.take(i));
        lemma_items_check_prefix_fails(field, values.drop_last(), max_bytes, i);
    }
}

/// The reason reported for an over-long list.
pub open spec fn too_many_items_reason(max_items: nat) -> Seq<char> {
    "contains more than "@ + decimal(max_items) + " items"@
}

/// A result list holds at most 128 items, each non-blank and at most 8 KiB.
pub open spec fn result_list_check(field: Seq<char>, values: Seq<String>) -> Checked {
    if values.len() > MAX_RESULT_LIST_ITEMS {
        Err(field_failure(field, too_many_items_reason(MAX_RESULT_LIST_ITEMS as nat)))
    } else {
        items_check(field, values, MAX_RESULT_LIST_ITEM_BYTES as nat)
    }
}

pub fn validate_result_list(field: &'static str, values: &Vec<String>) -> (r: Result<
    (),
    ProjectAgentValidationError,
>)
    ensures
        checked_of(r) == result_list_check(field@, values@),
{
    if values.len() > MAX_RESULT_LIST_ITEMS {
        let mut reason = owned("contains more than ");
        push_decimal(&mut reason, MAX_RESULT_LIST_ITEMS as u64);
        push_str(&mut reason, " items");
        return Err(ProjectAgentValidationError::InvalidField { field, reason });
    }
    validate_items(field, values, MAX_RESULT_LIST_ITEM_BYTES)
}

} // verus!
