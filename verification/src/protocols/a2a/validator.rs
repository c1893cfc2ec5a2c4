//! A2A envelope validation.
//!
//! Messages carry an id, a role and parts; tasks carry an id, a status
//! and optional artifacts and messages. Every textual part — in a
//! message, in a task's messages, and in a task's artifacts — runs
//! through a fresh prompt-injection scan, and a match rejects the whole
//! envelope.

use crate::governance::prompt_injection::{spec_default_patterns, PromptInjectionDetector};
use crate::jsonval;
use crate::streaming::pattern_fsm::scan_find;
use crate::text::{lower_bytes, utf8_of};
use vstd::prelude::*;
use vstd::string::StringExecFns;

verus! {

/// A2A message roles.
#[derive(Debug, Clone, Copy, PartialEq, Eq, Structural)]
pub enum A2ARole {
    /// The user side.
    RoleUser,
    /// The agent side.
    RoleAgent,
}

/// One message part: text, a file reference, or structured data carried
/// as JSON text.
#[derive(Debug, Clone)]
pub struct A2APart {
    /// Text content.
    pub text: Option<String>,
    /// File content.
    pub file: Option<A2AFile>,
    /// Structured data, carried as JSON text.
    pub data: Option<String>,
}

/// A file reference inside a part.
#[derive(Debug, Clone)]
pub struct A2AFile {
    /// File name.
    pub name: Option<String>,
    /// MIME type.
    pub mime_type: Option<String>,
    /// File bytes, base64-encoded.
    pub bytes: Option<String>,
    /// File URI.
    pub uri: Option<String>,
}

/// An A2A message envelope.
#[derive(Debug, Clone)]
pub struct A2AMessage {
    /// Message id.
    pub message_id: String,
    /// Sender role.
    pub role: A2ARole,
    /// Message parts.
    pub parts: Vec<A2APart>,
    /// Metadata, carried as JSON text.
    pub metadata: Option<String>,
}

/// A2A task states.
#[derive(Debug, Clone, Copy, PartialEq, Eq, Structural)]
pub enum A2ATaskState {
    /// Waiting to run.
    Pending,
    /// Running.
    Running,
    /// Waiting for input.
    InputRequired,
    /// Finished successfully.
    Completed,
    /// Failed.
    Failed,
    /// Cancelled.
    Cancelled,
}

/// A task's status.
#[derive(Debug, Clone)]
pub struct A2ATaskStatus {
    /// Current state.
    pub state: A2ATaskState,
    /// Status message.
    pub message: Option<String>,
}

/// An artifact attached to a task.
#[derive(Debug, Clone)]
pub struct A2AArtifact {
    /// Artifact name.
    pub name: String,
    /// Artifact parts.
    pub parts: Vec<A2APart>,
    /// Position in the artifact sequence.
    pub index: Option<u32>,
}

/// An A2A task envelope.
#[derive(Debug, Clone)]
pub struct A2ATask {
    /// Task id.
    pub task_id: String,
    /// Session id.
    pub session_id: Option<String>,
    /// Task status.
    pub status: A2ATaskStatus,
    /// Task artifacts.
    pub artifacts: Vec<A2AArtifact>,
    /// Task messages.
    pub messages: Vec<A2AMessage>,
}

/// A text is clean when a fresh scan over the built-in injection phrases
/// finds nothing in it.
pub open spec fn text_clean(text: Seq<char>) -> bool {
    scan_find(
        spec_default_patterns().map_values(|s: Seq<char>| lower_bytes(utf8_of(s))),
        Seq::new(spec_default_patterns().len(), |i: int| 0nat),
        utf8_of(text),
    ) is None
}

/// Every textual part of the list is clean.
pub open spec fn parts_clean(parts: Seq<A2APart>) -> bool {
    forall|i: int|
        0 <= i < parts.len() ==> match #[trigger] parts[i].text {
            Some(t) => text_clean(t@),
            None => true,
        }
}

/// What validation guarantees of a message it accepts: a non-empty id, a
/// role from the protocol's two, at least one part, and clean text parts.
pub open spec fn message_ok(m: A2AMessage) -> bool {
    &&& m.message_id@.len() > 0
    &&& (m.role == A2ARole::RoleUser || m.role == A2ARole::RoleAgent)
    &&& m.parts@.len() > 0
    &&& parts_clean(m.parts@)
}

/// Every message in the list has clean parts.
pub open spec fn messages_clean(ms: Seq<A2AMessage>) -> bool {
    forall|i: int| 0 <= i < ms.len() ==> parts_clean(#[trigger] ms[i].parts@)
}

/// Every artifact has a non-empty name and clean parts.
pub open spec fn artifacts_ok(arts: Seq<A2AArtifact>) -> bool {
    forall|i: int|
        0 <= i < arts.len() ==> (#[trigger] arts[i].name@).len() > 0 && parts_clean(
            arts[i].parts@,
        )
}

/// What validation guarantees of a task it accepts: a non-empty id,
/// well-formed artifacts, and clean message parts.
pub open spec fn task_ok(t: A2ATask) -> bool {
    &&& t.task_id@.len() > 0
    &&& artifacts_ok(t.artifacts@)
    &&& messages_clean(t.messages@)
}

/// A part's text as an optional character sequence.
pub open spec fn part_text_view(p: A2APart) -> Option<Seq<char>> {
    match p.text {
        Some(t) => Some(t@),
        None => None,
    }
}

/// The texts of a part list, absent for non-text parts.
pub open spec fn part_texts(parts: Seq<A2APart>) -> Seq<Option<Seq<char>>> {
    parts.map_values(|p: A2APart| part_text_view(p))
}

/// Every present text in the list is clean.
pub open spec fn texts_clean(ts: Seq<Option<Seq<char>>>) -> bool {
    forall|i: int|
        0 <= i < ts.len() ==> match #[trigger] ts[i] {
            Some(t) => text_clean(t),
            None => true,
        }
}

/// The acceptance-deciding fields of a message body: the id and the part
/// texts, when the body parses as a message envelope — a JSON object
/// with a string `messageId`, a `role` naming one of the protocol's two,
/// and a `parts` array of well-typed part objects; `None` otherwise. A
/// function of the bytes alone.
pub uninterp spec fn a2a_message_of(b: Seq<u8>) -> Option<(Seq<char>, Seq<Option<Seq<char>>>)>;

/// The acceptance-deciding fields of a task body: the id, each
/// artifact's name and part texts, and each carried message's part
/// texts, when the body parses as a task envelope — a JSON object with a
/// string `taskId`, a `status` object naming one of the six states, and
/// well-typed optional `artifacts` and `messages` arrays; `None`
/// otherwise. A function of the bytes alone.
pub uninterp spec fn a2a_task_of(b: Seq<u8>) -> Option<
    (Seq<char>, Seq<(Seq<char>, Seq<Option<Seq<char>>>)>, Seq<Seq<Option<Seq<char>>>>),
>;

/// A message body is accepted exactly when it parses and carries a
/// non-empty id, at least one part, and only clean texts.
pub open spec fn message_accepted(b: Seq<u8>) -> bool {
    match a2a_message_of(b) {
        Some(f) => f.0.len() > 0 && f.1.len() > 0 && texts_clean(f.1),
        None => false,
    }
}

/// A task body is accepted exactly when it parses and carries a
/// non-empty id, artifacts with non-empty names and clean texts, and
/// messages with clean texts.
pub open spec fn task_accepted(b: Seq<u8>) -> bool {
    match a2a_task_of(b) {
        Some(f) => {
            &&& f.0.len() > 0
            &&& forall|i: int|
                0 <= i < f.1.len() ==> (#[trigger] f.1[i]).0.len() > 0 && texts_clean(f.1[i].1)
            &&& forall|i: int| 0 <= i < f.2.len() ==> texts_clean(#[trigger] f.2[i])
        },
        None => false,
    }
}

/// Pointwise reading of [`part_texts`].
proof fn lemma_part_texts_index(parts: Seq<A2APart>)
    ensures
        part_texts(parts).len() == parts.len(),
        forall|i: int|
            0 <= i < parts.len() ==> #[trigger] part_texts(parts)[i] == part_text_view(parts[i]),
{
    assert forall|i: int|
        0 <= i < parts.len() implies #[trigger] part_texts(parts)[i] == part_text_view(
        parts[i],
    ) by {
        assert(part_texts(parts)[i] == parts.map_values(|p: A2APart| part_text_view(p))[i]);
    }
}

/// Clean parts are exactly clean part texts.
proof fn lemma_parts_clean_equiv(parts: Seq<A2APart>)
    ensures
        parts_clean(parts) == texts_clean(part_texts(parts)),
{
    lemma_part_texts_index(parts);
    if parts_clean(parts) {
        assert forall|i: int| 0 <= i < part_texts(parts).len() implies match #[trigger] part_texts(
            parts,
        )[i] {
            Some(t) => text_clean(t),
            None => true,
        } by {
            assert(part_texts(parts)[i] == part_text_view(parts[i]));
        }
    }
    if texts_clean(part_texts(parts)) {
        assert forall|i: int| 0 <= i < parts.len() implies match #[trigger] parts[i].text {
            Some(t) => text_clean(t@),
            None => true,
        } by {
            assert(part_texts(parts)[i] == part_text_view(parts[i]));
        }
    }
}

/// Ways an A2A envelope can be rejected.
#[derive(Debug, Clone)]
pub enum A2AValidationError {
    /// The body is not JSON of the expected shape.
    InvalidJson(String),
    /// A required field is missing or empty.
    MissingField(String),
    /// The task state transition is not allowed.
    InvalidStateTransition(String),
    /// A textual part matched an injection phrase.
    PromptInjection(String),
    /// An artifact is malformed.
    InvalidArtifact(String),
}

/// A2A envelope validator.
pub struct A2AValidator {
    injection_detector: PromptInjectionDetector,
}

impl A2AValidator {
    /// A validator over the built-in injection phrases.
    pub fn new() -> (r: A2AValidator) {
        A2AValidator { injection_detector: PromptInjectionDetector::new() }
    }

    /// Parse and validate a message envelope: success is owed exactly
    /// when the body parses as a message envelope with a non-empty id,
    /// at least one part, and no injection phrase in any text part.
    #[verifier::loop_isolation(false)]
    pub fn validate_message(&self, body: &[u8]) -> (r: Result<A2AMessage, A2AValidationError>)
        ensures
            r is Ok <==> message_accepted(body@),
            (a2a_message_of(body@) is None) <==> (r matches Err(
                A2AValidationError::InvalidJson(_),
            )),
            r matches Ok(m) ==> message_ok(m) && a2a_message_of(body@) == Some(
                (m.message_id@, part_texts(m.parts@)),
            ),
    {
        let message = match parse_message_doc(body) {
            Some(m) => m,
            None => {
                // Keep the parser's error text when the body is not JSON
                // at all.
                return Err(
                    A2AValidationError::InvalidJson(
                        match jsonval::json_parse(body) {
                            Ok(_) => "not an A2A message envelope".to_owned(),
                            Err(msg) => msg,
                        },
                    ),
                );
            },
        };
        proof {
            lemma_parts_clean_equiv(message.parts@);
        }
        if message.message_id.as_str().is_empty() {
            return Err(A2AValidationError::MissingField("messageId".to_owned()));
        }
        if message.parts.len() == 0 {
            return Err(A2AValidationError::MissingField("parts".to_owned()));
        }
        match Self::check_parts(&message.parts, "part") {
            Ok(()) => {},
            Err(e) => {
                return Err(e);
            },
        }
        Ok(message)
    }

    /// Parse and validate a task envelope: success is owed exactly when
    /// the body parses as a task envelope with a non-empty id, artifacts
    /// with non-empty names, and no injection phrase in any text part of
    /// its artifacts or messages.
    #[verifier::loop_isolation(false)]
    pub fn validate_task(&self, body: &[u8]) -> (r: Result<A2ATask, A2AValidationError>)
        ensures
            r is Ok <==> task_accepted(body@),
            (a2a_task_of(body@) is None) <==> (r matches Err(A2AValidationError::InvalidJson(_))),
            r matches Ok(t) ==> task_ok(t) && a2a_task_of(body@) == Some(
                (t.task_id@, artifact_views(t.artifacts@), message_views(t.messages@)),
            ),
    {
        let task = match parse_task_doc(body) {
            Some(t) => t,
            None => {
                // Keep the parser's error text when the body is not JSON
                // at all.
                return Err(
                    A2AValidationError::InvalidJson(
                        match jsonval::json_parse(body) {
                            Ok(_) => "not an A2A task envelope".to_owned(),
                            Err(msg) => msg,
                        },
                    ),
                );
            },
        };
        proof {
            lemma_artifact_views_index(task.artifacts@);
            lemma_message_views_index(task.messages@);
        }
        if task.task_id.as_str().is_empty() {
            return Err(A2AValidationError::MissingField("taskId".to_owned()));
        }
        let ghost av = artifact_views(task.artifacts@);
        let mut i: usize = 0;
        while i < task.artifacts.len()
            invariant
                i <= task.artifacts@.len(),
                forall|j: int|
                    0 <= j < i ==> (#[trigger] task.artifacts@[j].name@).len() > 0 && parts_clean(
                        task.artifacts@[j].parts@,
                    ),
            decreases task.artifacts@.len() - i,
        {
            let artifact = &task.artifacts[i];
            if artifact.name.as_str().is_empty() {
                proof {
                    assert(av[i as int].0.len() == 0);
                    assert(!task_accepted(body@));
                }
                return Err(A2AValidationError::MissingField("artifact.name".to_owned()));
            }
            match Self::check_parts(&artifact.parts, "artifact") {
                Ok(()) => {},
                Err(e) => {
                    proof {
                        lemma_parts_clean_equiv(task.artifacts@[i as int].parts@);
                        assert(!texts_clean(av[i as int].1));
                        assert(!task_accepted(body@));
                    }
                    return Err(e);
                },
            }
            i += 1;
        }
        let ghost mv = message_views(task.messages@);
        let mut k: usize = 0;
        while k < task.messages.len()
            invariant
                k <= task.messages@.len(),
                forall|j: int| 0 <= j < k ==> parts_clean(#[trigger] task.messages@[j].parts@),
            decreases task.messages@.len() - k,
        {
            match Self::check_parts(&task.messages[k].parts, "task message") {
                Ok(()) => {},
                Err(e) => {
                    proof {
                        lemma_parts_clean_equiv(task.messages@[k as int].parts@);
                        assert(!texts_clean(mv[k as int]));
                        assert(!task_accepted(body@));
                    }
                    return Err(e);
                },
            }
            k += 1;
        }
        proof {
            assert forall|j: int| 0 <= j < av.len() implies (#[trigger] av[j]).0.len() > 0
                && texts_clean(av[j].1) by {
                lemma_parts_clean_equiv(task.artifacts@[j].parts@);
            }
            assert forall|j: int| 0 <= j < mv.len() implies texts_clean(#[trigger] mv[j]) by {
                lemma_parts_clean_equiv(task.messages@[j].parts@);
            }
        }
        Ok(task)
    }

    /// Scan each textual part with a fresh detector; the first match
    /// rejects, naming the matched phrase and where it sat.
    #[verifier::loop_isolation(false)]
    fn check_parts(parts: &Vec<A2APart>, place: &str) -> (r: Result<(), A2AValidationError>)
        ensures
            r is Ok <==> parts_clean(parts@),
            r matches Err(e) ==> e matches A2AValidationError::PromptInjection(_),
    {
        let mut i: usize = 0;
        while i < parts.len()
            invariant
                i <= parts@.len(),
                forall|j: int|
                    0 <= j < i ==> match #[trigger] parts@[j].text {
                        Some(t) => text_clean(t@),
                        None => true,
                    },
            decreases parts@.len() - i,
        {
            match &parts[i].text {
                Some(text) => {
                    let mut detector = PromptInjectionDetector::new();
                    let text_len = text.as_str().as_bytes().len();
                    proof {
                        assert(text_len == utf8_of(text@).len());
                    }
                    match detector.scan_str(text.as_str()) {
                        Some(hit) => {
                            let mut d = "Prompt injection in ".to_owned();
                            d.append(place);
                            d.append(": ");
                            d.append(hit.pattern.as_str());
                            return Err(A2AValidationError::PromptInjection(d));
                        },
                        None => {},
                    }
                },
                None => {},
            }
            i += 1;
        }
        Ok(())
    }
}

/// The acceptance view of an artifact list: each artifact's name and
/// part texts.
pub open spec fn artifact_views(arts: Seq<A2AArtifact>) -> Seq<(Seq<char>, Seq<Option<Seq<char>>>)> {
    arts.map_values(|a: A2AArtifact| (a.name@, part_texts(a.parts@)))
}

/// The acceptance view of a message list: each message's part texts.
pub open spec fn message_views(ms: Seq<A2AMessage>) -> Seq<Seq<Option<Seq<char>>>> {
    ms.map_values(|m: A2AMessage| part_texts(m.parts@))
}

/// Pointwise reading of [`artifact_views`].
proof fn lemma_artifact_views_index(arts: Seq<A2AArtifact>)
    ensures
        artifact_views(arts).len() == arts.len(),
        forall|i: int|
            0 <= i < arts.len() ==> #[trigger] artifact_views(arts)[i] == (
                arts[i].name@,
                part_texts(arts[i].parts@),
            ),
{
    assert forall|i: int|
        0 <= i < arts.len() implies #[trigger] artifact_views(arts)[i] == (
        arts[i].name@,
        part_texts(arts[i].parts@),
    ) by {
        assert(artifact_views(arts)[i] == arts.map_values(
            |a: A2AArtifact| (a.name@, part_texts(a.parts@)),
        )[i]);
    }
}

/// Pointwise reading of [`message_views`].
proof fn lemma_message_views_index(ms: Seq<A2AMessage>)
    ensures
        message_views(ms).len() == ms.len(),
        forall|i: int|
            0 <= i < ms.len() ==> #[trigger] message_views(ms)[i] == part_texts(ms[i].parts@),
{
    assert forall|i: int|
        0 <= i < ms.len() implies #[trigger] message_views(ms)[i] == part_texts(ms[i].parts@) by {
        assert(message_views(ms)[i] == ms.map_values(|m: A2AMessage| part_texts(m.parts@))[i]);
    }
}

/// Read one part out of a parsed document: optional string `text`, an
/// optional well-typed `file` object, and `data` carried as JSON text.
///
/// Relies on `serde_json::Value`'s accessors (`get`, `as_str`) and its
/// display form; pure projection of one document into the part type.
#[verifier::external_body]
fn part_from_value(v: &serde_json::Value) -> (r: Option<A2APart>) {
    let file = match v.get("file") {
        None => None,
        Some(f) => Some(file_from_value(f)?),
    };
    Some(A2APart {
        text: jsonval::member_str(v, "text")?,
        file,
        data: v.get("data").map(|d| d.to_string()),
    })
}

/// Read one file reference out of a parsed document: four optional
/// string members.
///
/// Relies on `serde_json::Value::get` and `Value::as_str`; pure
/// projection.
#[verifier::external_body]
fn file_from_value(v: &serde_json::Value) -> (r: Option<A2AFile>) {
    Some(A2AFile {
        name: jsonval::member_str(v, "name")?,
        mime_type: jsonval::member_str(v, "mime_type")?,
        bytes: jsonval::member_str(v, "bytes")?,
        uri: jsonval::member_str(v, "uri")?,
    })
}

/// Read one message envelope out of a parsed document: a string
/// `messageId`, a `role` naming one of the protocol's two, a `parts`
/// array of part objects, and `metadata` carried as JSON text.
///
/// Relies on `serde_json::Value`'s accessors (`get`, `as_str`,
/// `as_array`) with the part projection above; pure projection.
#[verifier::external_body]
fn message_from_value(v: &serde_json::Value) -> (r: Option<A2AMessage>) {
    let message_id = v.get("messageId")?.as_str()?.to_string();
    let role = match v.get("role")?.as_str()? {
        "ROLE_USER" => A2ARole::RoleUser,
        "ROLE_AGENT" => A2ARole::RoleAgent,
        _ => return None,
    };
    let parts = v.get("parts")?.as_array()?.iter().map(part_from_value).collect::<
        Option<Vec<_>>,
    >()?;
    let metadata = v.get("metadata").map(|m| m.to_string());
    Some(A2AMessage { message_id, role, parts, metadata })
}

/// Read one artifact out of a parsed document: a string `name`, a
/// `parts` array, and an optional `index` fitting its counter.
///
/// Relies on `serde_json::Value`'s accessors (`get`, `as_str`,
/// `as_array`, `as_u64`) with the part projection above; pure
/// projection.
#[verifier::external_body]
fn artifact_from_value(v: &serde_json::Value) -> (r: Option<A2AArtifact>) {
    let name = v.get("name")?.as_str()?.to_string();
    let parts = v.get("parts")?.as_array()?.iter().map(part_from_value).collect::<
        Option<Vec<_>>,
    >()?;
    Some(A2AArtifact { name, parts, index: jsonval::member_u32(v, "index")? })
}

/// Read one task status out of a parsed document: a `state` naming one
/// of the six task states and an optional string `message`.
///
/// Relies on `serde_json::Value::get` and `Value::as_str`; pure
/// projection.
#[verifier::external_body]
fn status_from_value(v: &serde_json::Value) -> (r: Option<A2ATaskStatus>) {
    let state = match v.get("state")?.as_str()? {
        "pending" => A2ATaskState::Pending,
        "running" => A2ATaskState::Running,
        "input-required" => A2ATaskState::InputRequired,
        "completed" => A2ATaskState::Completed,
        "failed" => A2ATaskState::Failed,
        "cancelled" => A2ATaskState::Cancelled,
        _ => return None,
    };
    Some(A2ATaskStatus { state, message: jsonval::member_str(v, "message")? })
}

/// Parse one message envelope from a body.
///
/// Relies on `serde_json::from_slice::<Value>` and the message
/// projection above; acceptance and the deciding fields are functions of
/// the bytes alone, named by [`a2a_message_of`].
#[verifier::external_body]
fn parse_message_doc(body: &[u8]) -> (r: Option<A2AMessage>)
    ensures
        r.is_some() == (a2a_message_of(body@) is Some),
        r matches Some(m) ==> a2a_message_of(body@) == Some(
            (m.message_id@, part_texts(m.parts@)),
        ),
{
    let doc: serde_json::Value = serde_json::from_slice(body).ok()?;
    message_from_value(&doc)
}

/// Parse one task envelope from a body.
///
/// Relies on `serde_json::from_slice::<Value>`, `Value`'s accessors and
/// the projections above; acceptance and the deciding fields are
/// functions of the bytes alone, named by [`a2a_task_of`].
#[verifier::external_body]
fn parse_task_doc(body: &[u8]) -> (r: Option<A2ATask>)
    ensures
        r.is_some() == (a2a_task_of(body@) is Some),
        r matches Some(t) ==> a2a_task_of(body@) == Some(
            (t.task_id@, artifact_views(t.artifacts@), message_views(t.messages@)),
        ),
{
    let doc: serde_json::Value = serde_json::from_slice(body).ok()?;
    let artifacts = match doc.get("artifacts") {
        None => Vec::new(),
        Some(v) => v.as_array()?.iter().map(artifact_from_value).collect::<Option<Vec<_>>>()?,
    };
    let messages = match doc.get("messages") {
        None => Vec::new(),
        Some(v) => v.as_array()?.iter().map(message_from_value).collect::<Option<Vec<_>>>()?,
    };
    let task_id = doc.get("taskId")?.as_str()?.to_string();
    let session_id = jsonval::member_str(&doc, "sessionId")?;
    let status = status_from_value(doc.get("status")?)?;
    Some(A2ATask { task_id, session_id, status, artifacts, messages })
}

impl Default for A2AValidator {
    /// A validator over the built-in injection phrases.
    fn default() -> (r: A2AValidator) {
        A2AValidator::new()
    }
}

} // verus!
