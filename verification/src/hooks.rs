//! What the hooks of a host do around its tool calls: name the owner of a session, acknowledge what
//! was read, and clean up.
use crate::json::{
    as_array, as_str, content, contents, copy, get, insert, is_object, is_true, member, parse,
    parsed, text_field, text_member, text_value, value_text, written, Json,
};
use crate::runtime::{valid_id, validate_id, Ownership};
use crate::text::{join, joined, same, texts};
use vstd::prelude::*;
use vstd::string::*;

verus! {

/// Why a hook failed.
#[derive(Debug)]
pub enum HookError {
    InvalidIdentifier,
    /// The input of a start is no object.
    StartInput,
    /// The input of a read names no session.
    ReadInput,
    /// The response of a tool has a shape that is not known.
    UnsupportedResponse,
    /// The response of a tool holds text that is no JSON.
    MalformedResponse(String),
    /// The owner refused a request, for the reason that it wrote.
    Rejected(String),
    /// Sessions could not be cleaned up.
    Cleanup(String),
}

impl HookError {
    pub open spec fn spec_describe(self) -> Seq<char> {
        match self {
            HookError::InvalidIdentifier => "invalid identifier"@,
            HookError::StartInput => "start input must be an object"@,
            HookError::ReadInput => "read input has no session_id"@,
            HookError::UnsupportedResponse => "unsupported MCP response shape"@,
            HookError::MalformedResponse(message) => message@,
            HookError::Rejected(reason) => "control request rejected: "@ + reason@,
            HookError::Cleanup(errors) => "PTY cleanup failed: "@ + errors@,
        }
    }

    /// The error in words.
    pub fn describe(&self) -> (text: String)
        ensures
            text@ == self.spec_describe(),
    {
        match self {
            HookError::InvalidIdentifier => "invalid identifier".to_string(),
            HookError::StartInput => "start input must be an object".to_string(),
            HookError::ReadInput => "read input has no session_id".to_string(),
            HookError::UnsupportedResponse => "unsupported MCP response shape".to_string(),
            HookError::MalformedResponse(message) => message.clone(),
            HookError::Rejected(reason) => {
                let mut text = "control request rejected: ".to_string();
                text.append(reason.as_str());
                text
            },
            HookError::Cleanup(errors) => {
                let mut text = "PTY cleanup failed: ".to_string();
                text.append(errors.as_str());
                text
            },
        }
    }
}

/// Names the host session in the input of a start, over whatever owner was given there.
pub fn prepare(session_id: &str, tool_input: &serde_json::Value) -> (r: Result<
    serde_json::Value,
    HookError,
>)
    ensures
        match r {
            Ok(arguments) => {
                &&& valid_id(session_id@)
                &&& content(*tool_input) is Object
                &&& content(arguments) == Json::Object(
                    content(*tool_input)->Object_0.insert(
                        "host_session_id"@,
                        Json::Text(session_id@),
                    ),
                )
            },
            Err(HookError::InvalidIdentifier) => !valid_id(session_id@),
            Err(HookError::StartInput) => valid_id(session_id@) && content(*tool_input) !is Object,
            Err(_) => false,
        },
{
    if validate_id(session_id).is_err() {
        return Err(HookError::InvalidIdentifier);
    }
    if !is_object(tool_input) {
        return Err(HookError::StartInput);
    }
    let mut arguments = copy(tool_input);
    insert(&mut arguments, "host_session_id", text_value(session_id));
    Ok(arguments)
}

/// How many layers a response is unwrapped from at most.
pub const MOST_LAYERS: usize = 5;

/// The first text among the elements from the `i`th on.
pub open spec fn first_text(elements: Seq<Json>, i: int) -> Option<Seq<char>>
    decreases elements.len() - i,
{
    if i < 0 || i >= elements.len() {
        None
    } else {
        match text_member(elements[i], "text"@) {
            Some(text) => Some(text),
            None => first_text(elements, i + 1),
        }
    }
}

/// The first text in the content of a response.
pub open spec fn content_text(json: Json) -> Option<Seq<char>> {
    match member(json, "content"@) {
        Some(Json::Array(elements)) => first_text(elements, 0),
        _ => None,
    }
}

/// What is inside one layer of a response.
pub enum Layer {
    /// The object that the response is about.
    Innermost,
    Inside(Json),
    /// A text that is no JSON, and why.
    Broken(Seq<char>),
    Unknown,
}

pub open spec fn parsed_layer(text: Seq<char>) -> Layer {
    match parsed(text) {
        Ok(inside) => Layer::Inside(inside),
        Err(error) => Layer::Broken(error),
    }
}

/// Unwraps one layer: structured content, encoded text or the text of a content block.
pub open spec fn layer(json: Json) -> Layer {
    match member(json, "structuredContent"@) {
        Some(inside) => Layer::Inside(inside),
        None => match json {
            Json::Text(text) => parsed_layer(text),
            _ => match content_text(json) {
                Some(text) => parsed_layer(text),
                None => if json is Object {
                    Layer::Innermost
                } else {
                    Layer::Unknown
                },
            },
        },
    }
}

/// The object inside a response, or why there is none.
pub open spec fn unwrapped(json: Json, layers: nat) -> Result<Json, Option<Seq<char>>>
    decreases layers,
{
    if layers == 0 {
        Err(None)
    } else {
        match layer(json) {
            Layer::Innermost => Ok(json),
            Layer::Inside(inside) => unwrapped(inside, (layers - 1) as nat),
            Layer::Broken(error) => Err(Some(error)),
            Layer::Unknown => Err(None),
        }
    }
}

/// The first text among the elements of a content.
fn find_text(elements: &Vec<serde_json::Value>) -> (r: Option<&str>)
    ensures
        match r {
            Some(text) => first_text(contents(elements@), 0) == Some(text@),
            None => first_text(contents(elements@), 0) is None,
        },
{
    let ghost all = contents(elements@);
    let mut i: usize = 0;
    while i < elements.len()
        invariant
            i <= elements@.len(),
            all == contents(elements@),
            first_text(all, 0) == first_text(all, i as int),
        decreases elements@.len() - i,
    {
        assert(all[i as int] == content(elements@[i as int]));
        if let Some(text) = text_field(&elements[i], "text") {
            return Some(text);
        }
        i += 1;
    }
    None
}

/// The text in which a response holds its value encoded: the response itself, or that in its
/// content.
fn encoded_text(value: &serde_json::Value) -> (r: Option<&str>)
    ensures
        match r {
            Some(text) => content(*value) == Json::Text(text@) || (content(*value) !is Text
                && content_text(content(*value)) == Some(text@)),
            None => content(*value) !is Text && content_text(content(*value)) is None,
        },
{
    if let Some(text) = as_str(value) {
        return Some(text);
    }
    match get(value, "content") {
        Some(blocks) => match as_array(blocks) {
            Some(elements) => find_text(elements),
            None => None,
        },
        None => None,
    }
}

/// Unwraps the response of a tool to the object that it is about.
pub fn parse_response(response: serde_json::Value) -> (r: Result<serde_json::Value, HookError>)
    ensures
        match r {
            Ok(object) => unwrapped(content(response), MOST_LAYERS as nat) == Ok::<
                Json,
                Option<Seq<char>>,
            >(content(object)) && content(object) is Object,
            Err(HookError::MalformedResponse(message)) => unwrapped(
                content(response),
                MOST_LAYERS as nat,
            ) == Err::<Json, Option<Seq<char>>>(Some(message@)),
            Err(HookError::UnsupportedResponse) => unwrapped(content(response), MOST_LAYERS as nat)
                == Err::<Json, Option<Seq<char>>>(None),
            Err(_) => false,
        },
{
    let ghost whole = content(response);
    let mut value = response;
    let mut layers: usize = 0;
    while layers < MOST_LAYERS
        invariant
            layers <= MOST_LAYERS,
            whole == content(response),
            unwrapped(content(value), (MOST_LAYERS - layers) as nat) == unwrapped(
                whole,
                MOST_LAYERS as nat,
            ),
        decreases MOST_LAYERS - layers,
    {
        layers += 1;
        if let Some(inside) = get(&value, "structuredContent") {
            value = copy(inside);
            continue ;
        }
        if let Some(text) = encoded_text(&value) {
            match parse(text) {
                Ok(inside) => {
                    value = inside;
                    continue ;
                },
                Err(message) => {
                    return Err(HookError::MalformedResponse(message));
                },
            }
        }
        if is_object(&value) {
            return Ok(value);
        }
        return Err(HookError::UnsupportedResponse);
    }
    Err(HookError::UnsupportedResponse)
}

/// What a read is acknowledged with.
#[derive(Debug)]
pub struct Acknowledgement {
    pub session_id: String,
    pub receipt: String,
}

/// The acknowledgement for a response of a read, if it carries a receipt.
pub fn acknowledgement(tool_input: &serde_json::Value, tool_response: serde_json::Value) -> (r:
    Result<Option<Acknowledgement>, HookError>)
    ensures
        ({
            let inner = unwrapped(content(tool_response), MOST_LAYERS as nat);
            let receipt = match inner {
                Ok(json) => text_member(json, "receipt"@),
                Err(_) => None,
            };
            let session = text_member(content(*tool_input), "session_id"@);
            match r {
                Ok(Some(ack)) => receipt == Some(ack.receipt@) && session == Some(
                    ack.session_id@,
                ),
                Ok(None) => inner is Ok && receipt is None,
                Err(HookError::ReadInput) => receipt is Some && session is None,
                Err(HookError::MalformedResponse(message)) => inner == Err::<
                    Json,
                    Option<Seq<char>>,
                >(Some(message@)),
                Err(HookError::UnsupportedResponse) => inner == Err::<Json, Option<Seq<char>>>(
                    None,
                ),
                Err(_) => false,
            }
        }),
{
    let response = match parse_response(tool_response) {
        Ok(response) => response,
        Err(error) => {
            return Err(error);
        },
    };
    let receipt = match text_field(&response, "receipt") {
        Some(receipt) => receipt.to_string(),
        None => {
            return Ok(None);
        },
    };
    match text_field(tool_input, "session_id") {
        Some(session) => Ok(
            Some(Acknowledgement { session_id: session.to_string(), receipt }),
        ),
        None => Err(HookError::ReadInput),
    }
}

/// Finds the record of a session. A finished session has none and nothing left to acknowledge.
pub fn find_owner(records: &Vec<Ownership>, session: &str) -> (r: Option<usize>)
    ensures
        match r {
            Some(at) => {
                &&& at < records@.len()
                &&& records@[at as int].session_id@ == session@
                &&& forall|i: int| 0 <= i < at ==> (#[trigger] records@[i]).session_id@ != session@
            },
            None => forall|i: int|
                0 <= i < records@.len() ==> (#[trigger] records@[i]).session_id@ != session@,
        },
{
    let mut i: usize = 0;
    while i < records.len()
        invariant
            i <= records@.len(),
            forall|k: int| 0 <= k < i ==> (#[trigger] records@[k]).session_id@ != session@,
        decreases records@.len() - i,
    {
        if same(records[i].session_id.as_str(), session) {
            return Some(i);
        }
        i += 1;
    }
    None
}

/// Checks the answer of an owner to a control request.
pub fn check_control(answer: &serde_json::Value) -> (r: Result<(), HookError>)
    ensures
        match r {
            Ok(()) => member(content(*answer), "ok"@) == Some(Json::Bool(true)),
            Err(HookError::Rejected(reason)) => {
                &&& member(content(*answer), "ok"@) != Some(Json::Bool(true))
                &&& reason@ == reason_text(member(content(*answer), "error"@))
            },
            Err(_) => false,
        },
{
    if is_true(answer, "ok") {
        return Ok(());
    }
    let reason = match get(answer, "error") {
        Some(error) => value_text(error),
        None => "null".to_string(),
    };
    Err(HookError::Rejected(reason))
}

/// How a value is written that may be missing.
pub open spec fn reason_text(json: Option<Json>) -> Seq<char> {
    match json {
        Some(json) => written(json),
        None => "null"@,
    }
}

/// What cleaning up came to, given what went wrong.
pub fn cleanup_result(errors: &Vec<String>) -> (r: Result<(), HookError>)
    ensures
        match r {
            Ok(()) => errors@.len() == 0,
            Err(HookError::Cleanup(all)) => errors@.len() > 0 && all@ == joined(
                texts(errors@),
                ", "@,
            ),
            Err(_) => false,
        },
{
    if errors.len() == 0 {
        return Ok(());
    }
    Err(HookError::Cleanup(join(errors, ", ")))
}

/// The owner named for a start is the host session, even where another was asked for, and nothing
/// else in the input changes.
pub proof fn law_owner_is_the_host_session(input: Map<Seq<char>, Json>, session: Seq<char>)
    ensures
        ({
            let prepared = Json::Object(
                input.insert("host_session_id"@, Json::Text(session)),
            );
            &&& text_member(prepared, "host_session_id"@) == Some(session)
            &&& forall|key: Seq<char>|
                key != "host_session_id"@ ==> #[trigger] member(prepared, key) == member(
                    Json::Object(input),
                    key,
                )
        }),
{
}

/// A response that is a plain object is understood as it is, and so it is inside structured content
/// and inside a text block that encodes it.
pub proof fn law_responses_are_understood_in_every_form(
    object: Map<Seq<char>, Json>,
    encoded: Seq<char>,
    blocks: Seq<Json>,
    structured: Map<Seq<char>, Json>,
    wrapped: Map<Seq<char>, Json>,
)
    requires
        !object.dom().contains("structuredContent"@),
        content_text(Json::Object(object)) is None,
        structured.dom().contains("structuredContent"@),
        structured["structuredContent"@] == Json::Object(object),
        parsed(encoded) == Ok::<Json, Seq<char>>(Json::Object(object)),
        first_text(blocks, 0) == Some(encoded),
        !wrapped.dom().contains("structuredContent"@),
        wrapped.dom().contains("content"@),
        wrapped["content"@] == Json::Array(blocks),
    ensures
        unwrapped(Json::Object(object), MOST_LAYERS as nat) == Ok::<Json, Option<Seq<char>>>(
            Json::Object(object),
        ),
        unwrapped(Json::Object(structured), MOST_LAYERS as nat) == Ok::<Json, Option<Seq<char>>>(
            Json::Object(object),
        ),
        unwrapped(Json::Text(encoded), MOST_LAYERS as nat) == Ok::<Json, Option<Seq<char>>>(
            Json::Object(object),
        ),
        unwrapped(Json::Object(wrapped), MOST_LAYERS as nat) == Ok::<Json, Option<Seq<char>>>(
            Json::Object(object),
        ),
{
    reveal_with_fuel(unwrapped, 3);
}

proof fn lemma_first_text(elements: Seq<Json>, i: int)
    requires
        0 <= i <= elements.len(),
    ensures
        match first_text(elements, i) {
            Some(text) => exists|k: int|
                i <= k < elements.len() && text_member(#[trigger] elements[k], "text"@) == Some(text)
                    && forall|j: int|
                    i <= j < k ==> text_member(#[trigger] elements[j], "text"@) is None,
            None => forall|j: int|
                i <= j < elements.len() ==> text_member(#[trigger] elements[j], "text"@) is None,
        },
    decreases elements.len() - i,
{
    if i < elements.len() {
        if text_member(elements[i], "text"@) is Some {
            assert(text_member(elements[i], "text"@) == first_text(elements, i));
        } else {
            lemma_first_text(elements, i + 1);
            if let Some(text) = first_text(elements, i + 1) {
                let k = choose|k: int|
                    i + 1 <= k < elements.len() && text_member(#[trigger] elements[k], "text"@)
                        == Some(text) && forall|j: int|
                        i + 1 <= j < k ==> text_member(#[trigger] elements[j], "text"@) is None;
                assert forall|j: int| i <= j < k implies text_member(#[trigger] elements[j], "text"@)
                    is None by {}
            }
        }
    }
}

/// The text of a content is that of its first block that has one, and there is none where no block
/// does.
pub proof fn law_the_first_text_block_counts(elements: Seq<Json>)
    ensures
        match first_text(elements, 0) {
            Some(text) => exists|k: int|
                0 <= k < elements.len() && text_member(#[trigger] elements[k], "text"@) == Some(text)
                    && forall|j: int|
                    0 <= j < k ==> text_member(#[trigger] elements[j], "text"@) is None,
            None => forall|j: int|
                0 <= j < elements.len() ==> text_member(#[trigger] elements[j], "text"@) is None,
        },
{
    lemma_first_text(elements, 0);
}

/// Structured content is unwrapped before anything else. A text is parsed, and so is the text of a
/// content; an object with neither is what the response is about; nothing else is understood. Five
/// layers are looked at, the innermost among them.
pub proof fn law_how_responses_are_unwrapped(json: Json, inside: Json, layers: nat)
    ensures
        MOST_LAYERS == 5,
        member(json, "structuredContent"@) == Some(inside) ==> unwrapped(json, layers + 1)
            == unwrapped(inside, layers),
        json matches Json::Text(text) ==> unwrapped(json, layers + 1) == (match parsed(text) {
            Ok(inside) => unwrapped(inside, layers),
            Err(error) => Err::<Json, Option<Seq<char>>>(Some(error)),
        }),
        json is Object && member(json, "structuredContent"@) is None ==> (match content_text(json) {
            Some(text) => unwrapped(json, layers + 1) == (match parsed(text) {
                Ok(inside) => unwrapped(inside, layers),
                Err(error) => Err::<Json, Option<Seq<char>>>(Some(error)),
            }),
            None => unwrapped(json, layers + 1) == Ok::<Json, Option<Seq<char>>>(json),
        }),
        json !is Object && json !is Text ==> unwrapped(json, layers + 1) == Err::<
            Json,
            Option<Seq<char>>,
        >(None),
        unwrapped(json, 0) == Err::<Json, Option<Seq<char>>>(None),
        content_text(json) is Some ==> member(json, "content"@) is Some && member(
            json,
            "content"@,
        )->0 is Array && content_text(json) == first_text(
            member(json, "content"@)->0->Array_0,
            0,
        ),
        member(json, "content"@) is None ==> content_text(json) is None,
        (member(json, "content"@) matches Some(Json::Array(elements)) && first_text(elements, 0)
            is Some) ==> content_text(json) is Some,
{
}

/// A reason is written as the value it is, and a missing one as `null`.
pub proof fn law_reasons_are_written_as_they_are(json: Json)
    ensures
        reason_text(Some(json)) == written(json),
        reason_text(None) == "null"@,
{
}

/// The input of a start is an object, and names its host session from then on; nothing else in it
/// changes.
pub proof fn law_starts_are_prepared(
    session: &str,
    input: &serde_json::Value,
    r: Result<serde_json::Value, HookError>,
    key: Seq<char>,
)
    requires
        call_ensures(prepare, (session, input), r),
    ensures
        r is Ok <==> valid_id(session@) && content(*input) is Object,
        !valid_id(session@) ==> r is Err && r->Err_0 is InvalidIdentifier,
        valid_id(session@) && content(*input) !is Object ==> r is Err && r->Err_0 is StartInput,
        r matches Ok(prepared) ==> text_member(content(prepared), "host_session_id"@) == Some(
            session@,
        ) && (key != "host_session_id"@ ==> member(content(prepared), key) == member(
            content(*input),
            key,
        )),
{
}

/// A read is acknowledged with the receipt in its response, for the session in its input; without a
/// receipt there is nothing to acknowledge.
pub proof fn law_what_is_acknowledged(
    input: &serde_json::Value,
    response: serde_json::Value,
    r: Result<Option<Acknowledgement>, HookError>,
)
    requires
        call_ensures(acknowledgement, (input, response), r),
    ensures
        ({
            let inner = unwrapped(content(response), 5);
            let session = text_member(content(*input), "session_id"@);
            &&& inner is Err ==> r is Err
            &&& inner matches Ok(json) ==> match text_member(json, "receipt"@) {
                None => r is Ok && r->Ok_0 is None,
                Some(receipt) => match session {
                    None => r is Err && r->Err_0 is ReadInput,
                    Some(id) => r is Ok && r->Ok_0 is Some && r->Ok_0->0.receipt@ == receipt
                        && r->Ok_0->0.session_id@ == id,
                },
            }
        }),
{
}

/// The owner of a session is found in the first record that names it.
pub proof fn law_owners_are_found_by_name(
    records: &Vec<Ownership>,
    session: &str,
    r: Option<usize>,
    i: int,
)
    requires
        call_ensures(find_owner, (records, session), r),
        0 <= i < records@.len(),
        records@[i].session_id@ == session@,
    ensures
        r matches Some(at) && at <= i && records@[at as int].session_id@ == session@,
{
}

/// An owner accepts a request by `true` under `ok` alone; otherwise its error is the reason. Cleaning
/// up succeeds where nothing went wrong, and otherwise says all that did.
pub proof fn law_what_is_accepted(
    answer: &serde_json::Value,
    r: Result<(), HookError>,
    errors: &Vec<String>,
    cleaned: Result<(), HookError>,
)
    requires
        call_ensures(check_control, (answer,), r),
        call_ensures(cleanup_result, (errors,), cleaned),
    ensures
        r is Ok <==> member(content(*answer), "ok"@) == Some(Json::Bool(true)),
        r is Err ==> (r->Err_0 matches HookError::Rejected(reason) && reason@ == reason_text(
            member(content(*answer), "error"@),
        )),
        cleaned is Ok <==> errors@.len() == 0,
        cleaned is Err ==> (cleaned->Err_0 matches HookError::Cleanup(all) && all@ == joined(
            texts(errors@),
            ", "@,
        )),
{
}

/// Every failure of a hook says what failed.
pub proof fn law_hook_errors_in_words(error: &HookError, text: String)
    requires
        call_ensures(HookError::describe, (error,), text),
    ensures
        *error matches HookError::InvalidIdentifier ==> text@ == "invalid identifier"@,
        *error matches HookError::StartInput ==> text@ == "start input must be an object"@,
        *error matches HookError::ReadInput ==> text@ == "read input has no session_id"@,
        *error matches HookError::UnsupportedResponse ==> text@ == "unsupported MCP response shape"@,
        *error matches HookError::MalformedResponse(message) ==> text@ == message@,
        *error matches HookError::Rejected(reason) ==> text@ == "control request rejected: "@ + reason@,
        *error matches HookError::Cleanup(errors) ==> text@ == "PTY cleanup failed: "@ + errors@,
{
}

} // verus!
