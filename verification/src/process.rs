//! The decisions between parsing a source and answering with its semantic tree as JSON.
use crate::cst::CstNode;
use crate::normal_form::{
    equivalent, is_normal, law_equivalent_spellings, law_normal_is_fixed, law_normalized_is_normal,
};
use crate::normalize::{normalize_cst, normalized};
use vstd::prelude::*;

verus! {

/// What has just happened to the source.
#[derive(Debug)]
pub enum ProcessEvent {
    /// The source was parsed into a tree, or the reason why it was not.
    Parsed(Result<CstNode, String>),
    /// The tree was converted; the flag says whether there is a semantic tree.
    Converted(bool),
    /// The semantic tree was written as JSON, or the reason why it was not.
    Serialised(Result<String, String>),
}

/// What is to be done next.
#[derive(Debug)]
pub enum ProcessAction {
    /// Convert `root` to a semantic tree whose node ids begin with `id_prefix`.
    Convert { root: CstNode, id_prefix: String },
    /// Write the semantic tree as JSON.
    Serialise,
    /// Answer with this text.
    Answer(String),
}

/// The answer that reports `message` as an error.
pub open spec fn error_answer(message: Seq<char>) -> Seq<char> {
    "{\"error\":\""@ + message + "\"}"@
}

/// What follows from an event: a parsed tree is converted in its normal form, a semantic tree
/// is written as JSON, and the JSON is the answer. A failure is answered at once.
pub open spec fn follows(event: ProcessEvent, action: ProcessAction) -> bool {
    match event {
        ProcessEvent::Parsed(Ok(node)) => action matches ProcessAction::Convert { root, id_prefix }
            && root@ == normalized(node@) && id_prefix@ == "0"@,
        ProcessEvent::Parsed(Err(message)) => action matches ProcessAction::Answer(text) && text@
            == error_answer(message@),
        ProcessEvent::Converted(true) => action is Serialise,
        ProcessEvent::Converted(false) => action matches ProcessAction::Answer(text) && text@
            == error_answer("Empty semantic tree"@),
        ProcessEvent::Serialised(Ok(json)) => action matches ProcessAction::Answer(text) && text@
            == json@,
        ProcessEvent::Serialised(Err(message)) => action matches ProcessAction::Answer(text)
            && text@ == error_answer("Serialisation error: "@ + message@),
    }
}

/// The answer that reports `message` as an error.
pub fn error_json(message: &str) -> (r: String)
    ensures
        r@ == error_answer(message@),
{
    "{\"error\":\"".to_owned().concat(message).concat("\"}")
}

/// Decides what follows from an event.
pub fn process_step(event: ProcessEvent) -> (r: ProcessAction)
    ensures
        follows(event, r),
{
    match event {
        ProcessEvent::Parsed(Ok(node)) => {
            ProcessAction::Convert { root: normalize_cst(&node), id_prefix: "0".to_owned() }
        },
        ProcessEvent::Parsed(Err(message)) => ProcessAction::Answer(error_json(message.as_str())),
        ProcessEvent::Converted(found) => {
            if found {
                ProcessAction::Serialise
            } else {
                ProcessAction::Answer(error_json("Empty semantic tree"))
            }
        },
        ProcessEvent::Serialised(Ok(json)) => ProcessAction::Answer(json),
        ProcessEvent::Serialised(Err(message)) => {
            let text = "Serialisation error: ".to_owned().concat(message.as_str());
            ProcessAction::Answer(error_json(text.as_str()))
        },
    }
}

/// A text that may stand between the quotes of a JSON string as it is: no quote, no backslash
/// and no control character.
pub open spec fn needs_no_escape(text: Seq<char>) -> bool {
    forall|i: int|
        0 <= i < text.len() ==> (#[trigger] text[i]) != '"' && text[i] != '\\' && text[i] as u32
            >= 32
}

/// A JSON object with the one member `error`, a string.
pub open spec fn is_error_object(json: Seq<char>) -> bool {
    exists|message: Seq<char>|
        #[trigger] needs_no_escape(message) && json == "{\"error\":\""@ + message + "\"}"@
}

/// Law: a message that needs no escape is answered with a JSON object.
pub proof fn law_plain_message_is_answered_in_json(message: Seq<char>)
    requires
        needs_no_escape(message),
    ensures
        is_error_object(error_answer(message)),
{
}

/// Law: the failures that the library itself reports are answered with JSON objects.
pub proof fn law_own_failures_are_answered_in_json()
    ensures
        is_error_object(error_answer("Failed to load HTML grammar"@)),
        is_error_object(error_answer("Parse failed"@)),
        is_error_object(error_answer("Empty semantic tree"@)),
{
    reveal_strlit("Failed to load HTML grammar");
    reveal_strlit("Parse failed");
    reveal_strlit("Empty semantic tree");
    assert(needs_no_escape("Failed to load HTML grammar"@));
    assert(needs_no_escape("Parse failed"@));
    assert(needs_no_escape("Empty semantic tree"@));
}

/// Whether `event` reports on what `action` asked for.
pub open spec fn reports_on(event: ProcessEvent, action: ProcessAction) -> bool {
    match action {
        ProcessAction::Convert { .. } => event is Converted,
        ProcessAction::Serialise => event is Serialised,
        ProcessAction::Answer(_) => false,
    }
}

/// The number of actions that may still come before the answer.
pub open spec fn actions_left(event: ProcessEvent) -> nat {
    match event {
        ProcessEvent::Parsed(_) => 2,
        ProcessEvent::Converted(_) => 1,
        ProcessEvent::Serialised(_) => 0,
    }
}

/// Law: whatever comes of the actions, the answer gets nearer with each of them; where none is
/// left, it is given.
pub proof fn law_processing_ends(event: ProcessEvent, action: ProcessAction, next: ProcessEvent)
    requires
        follows(event, action),
    ensures
        reports_on(next, action) ==> actions_left(next) < actions_left(event),
        actions_left(event) == 0 ==> action is Answer,
{
}

/// Law: whatever tree was parsed, what is converted is its normal form, and in normal form.
pub proof fn law_normal_form_is_converted(node: CstNode, action: ProcessAction)
    requires
        follows(ProcessEvent::Parsed(Ok(node)), action),
    ensures
        action matches ProcessAction::Convert { root, id_prefix } && root@ == normalized(node@)
            && is_normal(root@) && id_prefix@ == seq!['0'],
{
    law_normalized_is_normal(node@);
    reveal_strlit("0");
    assert("0"@ =~= seq!['0']);
}

/// Law: equivalent spellings of a document are converted from one and the same tree.
pub proof fn law_equivalent_documents_are_converted_alike(
    a: CstNode,
    b: CstNode,
    first: ProcessAction,
    second: ProcessAction,
)
    requires
        equivalent(a@, b@),
        follows(ProcessEvent::Parsed(Ok(a)), first),
        follows(ProcessEvent::Parsed(Ok(b)), second),
    ensures
        first is Convert,
        second is Convert,
        first->root@ == second->root@,
        first->id_prefix@ == second->id_prefix@,
{
    law_equivalent_spellings(a@, b@);
}

/// Law: a tree that is converted would be converted as it is, were it parsed once more.
pub proof fn law_converted_tree_is_settled(
    node: CstNode,
    action: ProcessAction,
    again: ProcessAction,
)
    requires
        follows(ProcessEvent::Parsed(Ok(node)), action),
        action is Convert,
        follows(ProcessEvent::Parsed(Ok(action->root)), again),
    ensures
        again is Convert,
        again->root@ == action->root@,
{
    law_normalized_is_normal(node@);
    law_normal_is_fixed(action->root@);
}

/// Law: the message of an error answer can be read back from between its quotes.
pub proof fn law_error_message_is_read_back(message: Seq<char>)
    ensures
        error_answer(message).len() == message.len() + 12,
        error_answer(message).take(10) == seq!['{', '"', 'e', 'r', 'r', 'o', 'r', '"', ':', '"'],
        error_answer(message).subrange(10, message.len() as int + 10) == message,
        error_answer(message).skip(message.len() as int + 10) == seq!['"', '}'],
{
    reveal_strlit("{\"error\":\"");
    reveal_strlit("\"}");
    let answer = error_answer(message);
    assert(answer.take(10) =~= seq!['{', '"', 'e', 'r', 'r', 'o', 'r', '"', ':', '"']);
    assert(answer.subrange(10, message.len() as int + 10) =~= message);
    assert(answer.skip(message.len() as int + 10) =~= seq!['"', '}']);
}

/// Law: each failure is answered at once, with its own message.
pub proof fn law_failures_are_answered(event: ProcessEvent, action: ProcessAction)
    requires
        follows(event, action),
    ensures
        event matches ProcessEvent::Parsed(Err(message)) ==> action is Answer && action->0@
            == error_answer(message@),
        event == ProcessEvent::Converted(false) ==> action is Answer && action->0@ == error_answer(
            "Empty semantic tree"@,
        ),
        event matches ProcessEvent::Serialised(Err(message)) ==> action is Answer && action->0@
            == error_answer("Serialisation error: "@ + message@),
{
}

/// Law: a semantic tree is written as JSON, and the JSON is the answer as it was written.
pub proof fn law_success_is_passed_on(event: ProcessEvent, action: ProcessAction)
    requires
        follows(event, action),
    ensures
        event == ProcessEvent::Converted(true) ==> action is Serialise,
        event matches ProcessEvent::Serialised(Ok(json)) ==> action is Answer && action->0@
            == json@,
{
}

/// Law: what a step returns follows from its event, and an error answer is the one that reports the
/// message.
pub proof fn law_steps_follow(
    event: ProcessEvent,
    action: ProcessAction,
    message: &str,
    json: String,
)
    requires
        call_ensures(process_step, (event,), action),
        call_ensures(error_json, (message,), json),
    ensures
        follows(event, action),
        json@ == error_answer(message@),
{
}

} // verus!
