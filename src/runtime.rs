//! Scripts, the languages they may be written in, and what becomes of the
//! value that a script evaluates to.

use vstd::prelude::*;

verus! {

/// A script, tagged with its language, holding its source text.
pub enum ScriptType {
    JavaScript(String),
}

/// Why a script produced no result.
pub enum RuntimeError {
    /// The request was at fault: an unknown language, or a script that threw
    /// or whose value could not be serialised.
    UserError(String),
    /// The engine was at fault: it, a worker or a context could not be set up.
    InternalError(String),
}

/// The value a script evaluated to, by its runtime type.
pub enum ExecutionResult {
    Null,
    Undefined,
    /// A string, with its raw contents.
    Text(String),
    /// Any other value, as the engine's own `JSON.stringify` wrote it.
    Structured(String),
}

/// Where a script run failed.
pub enum EngineFailure {
    /// The process-wide engine could not be initialised.
    RuntimeSetup,
    /// The per-request worker could not be spawned.
    WorkerSetup,
    /// The execution context could not be created in the worker.
    ContextSetup,
    /// The script threw, or its value could not be stringified: the message.
    Script(String),
}

/// The identifiers of the languages scripts may be written in.
pub open spec fn supported_languages() -> Seq<Seq<char>> {
    seq!["javascript"@]
}

/// The parts joined into one text, `sep` between each two.
pub open spec fn joined(parts: Seq<Seq<char>>, sep: Seq<char>) -> Seq<char>
    decreases parts.len(),
{
    if parts.len() == 0 {
        Seq::empty()
    } else if parts.len() == 1 {
        parts[0]
    } else {
        joined(parts.drop_last(), sep) + sep + parts.last()
    }
}

/// The text of a marshalled result: the literal name of `null` and
/// `undefined`, a string's raw contents, else the stringified value.
pub open spec fn marshalled(r: ExecutionResult) -> Seq<char> {
    match r {
        ExecutionResult::Null => "null"@,
        ExecutionResult::Undefined => "undefined"@,
        ExecutionResult::Text(s) => s@,
        ExecutionResult::Structured(j) => j@,
    }
}

/// The message of an engine setup failure.
pub open spec fn setup_message(f: EngineFailure) -> Seq<char> {
    match f {
        EngineFailure::RuntimeSetup => "JavaScript Runtime initialization failed"@,
        EngineFailure::WorkerSetup => "JavaScript Worker initialization failed"@,
        _ => "JavaScript Context initialization failed"@,
    }
}

/// Joins the views of `parts`, `sep` between each two.
fn join(parts: &Vec<String>, sep: &str) -> (r: String)
    ensures
        r@ == joined(parts@.map_values(|p: String| p@), sep@),
{
    let ghost views = parts@.map_values(|p: String| p@);
    let mut r = String::new();
    let mut i: usize = 0;
    while i < parts.len()
        invariant
            i <= parts@.len(),
            views == parts@.map_values(|p: String| p@),
            r@ == joined(views.subrange(0, i as int), sep@),
        decreases parts@.len() - i,
    {
        let ghost before = r@;
        if i > 0 {
            r.append(sep);
        }
        r.append(parts[i].as_str());
        proof {
            let next = views.subrange(0, i + 1);
            assert(next.drop_last() =~= views.subrange(0, i as int));
            assert(next.last() == parts@[i as int]@);
            if i == 0 {
                assert(before =~= Seq::<char>::empty());
                assert(r@ =~= next[0]);
            }
        }
        i = i + 1;
    }
    assert(views.subrange(0, parts@.len() as int) =~= views);
    r
}

impl ScriptType {
    /// The identifiers of the supported languages.
    pub fn available() -> (r: Vec<String>)
        ensures
            r@.map_values(|p: String| p@) == supported_languages(),
    {
        let r = vec![String::from_str("javascript")];
        assert(r@.map_values(|p: String| p@) =~= supported_languages());
        r
    }

    /// The comma-joined list of supported languages.
    pub fn available_list() -> (r: String)
        ensures
            r@ == joined(supported_languages(), ", "@),
    {
        let langs = ScriptType::available();
        join(&langs, ", ")
    }

    /// The script's source text.
    pub fn source(&self) -> (r: &String)
        ensures
            match self {
                ScriptType::JavaScript(s) => r == s,
            },
    {
        match self {
            ScriptType::JavaScript(s) => s,
        }
    }

    /// The result of running this script, given what the engine made of it:
    /// the marshalled value, a `UserError` for a failure of the script, an
    /// `InternalError` for a failure to set the engine up.
    pub fn run(&self, outcome: Result<ExecutionResult, EngineFailure>) -> (r: Result<
        String,
        RuntimeError,
    >)
        ensures
            match outcome {
                Ok(v) => r matches Ok(s) && s@ == marshalled(v),
                Err(EngineFailure::Script(m)) => r matches Err(RuntimeError::UserError(e)) && e@
                    == m@,
                Err(f) => r matches Err(RuntimeError::InternalError(e)) && e@ == setup_message(f),
            },
    {
        match outcome {
            Ok(v) => Ok(marshal(v)),
            Err(f) => Err(classify_failure(f)),
        }
    }
}

/// Flattens a script's value into the text of a response body.
pub fn marshal(result: ExecutionResult) -> (r: String)
    ensures
        r@ == marshalled(result),
{
    match result {
        ExecutionResult::Null => String::from_str("null"),
        ExecutionResult::Undefined => String::from_str("undefined"),
        ExecutionResult::Text(s) => s,
        ExecutionResult::Structured(j) => j,
    }
}

/// The error a failed run reports: the script's own failures are the
/// user's, the engine's setup failures are internal.
pub fn classify_failure(f: EngineFailure) -> (r: RuntimeError)
    ensures
        match f {
            EngineFailure::Script(m) => r matches RuntimeError::UserError(e) && e@ == m@,
            _ => r matches RuntimeError::InternalError(e) && e@ == setup_message(f),
        },
{
    match f {
        EngineFailure::RuntimeSetup => RuntimeError::InternalError(
            String::from_str("JavaScript Runtime initialization failed"),
        ),
        EngineFailure::WorkerSetup => RuntimeError::InternalError(
            String::from_str("JavaScript Worker initialization failed"),
        ),
        EngineFailure::ContextSetup => RuntimeError::InternalError(
            String::from_str("JavaScript Context initialization failed"),
        ),
        EngineFailure::Script(m) => RuntimeError::UserError(m),
    }
}

impl RuntimeError {
    /// The HTTP status of the error: 400 for the user's, 500 for the engine's.
    pub fn status(&self) -> (r: u16)
        ensures
            r == (if self is UserError { 400u16 } else { 500u16 }),
    {
        match self {
            RuntimeError::UserError(_) => 400,
            RuntimeError::InternalError(_) => 500,
        }
    }

    /// The human-readable message.
    pub fn message(&self) -> (r: &String)
        ensures
            match self {
                RuntimeError::UserError(m) => r == m,
                RuntimeError::InternalError(m) => r == m,
            },
    {
        match self {
            RuntimeError::UserError(m) => m,
            RuntimeError::InternalError(m) => m,
        }
    }
}

} // verus!
