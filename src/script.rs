//! The script endpoint's logic: choosing a language from the declared
//! content type, and the status and body of the answer.

use crate::runtime::{joined, supported_languages, RuntimeError, ScriptType};
use vstd::prelude::*;

verus! {

/// The content type that selects JavaScript; an absent one selects it too.
pub open spec fn javascript_type() -> Seq<char> {
    "application/javascript"@
}

/// Builds the script for a declared content type: JavaScript for
/// `application/javascript` or an empty type, else a `UserError` that names
/// the supported languages, comma-joined.
pub fn dispatch(content_type: &str, script: String) -> (r: Result<ScriptType, RuntimeError>)
    ensures
        content_type@.len() == 0 || content_type@ == javascript_type() ==> (r matches Ok(
            ScriptType::JavaScript(s),
        ) && s@ == script@),
        !(content_type@.len() == 0 || content_type@ == javascript_type()) ==> (r matches Err(
            RuntimeError::UserError(m),
        ) && m@ == joined(supported_languages(), ", "@)),
{
    let declared = String::from_str(content_type);
    let javascript = String::from_str("application/javascript");
    if content_type.is_empty() || declared == javascript {
        Ok(ScriptType::JavaScript(script))
    } else {
        Err(RuntimeError::UserError(ScriptType::available_list()))
    }
}

/// The status and body of the answer to a script request: 200 with the
/// result, else the error's status with its message.
pub fn script_reply(result: Result<String, RuntimeError>) -> (r: (u16, String))
    ensures
        match result {
            Ok(s) => r.0 == 200 && r.1@ == s@,
            Err(RuntimeError::UserError(m)) => r.0 == 400 && r.1@ == m@,
            Err(RuntimeError::InternalError(m)) => r.0 == 500 && r.1@ == m@,
        },
{
    match result {
        Ok(s) => (200, s),
        Err(e) => {
            let status = e.status();
            match e {
                RuntimeError::UserError(m) => (status, m),
                RuntimeError::InternalError(m) => (status, m),
            }
        },
    }
}

/// The body of a rejection for an unsupported content type lists exactly the
/// supported language identifiers: today the one `javascript`.
pub proof fn lemma_rejection_lists_languages()
    ensures
        joined(supported_languages(), ", "@) == "javascript"@,
        supported_languages() == seq!["javascript"@],
{
}

} // verus!
