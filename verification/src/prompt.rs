//! The prompt store's decisions: which built-in system prompt belongs to an
//! operation, under which file name a customized prompt is looked up, and
//! how a stored prompt and the built-in default are reconciled. Reading and
//! writing the prompt files themselves is the caller's concern.
use vstd::prelude::*;
use vstd::string::*;

use crate::text::str_eq;

verus! {

broadcast use vstd::string::group_string_axioms;

/// The built-in system prompt for a named operation; unknown operations get
/// the generic assistant prompt.
pub fn default_prompt_for(operation: &str) -> (r: String)
    ensures
        operation@ == "summarize"@ ==> r@
            == "You are a precise summarizer. Summarize the following text concisely."@,
        operation@ == "fix_grammar"@ ==> r@
            == "You are a copy editor. Fix the grammar and spelling of the following text. Output ONLY the fixed text."@,
        operation@ == "beautify"@ ==> r@
            == "You are a text polisher. Improve the flow and tone of the text to be more professional and engaging. Output ONLY the improved text."@,
        operation@ == "expand"@ ==> r@
            == "You are a helpful assistant. Complete the user's thought or define the term provided in the input(Include the input in the output). Provide relevant details, context, and elaboration that directly follows the input. Do not start a new story; continue or explain the existing text."@,
        operation@ != "summarize"@ && operation@ != "fix_grammar"@ && operation@ != "beautify"@
            && operation@ != "expand"@ ==> r@ == "You are a helpful assistant."@,
{
    proof {
        reveal_strlit("summarize");
        reveal_strlit("fix_grammar");
        reveal_strlit("beautify");
        reveal_strlit("expand");
        assert("summarize"@.len() == 9);
        assert("fix_grammar"@.len() == 11);
        assert("beautify"@.len() == 8);
        assert("expand"@.len() == 6);
    }
    if str_eq(operation, "summarize") {
        String::from_str("You are a precise summarizer. Summarize the following text concisely.")
    } else if str_eq(operation, "fix_grammar") {
        String::from_str(
            "You are a copy editor. Fix the grammar and spelling of the following text. Output ONLY the fixed text.",
        )
    } else if str_eq(operation, "beautify") {
        String::from_str(
            "You are a text polisher. Improve the flow and tone of the text to be more professional and engaging. Output ONLY the improved text.",
        )
    } else if str_eq(operation, "expand") {
        String::from_str(
            "You are a helpful assistant. Complete the user's thought or define the term provided in the input(Include the input in the output). Provide relevant details, context, and elaboration that directly follows the input. Do not start a new story; continue or explain the existing text.",
        )
    } else {
        String::from_str("You are a helpful assistant.")
    }
}

/// The file a customized prompt for `operation` lives in.
pub fn prompt_file_name(operation: &str) -> (r: String)
    ensures
        r@ == operation@ + ".txt"@,
{
    let mut s = String::from_str(operation);
    s.append(".txt");
    s
}

/// Reconciles a stored prompt with the built-in default: a stored prompt is
/// authoritative and nothing is written; with none stored, the default is
/// both returned and handed back for persisting. The second component is
/// what the caller must write to the store, if anything.
pub fn resolve_prompt(stored: Option<String>, default_text: &str) -> (r: (String, Option<String>))
    ensures
        stored matches Some(s) ==> (r.0 == s && r.1 is None),
        stored is None ==> r.0@ == default_text@ && (r.1 matches Some(w) && w@ == default_text@),
{
    match stored {
        Some(s) => (s, None),
        None => (String::from_str(default_text), Some(String::from_str(default_text))),
    }
}

} // verus!
