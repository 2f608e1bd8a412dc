//! The text of the user-facing diagnostics: one final success or failure
//! line, plain or as a JSON record. Printing, timestamps and the panic hook
//! live in the surrounding program; this module only builds the messages.
use vstd::prelude::*;

verus! {

/// The plain final line of a run.
pub open spec fn spec_result_line(
    is_success: bool,
    input: Seq<char>,
    output: Seq<char>,
) -> Seq<char> {
    if is_success {
        "Everything worked as expected, \""@ + output + "\" generated from \""@ + input
            + "\""@
    } else {
        "An error occured, \""@ + output + "\" file has not been created from \""@ + input
            + "\""@
    }
}

/// Builds the plain final line of a run.
pub fn result_line(is_success: bool, input: &str, output: &str) -> (r: String)
    ensures
        r@ == spec_result_line(is_success, input@, output@),
{
    if is_success {
        let mut r = String::from_str("Everything worked as expected, \"");
        r.append(output);
        r.append("\" generated from \"");
        r.append(input);
        r.append("\"");
        r
    } else {
        let mut r = String::from_str("An error occured, \"");
        r.append(output);
        r.append("\" file has not been created from \"");
        r.append(input);
        r.append("\"");
        r
    }
}

/// The JSON record closing a run: its status, the input and output paths,
/// and the working directory, already rendered as text.
pub open spec fn spec_json_result_record(
    is_success: bool,
    input: Seq<char>,
    output: Seq<char>,
    pwd: Seq<char>,
) -> Seq<char> {
    "    {\n      \"Compilation result\": {\n        \"status\": \""@ + (if is_success {
        "SUCCESS"@
    } else {
        "FAILURE"@
    }) + "\",\n        \"from\": \""@ + input + "\",\n        \"to\": \""@ + output
        + "\",\n        \"pwd\": \""@ + pwd + "\"\n      }\n    }\n  ]\n}"@
}

/// Builds the JSON record closing a run.
pub fn json_result_record(is_success: bool, input: &str, output: &str, pwd: &str) -> (r: String)
    ensures
        r@ == spec_json_result_record(is_success, input@, output@, pwd@),
{
    let mut r = String::from_str(
        "    {\n      \"Compilation result\": {\n        \"status\": \"",
    );
    if is_success {
        r.append("SUCCESS");
    } else {
        r.append("FAILURE");
    }
    r.append("\",\n        \"from\": \"");
    r.append(input);
    r.append("\",\n        \"to\": \"");
    r.append(output);
    r.append("\",\n        \"pwd\": \"");
    r.append(pwd);
    r.append("\"\n      }\n    }\n  ]\n}");
    r
}

/// The JSON opener of a run's log, around a pre-rendered timestamp.
pub open spec fn spec_json_opener(time: Seq<char>) -> Seq<char> {
    "{\n  \"time\": \""@ + time + "\",\n  \"logs\": ["@
}

/// Builds the JSON opener of a run's log.
pub fn json_opener(time: &str) -> (r: String)
    ensures
        r@ == spec_json_opener(time@),
{
    let mut r = String::from_str("{\n  \"time\": \"");
    r.append(time);
    r.append("\",\n  \"logs\": [");
    r
}

/// One JSON log record: a status word and a message.
pub open spec fn spec_json_log_record(status: Seq<char>, message: Seq<char>) -> Seq<char> {
    "    {\n      \"status\": \""@ + status + "\",\n      \"message\": \""@ + message
        + "\"\n    },"@
}

/// Builds one JSON log record.
pub fn json_log_record(status: &str, message: &str) -> (r: String)
    ensures
        r@ == spec_json_log_record(status@, message@),
{
    let mut r = String::from_str("    {\n      \"status\": \"");
    r.append(status);
    r.append("\",\n      \"message\": \"");
    r.append(message);
    r.append("\"\n    },");
    r
}

/// The one-line message re-emitted for an intercepted unrecoverable fault,
/// with its source location when one is known.
pub open spec fn spec_panic_message(location: Seq<char>, payload: Seq<char>) -> Seq<char> {
    "The following unrecoverable error occured"@ + location + ": '"@ + payload + "'"@
}

/// Builds the message for an intercepted unrecoverable fault.
pub fn panic_message(location: &str, payload: &str) -> (r: String)
    ensures
        r@ == spec_panic_message(location@, payload@),
{
    let mut r = String::from_str("The following unrecoverable error occured");
    r.append(location);
    r.append(": '");
    r.append(payload);
    r.append("'");
    r
}

} // verus!
