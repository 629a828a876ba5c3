//! Descriptions of panics.

use vstd::prelude::*;

verus! {

/// Describes a panic. `message` is its payload if it's a text.
pub fn panic_to_string(message: Option<&str>) -> (res: String)
    ensures
        res@ == described(
            match message {
                Some(message) => Some(message@),
                None => None,
            },
        ),
{
    match message {
        Some(message) => {
            let mut res: String = "panic: ".to_owned();
            res.append(message);
            res
        },
        None => "panic: <unsupported payload>".to_owned(),
    }
}

pub open spec fn described(message: Option<Seq<char>>) -> Seq<char> {
    match message {
        Some(message) => "panic: "@ + message,
        None => "panic: <unsupported payload>"@,
    }
}

// === Laws ===

/// The payload is a part of the description, so different payloads are described
/// differently. A payload that isn't a text is described anyway.
pub proof fn payload_is_described(message: &str, a: String, b: String)
    requires
        call_ensures(panic_to_string, (Some(message),), a),
        call_ensures(panic_to_string, (None,), b),
    ensures
        a@.len() == 7 + message@.len(),
        a@.take(7) == "panic: "@,
        a@.skip(7) == message@,
        b@ == "panic: <unsupported payload>"@,
{
    reveal_strlit("panic: ");
    assert(a@.take(7) =~= "panic: "@);
    assert(a@.skip(7) =~= message@);
}

} // verus!
