//! The dynamically typed value tree handed from a handler to the renderer:
//! a closed tagged union of strings, unsigned numbers, booleans, and ordered
//! key/value objects. Key order is insertion order and is significant.

use vstd::prelude::*;
use crate::text::u64_dec;
use crate::text::format_u64;
use crate::render::json_compact;
use crate::render::write_json_compact;

verus! {

pub enum Value {
    Text(String),
    Number(u64),
    Boolean(bool),
    Object(Vec<(String, Value)>),
}

/// The text of a value as `format_value` prints it: strings verbatim (no
/// quoting), booleans as `true`/`false`, numbers in plain decimal; any
/// other value falls back to its compact JSON text.
pub open spec fn scalar_text(v: Value) -> Seq<char> {
    match v {
        Value::Text(s) => s@,
        Value::Number(n) => u64_dec(n as nat),
        Value::Boolean(b) => if b {
            "true"@
        } else {
            "false"@
        },
        Value::Object(_) => json_compact(v),
    }
}

/// Formats a value as its scalar text, compact JSON for a non-scalar.
pub fn format_value(v: &Value) -> (s: String)
    ensures
        s@ == scalar_text(*v),
{
    match v {
        Value::Text(s) => s.clone(),
        Value::Number(n) => format_u64(*n),
        Value::Boolean(b) => {
            if *b {
                "true".to_owned()
            } else {
                "false".to_owned()
            }
        },
        Value::Object(_) => {
            let mut s = String::new();
            write_json_compact(v, &mut s);
            proof {
                assert(s@ =~= scalar_text(*v));
            }
            s
        },
    }
}

} // verus!
