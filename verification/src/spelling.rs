//! How the parts of a type are put together into text.

use crate::text::{decimal_string, join};
use crate::types::{CallMultiplicity, CallMutation};
use vstd::prelude::*;
use vstd::string::*;

verus! {

/// A name with its type arguments, if there are any.
pub fn applied_string(name: &String, parts: &Vec<String>) -> (s: String)
    ensures
        s@ == crate::term::applied(name@, parts.deep_view()),
{
    if parts.len() == 0 {
        name.clone()
    } else {
        let mut s = name.clone();
        s.append("<");
        s.append(join(parts, ", ").as_str());
        s.append(">");
        s
    }
}

/// The fields between braces, after an opening text.
pub fn fields_string<T>(open: &str, fields: &Vec<(String, T)>, parts: &Vec<String>) -> (s: String)
    requires
        fields@.len() == parts@.len(),
    ensures
        s@ == open@ + crate::text::joined(
            crate::term::labelled(crate::types::labels_of(fields@), parts.deep_view()),
            ", "@,
        ) + " }"@,
{
    let mut items: Vec<String> = Vec::new();
    let mut i: usize = 0;
    let ghost want = crate::term::labelled(crate::types::labels_of(fields@), parts.deep_view());
    while i < parts.len()
        invariant
            i <= parts.len(),
            fields@.len() == parts@.len(),
            want == crate::term::labelled(crate::types::labels_of(fields@), parts.deep_view()),
            items@.len() == i,
            forall|j: int| 0 <= j < i ==> (#[trigger] items@[j])@ == want[j],
        decreases parts.len() - i,
    {
        let mut item = fields[i].0.clone();
        item.append(": ");
        item.append(parts[i].as_str());
        items.push(item);
        i += 1;
    }
    proof {
        assert(items.deep_view() =~= want);
    }
    let mut s = open.to_owned();
    s.append(join(&items, ", ").as_str());
    s.append(" }");
    s
}

/// A sized array of elements that are written `item`.
pub fn sized_array_string(item: &String, n: u64) -> (s: String)
    ensures
        s@ == "["@ + item@ + "; "@ + crate::text::decimal(n as nat) + "]"@,
{
    let mut s = "[".to_owned();
    s.append(item.as_str());
    s.append("; ");
    s.append(decimal_string(n as u128).as_str());
    s.append("]");
    s
}

/// A function type, from its parameters and result as they are written.
pub fn fun_string(
    call: CallMultiplicity,
    mutation: CallMutation,
    params: &Vec<String>,
    ret: &String,
) -> (s: String)
    ensures
        s@ == (if call == CallMultiplicity::Once {
            "once "@
        } else {
            Seq::empty()
        }) + (if mutation == CallMutation::Mutating {
            "var "@
        } else {
            Seq::empty()
        }) + "|"@ + crate::text::joined(params.deep_view(), ", "@) + "| -> "@ + ret@,
{
    let mut s = if call == CallMultiplicity::Once {
        "once ".to_owned()
    } else {
        String::new()
    };
    if mutation == CallMutation::Mutating {
        s.append("var ");
    } else {
        s.append("");
        proof {
            reveal_strlit("");
            assert(""@ =~= Seq::<char>::empty());
        }
    }
    s.append("|");
    s.append(join(params, ", ").as_str());
    s.append("| -> ");
    s.append(ret.as_str());
    s
}

/// `open` followed by the parts with commas between them, then `close`.
pub fn list_string(open: &str, parts: &Vec<String>, close: &str) -> (s: String)
    ensures
        s@ == open@ + crate::text::joined(parts.deep_view(), ", "@) + close@,
{
    let mut s = open.to_owned();
    s.append(join(parts, ", ").as_str());
    s.append(close);
    s
}

/// Two texts one after the other.
pub fn concat(a: &str, b: &str) -> (s: String)
    ensures
        s@ == a@ + b@,
{
    let mut s = a.to_owned();
    s.append(b);
    s
}

} // verus!
