//! What the screen says about the entity under the pointer.

use vstd::prelude::*;
use vstd::string::StringExecFns;

verus! {

/// A hint on what happens when an entity is picked.
#[derive(Clone, Debug)]
pub struct Hint {
    pub text: String,
}

impl Hint {
    /// The hint that reads `text`.
    pub fn new(text: &str) -> (h: Hint)
        ensures
            h.text@ == text@,
    {
        Hint { text: String::from_str(text) }
    }
}

/// `k` is the place in `hits` of the first pointer that has hit something.
pub open spec fn is_first_hit<T>(hits: Seq<Option<T>>, k: int) -> bool {
    &&& 0 <= k < hits.len()
    &&& hits[k].is_some()
    &&& forall|j: int| 0 <= j < k ==> hits[j].is_none()
}

/// The place of the first pointer that has hit something, if any has: only
/// that one is shown.
pub fn first_hit<T>(hits: &Vec<Option<T>>) -> (found: Option<usize>)
    ensures
        match found {
            Some(k) => is_first_hit(hits@, k as int),
            None => forall|j: int| 0 <= j < hits.len() ==> hits[j].is_none(),
        },
{
    let mut k: usize = 0;
    while k < hits.len()
        invariant
            0 <= k <= hits.len(),
            forall|j: int| 0 <= j < k ==> hits[j].is_none(),
        decreases hits.len() - k,
    {
        if hits[k].is_some() {
            return Some(k);
        }
        k = k + 1;
    }
    None
}

/// The label of a picked entity: its name, followed by its hint if it has
/// one, or `unknown` for an entity without a name.
pub open spec fn label(name: Option<Seq<char>>, hint: Option<Seq<char>>) -> Seq<char> {
    match name {
        Some(n) => match hint {
            Some(h) => n + " - "@ + h,
            None => n,
        },
        None => "unknown"@,
    }
}

/// The line on the screen: the label of what is looked at, or that nothing is.
pub open spec fn display(picked: Option<Seq<char>>) -> Seq<char> {
    match picked {
        Some(l) => "Looking at: "@ + l,
        None => "No entity picked"@,
    }
}

/// The label of a picked entity with the given name and hint.
pub fn picked_label(name: Option<&str>, hint: Option<&Hint>) -> (text: String)
    ensures
        text@ == label(
            match name {
                Some(n) => Some(n@),
                None => None,
            },
            match hint {
                Some(h) => Some(h.text@),
                None => None,
            },
        ),
{
    match name {
        Some(n) => {
            let mut text = String::from_str(n);
            match hint {
                Some(h) => {
                    text.append(" - ");
                    text.append(h.text.as_str());
                },
                None => {},
            }
            text
        },
        None => String::from_str("unknown"),
    }
}

/// The line on the screen for the label of the nearest picked entity, if any.
pub fn picking_display(picked: Option<&str>) -> (text: String)
    ensures
        text@ == display(
            match picked {
                Some(l) => Some(l@),
                None => None,
            },
        ),
{
    match picked {
        Some(l) => String::from_str("Looking at: ").concat(l),
        None => String::from_str("No entity picked"),
    }
}

} // verus!
