//! Fields that may be written as one value or as a list of values.

use vstd::prelude::*;

verus! {

/// A field as it is written down: a single value, or a list of them.
#[derive(Debug, PartialEq, Eq)]
pub enum VecOrOne<T> {
    One(T),
    Vec(Vec<T>),
}

impl<T> VecOrOne<T> {
    /// The values that were written, in their order.
    pub open spec fn items(self) -> Seq<T> {
        match self {
            VecOrOne::One(value) => seq![value],
            VecOrOne::Vec(list) => list@,
        }
    }
}

/// The refusal of a list that holds nothing where at least one value is needed.
#[derive(Debug, Clone, Copy, PartialEq, Eq)]
pub struct EmptySequence;

impl EmptySequence {
    /// The refusal in words.
    pub fn message(&self) -> (text: String)
        ensures
            text@ == "cannot deserialize from an empty sequence"@,
    {
        "cannot deserialize from an empty sequence".to_string()
    }
}

/// Turns either form of a field into the list of its values, which is never
/// empty: a written list without values is refused.
pub fn vec_or_one<T>(value: VecOrOne<T>) -> (normal: Result<Vec<T>, EmptySequence>)
    ensures
        match normal {
            Ok(list) => list@ == value.items() && list@.len() >= 1,
            Err(_) => value.items().len() == 0,
        },
{
    let list = match value {
        VecOrOne::Vec(list) => list,
        VecOrOne::One(single) => {
            let mut list: Vec<T> = Vec::new();
            list.push(single);
            assert(list@ =~= seq![single]);
            list
        },
    };
    if list.len() == 0 {
        return Err(EmptySequence);
    }
    Ok(list)
}

/// A single value stands for the list that holds just that value: both forms
/// have the same items, and neither is refused.
pub proof fn lemma_one_is_singleton_list<T>(single: T, list: Vec<T>)
    requires
        list@ == seq![single],
    ensures
        VecOrOne::One(single).items() == VecOrOne::Vec(list).items(),
        VecOrOne::One(single).items().len() == 1,
{
}

/// A value is refused exactly when it is a written list without values.
pub proof fn lemma_refused_iff_empty_list<T>(value: VecOrOne<T>)
    ensures
        value.items().len() == 0 <==> (value matches VecOrOne::Vec(list) && list@.len() == 0),
{
}

} // verus!
