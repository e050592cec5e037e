use vstd::prelude::*;

verus! {

use vstd::string::StrSliceExecFns;

/// The persisted entity: a human-readable title (the natural key) and a
/// free-form lifecycle state. Specifications see an item as the pair of its
/// two character sequences.
#[derive(Debug, PartialEq, Eq)]
pub struct Item {
    pub title: String,
    pub state: String,
}

impl View for Item {
    type V = (Seq<char>, Seq<char>);

    open spec fn view(&self) -> (Seq<char>, Seq<char>) {
        (self.title@, self.state@)
    }
}

/// The rows that a vector of items stands for, in order.
pub open spec fn items_view(items: Seq<Item>) -> Seq<(Seq<char>, Seq<char>)> {
    items.map_values(|it: Item| it@)
}

/// Character-for-character string comparison, proved against the string views.
pub fn str_eq(a: &str, b: &str) -> (r: bool)
    ensures
        r == (a@ == b@),
{
    let na = a.unicode_len();
    let nb = b.unicode_len();
    if na != nb {
        return false;
    }
    for i in 0..na
        invariant
            na == a@.len(),
            na == b@.len(),
            forall|j: int| 0 <= j < i ==> a@[j] == b@[j],
    {
        if a.get_char(i) != b.get_char(i) {
            return false;
        }
    }
    proof {
        assert(a@ =~= b@);
    }
    true
}

} // verus!
