//! The kinds of action that a run knows.

use vstd::prelude::*;
use crate::error::ErrorStruct;
use crate::error::ErrorView;
use crate::flow::names_view;
use crate::text::str_eq;

verus! {

/// The error of a step that asks for a kind of action that is not known.
pub open spec fn unsupported(kind: Seq<char>) -> ErrorView {
    ErrorView { code: "003"@, message: "unsupported action "@ + kind, cause: None }
}

/// Where the factory of a kind of action stands among the kinds that are
/// known; the first place, where the kind stands at several. A kind that is
/// not known is refused with the code `003`.
pub fn lookup(kinds: &Vec<String>, kind: &str) -> (r: Result<usize, ErrorStruct>)
    ensures
        match r {
            Ok(at) => position_of(names_view(kinds@), kind@) == Some(at as int) && at < kinds.len(),
            Err(e) => position_of(names_view(kinds@), kind@) is None && e@ == unsupported(kind@),
        },
{
    let ghost all = names_view(kinds@);
    let mut i: usize = 0;
    proof {
        assert(all.skip(0) =~= all);
    }
    while i < kinds.len()
        invariant
            i <= kinds.len(),
            all == names_view(kinds@),
            position_of(all, kind@) == shifted(position_of(all.skip(i as int), kind@), i as int),
        decreases kinds.len() - i,
    {
        proof {
            let rest = all.skip(i as int);
            assert(rest.first() == kinds@[i as int]@);
            assert(rest.drop_first() =~= all.skip(i as int + 1));
        }
        if str_eq(kinds[i].as_str(), kind) {
            return Ok(i);
        }
        i += 1;
    }
    let mut message = "unsupported action ".to_owned();
    message.append(kind);
    Err(ErrorStruct::new("003", message.as_str()))
}

/// A place, counted from `by` places further back.
pub open spec fn shifted(at: Option<int>, by: int) -> Option<int> {
    match at {
        Some(p) => Some(p + by),
        None => None,
    }
}

/// The first place of a name in a list.
pub open spec fn position_of(names: Seq<Seq<char>>, name: Seq<char>) -> Option<int>
    decreases names.len(),
{
    if names.len() == 0 {
        None
    } else if names.first() == name {
        Some(0)
    } else {
        shifted(position_of(names.drop_first(), name), 1)
    }
}

} // verus!
