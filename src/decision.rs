//! Decisions recorded by a human editor for obsolete markup, looked up by element id.
use vstd::prelude::*;
use crate::text::same_text;

verus! {

/// How a `<strike>` element is to be replaced.
#[derive(Debug, Clone, Copy, PartialEq, Eq, Structural)]
pub enum StrikeFix {
    S,
    Del,
}

/// How a `<tt>` element is to be replaced.
#[derive(Debug, Clone, Copy, PartialEq, Eq, Structural)]
pub enum TeeTeeFix {
    Code,
    Kbd,
    Samp,
    Var,
    Mono,
}

/// A recorded decision for the element with the given id.
#[derive(Debug, Clone)]
pub enum Decision {
    Strike { id: String, fix: StrikeFix },
    TeeTee { id: String, fix: TeeTeeFix },
}

/// The kind of element a decision is for.
#[derive(Debug, Clone, Copy, PartialEq, Eq, Structural)]
pub enum Kind {
    Strike,
    TeeTee,
}

/// `d` is a decision of kind `kind` for the element `id`.
pub open spec fn decides(d: Decision, id: Seq<char>, kind: Kind) -> bool {
    match d {
        Decision::Strike { id: d_id, .. } => kind == Kind::Strike && d_id@ == id,
        Decision::TeeTee { id: d_id, .. } => kind == Kind::TeeTee && d_id@ == id,
    }
}

/// The first decision of kind `kind` for the element `id`.
pub fn find_decision<'a>(decisions: &'a [Decision], id: &str, kind: Kind) -> (r: Option<&'a Decision>)
    ensures
        match r {
            Some(d) => exists|i: int|
                0 <= i < decisions@.len() && decisions@[i] == *d && decides(*d, id@, kind)
                    && forall|j: int| 0 <= j < i ==> !decides(#[trigger] decisions@[j], id@, kind),
            None => forall|i: int| 0 <= i < decisions@.len() ==> !decides(#[trigger] decisions@[i], id@, kind),
        },
{
    let mut i: usize = 0;
    while i < decisions.len()
        invariant
            i <= decisions@.len(),
            forall|j: int| 0 <= j < i ==> !decides(#[trigger] decisions@[j], id@, kind),
        decreases decisions.len() - i,
    {
        let decision = &decisions[i];
        let hit = match decision {
            Decision::Strike { id: d_id, .. } => kind == Kind::Strike && same_text(d_id.as_str(), id),
            Decision::TeeTee { id: d_id, .. } => kind == Kind::TeeTee && same_text(d_id.as_str(), id),
        };
        if hit {
            return Some(decision);
        }
        i = i + 1;
    }
    None
}

} // verus!
