//! Escaping of text for HTML.
use vstd::prelude::*;
use crate::text::{chars_of, push_all, string_of};

verus! {

/// `s` with every `<` written as `&lt;`.
pub open spec fn escaped(s: Seq<char>) -> Seq<char>
    decreases s.len(),
{
    if s.len() == 0 {
        Seq::empty()
    } else if s.last() == '<' {
        escaped(s.drop_last()) + "&lt;"@
    } else {
        escaped(s.drop_last()).push(s.last())
    }
}

/// Writes every `<` of `input` as `&lt;`.
pub fn escape(input: &str) -> (r: String)
    ensures
        r@ == escaped(input@),
{
    let chars = chars_of(input);
    let entity = chars_of("&lt;");
    let mut out: Vec<char> = Vec::new();
    let mut i: usize = 0;
    while i < chars.len()
        invariant
            chars@ == input@,
            entity@ == "&lt;"@,
            i <= chars@.len(),
            out@ == escaped(chars@.subrange(0, i as int)),
        decreases chars.len() - i,
    {
        assert(chars@.subrange(0, i + 1).drop_last() =~= chars@.subrange(0, i as int));
        if chars[i] == '<' {
            push_all(&mut out, entity.as_slice());
        } else {
            out.push(chars[i]);
        }
        i = i + 1;
    }
    assert(chars@.subrange(0, chars@.len() as int) =~= chars@);
    string_of(&out)
}

} // verus!
