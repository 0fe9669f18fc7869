//! The purpose a magic link was issued for, and its text form
//! `"<kind>$<payload>"`.
use vstd::prelude::*;
use vstd::slice::slice_subrange;
use vstd::slice::slice_to_vec;
use crate::error::{ErrorResponse, ErrorResponseType};
use crate::text::{chars_of, clone_opt, first_index_of, is_first, string_of, text_is};

verus! {

/// What a magic link may be used for.
#[derive(Debug, Clone, PartialEq)]
pub enum MagicLinkUsage {
    /// Confirms a change to the given new address.
    EmailChange(String),
    /// Resets a password, optionally redirecting afterwards.
    PasswordReset(Option<String>),
    /// Finishes a registration, optionally redirecting afterwards.
    NewUser(Option<String>),
}

/// The abstract value of a [`MagicLinkUsage`].
pub enum UsageModel {
    EmailChange(Seq<char>),
    PasswordReset(Option<Seq<char>>),
    NewUser(Option<Seq<char>>),
}

pub open spec fn opt_text(o: Option<String>) -> Option<Seq<char>> {
    match o {
        Some(s) => Some(s@),
        None => None,
    }
}

impl View for MagicLinkUsage {
    type V = UsageModel;

    open spec fn view(&self) -> UsageModel {
        match self {
            MagicLinkUsage::EmailChange(e) => UsageModel::EmailChange(e@),
            MagicLinkUsage::PasswordReset(r) => UsageModel::PasswordReset(opt_text(*r)),
            MagicLinkUsage::NewUser(r) => UsageModel::NewUser(opt_text(*r)),
        }
    }
}

/// A kind name followed by `$` and the payload.
pub open spec fn with_payload(kind: Seq<char>, payload: Seq<char>) -> Seq<char> {
    kind + "$"@ + payload
}

/// The text form: an absent payload leaves out the delimiter as well.
pub open spec fn usage_text(u: UsageModel) -> Seq<char> {
    match u {
        UsageModel::EmailChange(e) => with_payload("email_change"@, e),
        UsageModel::PasswordReset(Some(r)) => with_payload("password_reset"@, r),
        UsageModel::PasswordReset(None) => "password_reset"@,
        UsageModel::NewUser(Some(r)) => with_payload("new_user"@, r),
        UsageModel::NewUser(None) => "new_user"@,
    }
}

/// The part before the first `$`, or all of `s` where there is none.
pub open spec fn kind_part(s: Seq<char>) -> Seq<char> {
    if exists|i: int| is_first(s, '$', i) {
        s.subrange(0, choose|i: int| is_first(s, '$', i))
    } else {
        s
    }
}

/// The part after the first `$`, or nothing where there is none.
pub open spec fn payload_part(s: Seq<char>) -> Seq<char> {
    if exists|i: int| is_first(s, '$', i) {
        s.subrange((choose|i: int| is_first(s, '$', i)) + 1, s.len() as int)
    } else {
        Seq::empty()
    }
}

pub open spec fn nonempty(p: Seq<char>) -> Option<Seq<char>> {
    if p.len() > 0 {
        Some(p)
    } else {
        None
    }
}

/// The usage that a text names, if any.
pub open spec fn parse_usage(s: Seq<char>) -> Option<UsageModel> {
    let kind = kind_part(s);
    let payload = payload_part(s);
    if kind == "email_change"@ {
        Some(UsageModel::EmailChange(payload))
    } else if kind == "new_user"@ {
        Some(UsageModel::NewUser(nonempty(payload)))
    } else if kind == "password_reset"@ {
        Some(UsageModel::PasswordReset(nonempty(payload)))
    } else {
        None
    }
}

/// A usage whose optional payload, where present, is not empty: exactly
/// those survive a trip through the text form.
pub open spec fn usage_is_valid(u: UsageModel) -> bool {
    match u {
        UsageModel::EmailChange(_) => true,
        UsageModel::PasswordReset(r) => r is None || r->0.len() > 0,
        UsageModel::NewUser(r) => r is None || r->0.len() > 0,
    }
}

proof fn lemma_first_dollar_after(kind: Seq<char>, payload: Seq<char>)
    requires
        forall|j: int| 0 <= j < kind.len() ==> kind[j] != '$',
    ensures
        kind_part(with_payload(kind, payload)) == kind,
        payload_part(with_payload(kind, payload)) == payload,
{
    let s = with_payload(kind, payload);
    reveal_strlit("$");
    assert(is_first(s, '$', kind.len() as int));
    let c = choose|i: int| is_first(s, '$', i);
    assert(c == kind.len());
    assert(s.subrange(0, kind.len() as int) =~= kind);
    assert(s.subrange(kind.len() + 1int, s.len() as int) =~= payload);
}

proof fn lemma_no_dollar(s: Seq<char>)
    requires
        forall|j: int| 0 <= j < s.len() ==> s[j] != '$',
    ensures
        kind_part(s) == s,
        payload_part(s) == Seq::<char>::empty(),
{
}

/// Reading back the text form of a valid usage gives the same usage.
pub proof fn lemma_usage_round_trip(u: UsageModel)
    requires
        usage_is_valid(u),
    ensures
        parse_usage(usage_text(u)) == Some(u),
{
    reveal_strlit("email_change");
    reveal_strlit("new_user");
    reveal_strlit("password_reset");
    match u {
        UsageModel::EmailChange(e) => {
            lemma_first_dollar_after("email_change"@, e);
        },
        UsageModel::PasswordReset(Some(r)) => {
            lemma_first_dollar_after("password_reset"@, r);
        },
        UsageModel::PasswordReset(None) => {
            lemma_no_dollar("password_reset"@);
        },
        UsageModel::NewUser(Some(r)) => {
            lemma_first_dollar_after("new_user"@, r);
        },
        UsageModel::NewUser(None) => {
            lemma_no_dollar("new_user"@);
        },
    }
}

fn joined(kind: &str, payload: &str) -> (r: String)
    ensures
        r@ == with_payload(kind@, payload@),
{
    kind.to_owned().concat("$").concat(payload)
}

impl MagicLinkUsage {
    /// A copy of this usage.
    pub fn duplicate(&self) -> (r: MagicLinkUsage)
        ensures
            r == *self,
    {
        match self {
            MagicLinkUsage::EmailChange(e) => MagicLinkUsage::EmailChange(e.clone()),
            MagicLinkUsage::PasswordReset(r) => MagicLinkUsage::PasswordReset(clone_opt(r)),
            MagicLinkUsage::NewUser(r) => MagicLinkUsage::NewUser(clone_opt(r)),
        }
    }

    /// The text form `"<kind>$<payload>"`, or `"<kind>"` without a payload.
    pub fn to_string(&self) -> (r: String)
        ensures
            r@ == usage_text(self@),
    {
        match self {
            MagicLinkUsage::EmailChange(email) => joined("email_change", email.as_str()),
            MagicLinkUsage::NewUser(Some(uri)) => joined("new_user", uri.as_str()),
            MagicLinkUsage::NewUser(None) => "new_user".to_owned(),
            MagicLinkUsage::PasswordReset(Some(uri)) => joined("password_reset", uri.as_str()),
            MagicLinkUsage::PasswordReset(None) => "password_reset".to_owned(),
        }
    }

    /// Reads the text form; a text that names no known kind is a bad request.
    pub fn parse(value: &str) -> (r: Result<MagicLinkUsage, ErrorResponse>)
        ensures
            match r {
                Ok(u) => parse_usage(value@) == Some(u@),
                Err(e) => parse_usage(value@) is None && e.error == ErrorResponseType::BadRequest,
            },
    {
        let chars = chars_of(value);
        let cut = first_index_of(chars.as_slice(), '$');
        let kind = slice_subrange(chars.as_slice(), 0, cut);
        let payload: Vec<char> = if cut < chars.len() {
            slice_to_vec(slice_subrange(chars.as_slice(), cut + 1, chars.len()))
        } else {
            Vec::new()
        };
        proof {
            if cut < chars@.len() {
                let c = choose|i: int| is_first(value@, '$', i);
                assert(c == cut);
            } else {
                assert(kind@ =~= value@);
            }
            assert(kind@ == kind_part(value@));
            assert(payload@ =~= payload_part(value@));
        }
        let payload_str = string_of(&payload);
        if text_is(kind, "email_change") {
            Ok(MagicLinkUsage::EmailChange(payload_str))
        } else if text_is(kind, "new_user") {
            if payload.len() > 0 {
                Ok(MagicLinkUsage::NewUser(Some(payload_str)))
            } else {
                Ok(MagicLinkUsage::NewUser(None))
            }
        } else if text_is(kind, "password_reset") {
            if payload.len() > 0 {
                Ok(MagicLinkUsage::PasswordReset(Some(payload_str)))
            } else {
                Ok(MagicLinkUsage::PasswordReset(None))
            }
        } else {
            Err(
                ErrorResponse::new(
                    ErrorResponseType::BadRequest,
                    "Invalid string for MagicLinkUsage parsing",
                ),
            )
        }
    }

    /// Whether a usage text names the email-change kind, whatever its payload.
    pub fn names_email_change(value: &str) -> (r: bool)
        ensures
            r == (kind_part(value@) == "email_change"@),
            r <==> parse_usage(value@) matches Some(UsageModel::EmailChange(_)),
    {
        let chars = chars_of(value);
        let cut = first_index_of(chars.as_slice(), '$');
        let kind = slice_subrange(chars.as_slice(), 0, cut);
        proof {
            reveal_strlit("email_change");
            reveal_strlit("new_user");
            reveal_strlit("password_reset");
            if cut < chars@.len() {
                let c = choose|i: int| is_first(value@, '$', i);
                assert(c == cut);
            } else {
                assert(kind@ =~= value@);
            }
            assert(kind@ == kind_part(value@));
        }
        text_is(kind, "email_change")
    }

    /// [`MagicLinkUsage::parse`] on an owned string.
    pub fn try_from(value: &String) -> (r: Result<MagicLinkUsage, ErrorResponse>)
        ensures
            match r {
                Ok(u) => parse_usage(value@) == Some(u@),
                Err(e) => parse_usage(value@) is None && e.error == ErrorResponseType::BadRequest,
            },
    {
        MagicLinkUsage::parse(value.as_str())
    }
}

} // verus!
