//! Magic links: single-use, purpose-typed links bound to a user, an optional
//! browser cookie and a CSRF token.
use vstd::prelude::*;
use crate::error::{ErrorResponse, ErrorResponseType};
use crate::store::{ids_unique, saturating, saturating_sum, StateBackend};
use crate::sys::{random_alphanumeric, unix_now};
use crate::text::{clone_opt, ends_with, is_suffix, same_text};
use crate::usage::{kind_part, parse_usage, usage_text, MagicLinkUsage, UsageModel};

verus! {

/// A durable magic link.
#[derive(Debug, Clone)]
pub struct MagicLink {
    pub id: String,
    pub user_id: String,
    pub csrf_token: String,
    /// The cookie value the link is bound to, once it is.
    pub cookie: Option<String>,
    /// Deadline in seconds since the Unix epoch.
    pub exp: i64,
    pub used: bool,
    /// The text form of a [`crate::usage::MagicLinkUsage`].
    pub usage: String,
}

impl MagicLink {
    /// A copy of this link.
    pub fn duplicate(&self) -> (r: MagicLink)
        ensures
            r == *self,
    {
        MagicLink {
            id: self.id.clone(),
            user_id: self.user_id.clone(),
            csrf_token: self.csrf_token.clone(),
            cookie: clone_opt(&self.cookie),
            exp: self.exp,
            used: self.used,
            usage: self.usage.clone(),
        }
    }

    /// Issues a link for `user_id` with fresh random id and CSRF token, valid
    /// for `lifetime_minutes` from now, and stores it.
    pub fn create(
        store: &mut StateBackend,
        user_id: String,
        lifetime_minutes: i64,
        usage: MagicLinkUsage,
    ) -> (r: Result<MagicLink, ErrorResponse>)
        requires
            old(store).wf(),
        ensures
            final(store).wf(),
            r matches Ok(l) ==> {
                &&& l.id@.len() == LINK_ID_LENGTH
                &&& l.csrf_token@.len() == CSRF_TOKEN_LENGTH
                &&& l.user_id == user_id
                &&& l.cookie is None
                &&& !l.used
                &&& l.usage@ == usage_text(usage@)
                &&& exists|now: i64| l.exp == #[trigger] saturating(now + saturating(lifetime_minutes * 60))
                &&& final(store).magic_links@ == old(store).magic_links@.push(l)
            },
            (forall|i: int| 0 <= i < old(store).magic_links@.len() ==> (#[trigger] old(store).magic_links@[i]).id@.len()
                != LINK_ID_LENGTH) ==> r is Ok,
            r matches Err(e) ==> {
                &&& e.error == ErrorResponseType::Internal
                &&& exists|i: int| 0 <= i < old(store).magic_links@.len() && (#[trigger] old(store).magic_links@[i]).id@.len()
                    == LINK_ID_LENGTH
                &&& final(store).magic_links@ == old(store).magic_links@
            },
            final(store).device_codes@ == old(store).device_codes@,
            final(store).events@ == old(store).events@,
            final(store).devices@ == old(store).devices@,
    {
        let id = random_alphanumeric(LINK_ID_LENGTH);
        let csrf_token = random_alphanumeric(CSRF_TOKEN_LENGTH);
        let now = unix_now();
        MagicLink::create_at(store, id, csrf_token, now, user_id, lifetime_minutes, usage)
    }

    /// Issues a link with the given id and CSRF token at time `now`. An id
    /// that is already taken is refused.
    pub fn create_at(
        store: &mut StateBackend,
        id: String,
        csrf_token: String,
        now: i64,
        user_id: String,
        lifetime_minutes: i64,
        usage: MagicLinkUsage,
    ) -> (r: Result<MagicLink, ErrorResponse>)
        requires
            old(store).wf(),
        ensures
            final(store).wf(),
            r is Ok <==> !id_taken(old(store).magic_links@, id@),
            r matches Ok(l) ==> {
                &&& l == (MagicLink {
                    id,
                    user_id,
                    csrf_token,
                    cookie: None,
                    exp: saturating(now + saturating(lifetime_minutes * 60)),
                    used: false,
                    usage: l.usage,
                })
                &&& l.usage@ == usage_text(usage@)
                &&& final(store).magic_links@ == old(store).magic_links@.push(l)
            },
            r matches Err(e) ==> e.error == ErrorResponseType::Internal
                && final(store).magic_links@ == old(store).magic_links@,
            final(store).replicated == old(store).replicated,
            final(store).leader == old(store).leader,
            final(store).device_codes@ == old(store).device_codes@,
            final(store).events@ == old(store).events@,
            final(store).devices@ == old(store).devices@,
    {
        if link_index(&store.magic_links, id.as_str()).is_some() {
            return Err(ErrorResponse::new(ErrorResponseType::Internal, "A magic link with this id exists already"));
        }
        let secs = if lifetime_minutes > i64::MAX / 60 {
            i64::MAX
        } else if lifetime_minutes < i64::MIN / 60 {
            i64::MIN
        } else {
            lifetime_minutes * 60
        };
        let exp = saturating_sum(now, secs);
        let link = MagicLink { id, user_id, csrf_token, cookie: None, exp, used: false, usage: usage.to_string() };
        let ghost s = store.magic_links@;
        store.magic_links.push(link.duplicate());
        proof {
            let t = store.magic_links@;
            assert(ids_unique(t)) by {
                assert forall|i: int, j: int| 0 <= i < j < t.len() implies t[i].id@ != t[j].id@ by {
                    if j == s.len() {
                        assert(t[i] == s[i]);
                    }
                }
            }
        }
        Ok(link)
    }

    /// The link with the given id.
    pub fn find(store: &StateBackend, id: &str) -> (r: Result<MagicLink, ErrorResponse>)
        requires
            store.wf(),
        ensures
            r is Ok <==> id_taken(store.magic_links@, id@),
            r matches Ok(l) ==> l.id@ == id@ && store.magic_links@.contains(l),
            r matches Err(e) ==> e.error == ErrorResponseType::NotFound,
    {
        match link_index(&store.magic_links, id) {
            Some(i) => Ok(store.magic_links[i].duplicate()),
            None => Err(ErrorResponse::new(ErrorResponseType::NotFound, "Magic link not found")),
        }
    }

    /// The first stored link of the given user.
    pub fn find_by_user(store: &StateBackend, user_id: &str) -> (r: Result<MagicLink, ErrorResponse>)
        requires
            store.wf(),
        ensures
            r is Ok <==> exists|i: int| 0 <= i < store.magic_links@.len() && (#[trigger] store.magic_links@[i]).user_id@ == user_id@,
            r matches Ok(l) ==> exists|i: int|
                0 <= i < store.magic_links@.len() && store.magic_links@[i] == l && l.user_id@ == user_id@
                    && forall|j: int| 0 <= j < i ==> (#[trigger] store.magic_links@[j]).user_id@ != user_id@,
            r matches Err(e) ==> e.error == ErrorResponseType::NotFound,
    {
        let mut i: usize = 0;
        while i < store.magic_links.len()
            invariant
                i <= store.magic_links@.len(),
                forall|j: int| 0 <= j < i ==> (#[trigger] store.magic_links@[j]).user_id@ != user_id@,
            decreases store.magic_links.len() - i,
        {
            if same_text(store.magic_links[i].user_id.as_str(), user_id) {
                return Ok(store.magic_links[i].duplicate());
            }
            i = i + 1;
        }
        Err(ErrorResponse::new(ErrorResponseType::NotFound, "Magic link not found"))
    }

    /// Deletes every unused email-change link of `user_id`, so that a newer
    /// request leaves no older one valid. Other links stay, in order.
    pub fn invalidate_all_email_change(store: &mut StateBackend, user_id: &str) -> (r: Result<(), ErrorResponse>)
        requires
            old(store).wf(),
        ensures
            final(store).wf(),
            r is Ok,
            final(store).magic_links@ == retained(old(store).magic_links@, user_id@),
            final(store).replicated == old(store).replicated,
            final(store).leader == old(store).leader,
            final(store).device_codes@ == old(store).device_codes@,
            final(store).events@ == old(store).events@,
            final(store).devices@ == old(store).devices@,
    {
        let ghost s = store.magic_links@;
        let mut kept: Vec<MagicLink> = Vec::new();
        let mut i: usize = 0;
        while i < store.magic_links.len()
            invariant
                s == store.magic_links@,
                ids_unique(s),
                i <= s.len(),
                kept@ == retained(s.subrange(0, i as int), user_id@),
                ids_unique(kept@),
                forall|k: int| 0 <= k < kept@.len() ==> exists|j: int| 0 <= j < i && s[j] == #[trigger] kept@[k],
            decreases s.len() - i,
        {
            let row = &store.magic_links[i];
            assert(s.subrange(0, i + 1).drop_last() =~= s.subrange(0, i as int));
            if !is_superseded(row, user_id) {
                let ghost before = kept@;
                kept.push(row.duplicate());
                proof {
                    assert forall|a: int, b: int| 0 <= a < b < kept@.len() implies kept@[a].id@ != kept@[b].id@ by {
                        if b == before.len() {
                            let j = choose|j: int| 0 <= j < i && s[j] == before[a];
                            assert(s[j].id@ != s[i as int].id@);
                        }
                    }
                    assert forall|k: int| 0 <= k < kept@.len() implies exists|j: int| 0 <= j < i + 1 && s[j] == #[trigger] kept@[k] by {
                        if k == before.len() {
                            assert(s[i as int] == kept@[k]);
                        } else {
                            let j = choose|j: int| 0 <= j < i && s[j] == before[k];
                            assert(s[j] == kept@[k]);
                        }
                    }
                }
            }
            i = i + 1;
        }
        assert(s.subrange(0, s.len() as int) =~= s);
        store.magic_links = kept;
        Ok(())
    }

    /// Writes back the mutable fields (`cookie`, `exp`, `used`) of the
    /// stored link with this id; the identifying fields never change.
    pub fn save(&self, store: &mut StateBackend) -> (r: Result<(), ErrorResponse>)
        requires
            old(store).wf(),
        ensures
            final(store).wf(),
            r is Ok,
            final(store).magic_links@ == old(store).magic_links@.map_values(|l: MagicLink| saved(l, *self)),
            final(store).replicated == old(store).replicated,
            final(store).leader == old(store).leader,
            final(store).device_codes@ == old(store).device_codes@,
            final(store).events@ == old(store).events@,
            final(store).devices@ == old(store).devices@,
    {
        let ghost s = store.magic_links@;
        let mut i: usize = 0;
        while i < store.magic_links.len()
            invariant
                store.magic_links@.len() == s.len(),
                i <= s.len(),
                forall|j: int| 0 <= j < i ==> store.magic_links@[j] == saved(s[j], *self),
                forall|j: int| i <= j < s.len() ==> store.magic_links@[j] == s[j],
                store.replicated == old(store).replicated,
                store.leader == old(store).leader,
                store.device_codes@ == old(store).device_codes@,
                store.events@ == old(store).events@,
                store.devices@ == old(store).devices@,
            decreases s.len() - i,
        {
            if same_text(store.magic_links[i].id.as_str(), self.id.as_str()) {
                let old_row = store.magic_links[i].duplicate();
                let row = MagicLink {
                    cookie: clone_opt(&self.cookie),
                    exp: self.exp,
                    used: self.used,
                    ..old_row
                };
                store.magic_links.set(i, row);
            }
            i = i + 1;
        }
        proof {
            let t = store.magic_links@;
            assert(t =~= s.map_values(|l: MagicLink| saved(l, *self)));
            assert(ids_unique(t)) by {
                assert forall|a: int, b: int| 0 <= a < b < t.len() implies t[a].id@ != t[b].id@ by {
                    assert(s[a].id@ != s[b].id@);
                }
            }
        }
        Ok(())
    }

    /// Revokes the link by moving its deadline into the past, and stores it.
    pub fn invalidate(&mut self, store: &mut StateBackend) -> (r: Result<(), ErrorResponse>)
        requires
            old(store).wf(),
        ensures
            final(store).wf(),
            r is Ok,
            *final(self) == (MagicLink { exp: final(self).exp, ..*old(self) }),
            exists|now: i64| final(self).exp == #[trigger] saturating(now - 10),
            final(store).magic_links@ == old(store).magic_links@.map_values(|l: MagicLink| saved(l, *final(self))),
            final(store).device_codes@ == old(store).device_codes@,
            final(store).events@ == old(store).events@,
            final(store).devices@ == old(store).devices@,
    {
        let now = unix_now();
        self.invalidate_at(store, now)
    }

    /// Revokes the link at time `now`: its deadline becomes ten seconds
    /// before `now`, and it is stored.
    pub fn invalidate_at(&mut self, store: &mut StateBackend, now: i64) -> (r: Result<(), ErrorResponse>)
        requires
            old(store).wf(),
        ensures
            final(store).wf(),
            r is Ok,
            *final(self) == (MagicLink { exp: saturating(now - 10), ..*old(self) }),
            final(store).magic_links@ == old(store).magic_links@.map_values(|l: MagicLink| saved(l, *final(self))),
            final(store).replicated == old(store).replicated,
            final(store).leader == old(store).leader,
            final(store).device_codes@ == old(store).device_codes@,
            final(store).events@ == old(store).events@,
            final(store).devices@ == old(store).devices@,
    {
        self.exp = saturating_sum(now, -10);
        self.save(store)
    }

    /// Checks a request against this link now; see [`MagicLink::validate_at`].
    pub fn validate(&self, user_id: &str, req: &RequestContext, with_csrf: bool, cookie_binding: bool) -> (r: Result<
        (),
        ErrorResponse,
    >)
        ensures
            r matches Err(e) ==> exists|now: i64| #[trigger] rejection(*self, user_id@, *req, with_csrf, cookie_binding, now) == Some(
                rejection_of(e),
            ),
            r matches Err(e) ==> e.error == rejection_type(rejection_of(e)) && e.message@ == rejection_message(
                rejection_of(e),
            ),
            r is Ok ==> exists|now: i64| #[trigger] rejection(*self, user_id@, *req, with_csrf, cookie_binding, now) is None,
    {
        let now = unix_now();
        self.validate_at(user_id, req, with_csrf, cookie_binding, now)
    }

    /// Checks, in this order, that a request may use this link at time `now`:
    /// a bound cookie must end the request's cookie (unless `cookie_binding`
    /// is off), the CSRF header must equal the token (if `with_csrf`), the
    /// user must own the link, the deadline must not have passed, and the
    /// link must be unused. The first failing check decides the error.
    pub fn validate_at(
        &self,
        user_id: &str,
        req: &RequestContext,
        with_csrf: bool,
        cookie_binding: bool,
        now: i64,
    ) -> (r: Result<(), ErrorResponse>)
        ensures
            r is Ok <==> rejection(*self, user_id@, *req, with_csrf, cookie_binding, now) is None,
            r matches Err(e) ==> {
                let why = rejection(*self, user_id@, *req, with_csrf, cookie_binding, now)->0;
                &&& e.error == rejection_type(why)
                &&& e.message@ == rejection_message(why)
                &&& rejection_of(e) == why
            },
    {
        match self.first_rejection(user_id, req, with_csrf, cookie_binding, now) {
            Some(why) => Err(rejection_error(why)),
            None => Ok(()),
        }
    }

    fn first_rejection(
        &self,
        user_id: &str,
        req: &RequestContext,
        with_csrf: bool,
        cookie_binding: bool,
        now: i64,
    ) -> (r: Option<LinkRejection>)
        ensures
            r == rejection(*self, user_id@, *req, with_csrf, cookie_binding, now),
    {
        if let Some(bound) = &self.cookie {
            let matches = match &req.cookie {
                Some(cookie) => ends_with(cookie.as_str(), bound.as_str()),
                None => false,
            };
            if !matches && cookie_binding {
                return Some(LinkRejection::CookieMismatch);
            }
        }
        if with_csrf {
            match &req.csrf_token {
                None => {
                    return Some(LinkRejection::CsrfMissing);
                },
                Some(token) => {
                    if !same_text(self.csrf_token.as_str(), token.as_str()) {
                        return Some(LinkRejection::CsrfInvalid);
                    }
                },
            }
        }
        if !same_text(self.user_id.as_str(), user_id) {
            return Some(LinkRejection::WrongUser);
        }
        if self.exp < now {
            return Some(LinkRejection::Expired);
        }
        if self.used {
            return Some(LinkRejection::AlreadyUsed);
        }
        None
    }

    /// Uses the stored link `id` at time `now`: it is checked as
    /// [`MagicLink::validate_at`] does and, if it passes, marked used in the
    /// store in the same step, so a second use is refused.
    pub fn redeem(
        store: &mut StateBackend,
        id: &str,
        user_id: &str,
        req: &RequestContext,
        with_csrf: bool,
        cookie_binding: bool,
        now: i64,
    ) -> (r: Result<MagicLink, ErrorResponse>)
        requires
            old(store).wf(),
        ensures
            final(store).wf(),
            !id_taken(old(store).magic_links@, id@) ==> (r matches Err(e) && e.error == ErrorResponseType::NotFound
                && final(store).magic_links@ == old(store).magic_links@),
            forall|i: int| 0 <= i < old(store).magic_links@.len() && (#[trigger] old(store).magic_links@[i]).id@ == id@ ==> {
                let l = old(store).magic_links@[i];
                let why = rejection(l, user_id@, *req, with_csrf, cookie_binding, now);
                &&& why is None ==> r == Ok::<MagicLink, ErrorResponse>(MagicLink { used: true, ..l })
                    && final(store).magic_links@ == old(store).magic_links@.update(i, MagicLink { used: true, ..l })
                &&& why is Some ==> (r matches Err(e) && rejection_of(e) == why->0
                    && final(store).magic_links@ == old(store).magic_links@)
            },
            final(store).device_codes@ == old(store).device_codes@,
            final(store).events@ == old(store).events@,
            final(store).devices@ == old(store).devices@,
    {
        let idx = link_index(&store.magic_links, id);
        match idx {
            None => Err(ErrorResponse::new(ErrorResponseType::NotFound, "Magic link not found")),
            Some(i) => {
                let mut link = store.magic_links[i].duplicate();
                proof {
                    let s = old(store).magic_links@;
                    assert forall|j: int| 0 <= j < s.len() && s[j].id@ == id@ implies j == i by {
                        if j < i {
                            assert(s[j].id@ != s[i as int].id@);
                        } else if j > i {
                            assert(s[i as int].id@ != s[j].id@);
                        }
                    }
                }
                match link.validate_at(user_id, req, with_csrf, cookie_binding, now) {
                    Err(e) => Err(e),
                    Ok(()) => {
                        link.used = true;
                        let ghost s = store.magic_links@;
                        store.magic_links.set(i, link.duplicate());
                        proof {
                            let t = store.magic_links@;
                            assert(ids_unique(t)) by {
                                assert forall|a: int, b: int| 0 <= a < b < t.len() implies t[a].id@ != t[b].id@ by {
                                    assert(s[a].id@ != s[b].id@);
                                }
                            }
                        }
                        Ok(link)
                    },
                }
            },
        }
    }
}

/// Length of a link id.
pub const LINK_ID_LENGTH: usize = 64;

/// Length of a CSRF token.
pub const CSRF_TOKEN_LENGTH: usize = 48;

pub const COOKIE_MISMATCH: &'static str = "The requested password reset link is already tied to another session";
pub const CSRF_MISSING: &'static str = "CSRF Token is missing";
pub const CSRF_INVALID: &'static str = "Invalid CSRF Token";
pub const WRONG_USER: &'static str = "The user id is invalid";
pub const EXPIRED: &'static str = "This link has expired already";
pub const ALREADY_USED: &'static str = "The requested passwort reset link was already used";

/// What a request brings to a link check.
#[derive(Debug, Clone)]
pub struct RequestContext {
    /// The value of the request's binding cookie, if it sent one.
    pub cookie: Option<String>,
    /// The value of the request's CSRF header, if it sent one.
    pub csrf_token: Option<String>,
}

/// Why a link check failed.
#[derive(Debug, Clone, Copy, PartialEq, Eq, Structural)]
pub enum LinkRejection {
    CookieMismatch,
    CsrfMissing,
    CsrfInvalid,
    WrongUser,
    Expired,
    AlreadyUsed,
}

/// The first check that a request fails, if any.
pub open spec fn rejection(
    l: MagicLink,
    user_id: Seq<char>,
    req: RequestContext,
    with_csrf: bool,
    cookie_binding: bool,
    now: i64,
) -> Option<LinkRejection> {
    if l.cookie is Some && cookie_binding && !(req.cookie is Some && is_suffix(req.cookie->0@, l.cookie->0@)) {
        Some(LinkRejection::CookieMismatch)
    } else if with_csrf && req.csrf_token is None {
        Some(LinkRejection::CsrfMissing)
    } else if with_csrf && req.csrf_token->0@ != l.csrf_token@ {
        Some(LinkRejection::CsrfInvalid)
    } else if l.user_id@ != user_id {
        Some(LinkRejection::WrongUser)
    } else if l.exp < now {
        Some(LinkRejection::Expired)
    } else if l.used {
        Some(LinkRejection::AlreadyUsed)
    } else {
        None
    }
}

pub open spec fn rejection_type(why: LinkRejection) -> ErrorResponseType {
    match why {
        LinkRejection::CookieMismatch => ErrorResponseType::Forbidden,
        LinkRejection::CsrfMissing => ErrorResponseType::Unauthorized,
        LinkRejection::CsrfInvalid => ErrorResponseType::Unauthorized,
        LinkRejection::WrongUser => ErrorResponseType::Forbidden,
        _ => ErrorResponseType::BadRequest,
    }
}

pub open spec fn rejection_message(why: LinkRejection) -> Seq<char> {
    match why {
        LinkRejection::CookieMismatch => COOKIE_MISMATCH@,
        LinkRejection::CsrfMissing => CSRF_MISSING@,
        LinkRejection::CsrfInvalid => CSRF_INVALID@,
        LinkRejection::WrongUser => WRONG_USER@,
        LinkRejection::Expired => EXPIRED@,
        LinkRejection::AlreadyUsed => ALREADY_USED@,
    }
}

/// The check that an error of [`MagicLink::validate_at`] reports.
pub open spec fn rejection_of(e: ErrorResponse) -> LinkRejection {
    if e.message@ == COOKIE_MISMATCH@ {
        LinkRejection::CookieMismatch
    } else if e.message@ == CSRF_MISSING@ {
        LinkRejection::CsrfMissing
    } else if e.message@ == CSRF_INVALID@ {
        LinkRejection::CsrfInvalid
    } else if e.message@ == WRONG_USER@ {
        LinkRejection::WrongUser
    } else if e.message@ == EXPIRED@ {
        LinkRejection::Expired
    } else {
        LinkRejection::AlreadyUsed
    }
}

proof fn lemma_messages_distinct()
    ensures
        forall|a: LinkRejection, b: LinkRejection| a != b ==> #[trigger] rejection_message(a) != #[trigger] rejection_message(b),
        forall|e: ErrorResponse, a: LinkRejection| #![trigger rejection_of(e), rejection_message(a)] e.message@ == rejection_message(a) ==> rejection_of(e) == a,
{
    reveal_strlit("The requested password reset link is already tied to another session");
    reveal_strlit("CSRF Token is missing");
    reveal_strlit("Invalid CSRF Token");
    reveal_strlit("The user id is invalid");
    reveal_strlit("This link has expired already");
    reveal_strlit("The requested passwort reset link was already used");
    assert(COOKIE_MISMATCH@.len() == 68);
    assert(CSRF_MISSING@.len() == 21);
    assert(CSRF_INVALID@.len() == 18);
    assert(WRONG_USER@.len() == 22);
    assert(EXPIRED@.len() == 29);
    assert(ALREADY_USED@.len() == 50);
}

fn rejection_error(why: LinkRejection) -> (e: ErrorResponse)
    ensures
        e.error == rejection_type(why),
        e.message@ == rejection_message(why),
        rejection_of(e) == why,
{
    let e = match why {
        LinkRejection::CookieMismatch => ErrorResponse::new(ErrorResponseType::Forbidden, COOKIE_MISMATCH),
        LinkRejection::CsrfMissing => ErrorResponse::new(ErrorResponseType::Unauthorized, CSRF_MISSING),
        LinkRejection::CsrfInvalid => ErrorResponse::new(ErrorResponseType::Unauthorized, CSRF_INVALID),
        LinkRejection::WrongUser => ErrorResponse::new(ErrorResponseType::Forbidden, WRONG_USER),
        LinkRejection::Expired => ErrorResponse::new(ErrorResponseType::BadRequest, EXPIRED),
        LinkRejection::AlreadyUsed => ErrorResponse::new(ErrorResponseType::BadRequest, ALREADY_USED),
    };
    proof {
        lemma_messages_distinct();
        assert(e.message@ == rejection_message(why));
    }
    e
}

/// Some stored link has id `id`.
pub open spec fn id_taken(s: Seq<MagicLink>, id: Seq<char>) -> bool {
    exists|i: int| 0 <= i < s.len() && (#[trigger] s[i]).id@ == id
}

/// `l` after saving `m` over it: only a link with the same id changes, and
/// only in its mutable fields.
pub open spec fn saved(l: MagicLink, m: MagicLink) -> MagicLink {
    if l.id@ == m.id@ {
        MagicLink { cookie: m.cookie, exp: m.exp, used: m.used, ..l }
    } else {
        l
    }
}

/// An unused link of `user_id` whose usage names the email-change kind.
pub open spec fn superseded(l: MagicLink, user_id: Seq<char>) -> bool {
    l.user_id@ == user_id && kind_part(l.usage@) == "email_change"@ && !l.used
}

/// The links that survive [`MagicLink::invalidate_all_email_change`].
pub open spec fn retained(s: Seq<MagicLink>, user_id: Seq<char>) -> Seq<MagicLink>
    decreases s.len(),
{
    if s.len() == 0 {
        Seq::empty()
    } else {
        let rest = retained(s.drop_last(), user_id);
        if superseded(s.last(), user_id) {
            rest
        } else {
            rest.push(s.last())
        }
    }
}

fn is_superseded(l: &MagicLink, user_id: &str) -> (r: bool)
    ensures
        r == superseded(*l, user_id@),
{
    if l.used || !same_text(l.user_id.as_str(), user_id) {
        return false;
    }
    MagicLinkUsage::names_email_change(l.usage.as_str())
}

fn link_index(links: &Vec<MagicLink>, id: &str) -> (r: Option<usize>)
    ensures
        match r {
            Some(i) => i < links@.len() && links@[i as int].id@ == id@,
            None => !id_taken(links@, id@),
        },
{
    let mut i: usize = 0;
    while i < links.len()
        invariant
            i <= links@.len(),
            forall|j: int| 0 <= j < i ==> (#[trigger] links@[j]).id@ != id@,
        decreases links.len() - i,
    {
        if same_text(links[i].id.as_str(), id) {
            return Some(i);
        }
        i = i + 1;
    }
    None
}

/// After [`MagicLink::invalidate_all_email_change`] for `user_id`, no
/// unused link of that user reads as an email change, and every other link
/// is still there.
pub proof fn lemma_email_change_links_gone(s: Seq<MagicLink>, user_id: Seq<char>)
    ensures
        forall|k: int| 0 <= k < retained(s, user_id).len() ==> {
            let l = #[trigger] retained(s, user_id)[k];
            !(l.user_id@ == user_id && !l.used && parse_usage(l.usage@) matches Some(UsageModel::EmailChange(_)))
        },
        forall|j: int| 0 <= j < s.len() && !superseded(#[trigger] s[j], user_id) ==> retained(s, user_id).contains(s[j]),
    decreases s.len(),
{
    reveal_strlit("email_change");
    reveal_strlit("new_user");
    reveal_strlit("password_reset");
    if s.len() > 0 {
        lemma_email_change_links_gone(s.drop_last(), user_id);
        let rest = retained(s.drop_last(), user_id);
        assert forall|j: int| 0 <= j < s.len() && !superseded(#[trigger] s[j], user_id) implies retained(s, user_id).contains(s[j]) by {
            if j < s.len() - 1 {
                assert(s.drop_last()[j] == s[j]);
                let k = choose|k: int| 0 <= k < rest.len() && rest[k] == s[j];
                if !superseded(s.last(), user_id) {
                    assert(retained(s, user_id)[k] == s[j]);
                }
            } else {
                assert(retained(s, user_id)[rest.len() as int] == s[j]);
            }
        }
    }
}

/// A link created at `now` for `lifetime_minutes`, where that does not pass
/// the end of the `i64` range, expires exactly that many minutes later.
pub proof fn lemma_link_deadline(now: i64, lifetime_minutes: i64)
    requires
        0 <= lifetime_minutes,
        lifetime_minutes * 60 <= i64::MAX,
        now + lifetime_minutes * 60 <= i64::MAX,
    ensures
        saturating(now + saturating(lifetime_minutes * 60)) == now + lifetime_minutes * 60,
{
}

/// A link that passed every check is refused once it has been marked used,
/// all else unchanged.
pub proof fn lemma_used_link_rejected(
    l: MagicLink,
    user_id: Seq<char>,
    req: RequestContext,
    with_csrf: bool,
    cookie_binding: bool,
    now: i64,
)
    requires
        rejection(l, user_id, req, with_csrf, cookie_binding, now) is None,
    ensures
        rejection(MagicLink { used: true, ..l }, user_id, req, with_csrf, cookie_binding, now) == Some(
            LinkRejection::AlreadyUsed,
        ),
{
}

/// Index entry from a user to a password-reset link.
#[derive(Debug, Clone)]
pub struct IdxMagicLinkPasswordUser {
    pub user_id: String,
    pub id: String,
}

impl IdxMagicLinkPasswordUser {
    pub fn from_magic_link(ml: &MagicLink) -> (r: IdxMagicLinkPasswordUser)
        ensures
            r.user_id == ml.user_id,
            r.id == ml.id,
    {
        IdxMagicLinkPasswordUser { user_id: ml.user_id.clone(), id: ml.id.clone() }
    }
}

} // verus!
