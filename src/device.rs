//! Device-authorization codes: issued to a device, verified by a user in a
//! browser, polled by the device and redeemed once.
use vstd::prelude::*;
use crate::error::ErrorResponse;
use crate::store::{entry_of, has_key, live_value, same_but, saturating, saturating_sum, CacheEntry, StateBackend};
use crate::sys::{random_alphanumeric, unix_now};
use crate::text::{clone_opt, is_prefix};

verus! {

/// Length of a device code.
pub const DEVICE_KEY_LENGTH: usize = 64;

/// Length of the user code, the leading part of a device code.
pub const USER_CODE_LENGTH: usize = 8;

/// A pending device-authorization grant. It lives in the cache only, keyed
/// by its user code.
#[derive(Debug, Clone)]
pub struct DeviceAuthCode {
    pub client_id: String,
    pub device_code: String,
    /// The user that verified the request, once one has.
    pub verified_by: Option<String>,
    /// Deadline in seconds since the Unix epoch, fixed at creation.
    pub exp: i64,
    /// Time of the latest poll, in seconds since the Unix epoch.
    pub last_poll: i64,
    pub scopes: Option<String>,
    pub client_secret: Option<String>,
    /// How often the client polled faster than allowed.
    pub warnings: u8,
}

/// The user code that belongs to a device code.
pub open spec fn user_code_of(device_code: Seq<char>) -> Seq<char> {
    device_code.subrange(0, USER_CODE_LENGTH as int)
}

impl DeviceAuthCode {
    /// A code whose user code can be taken.
    pub open spec fn wf(&self) -> bool {
        self.device_code@.len() > USER_CODE_LENGTH
    }

    /// A copy of this code.
    pub fn duplicate(&self) -> (r: DeviceAuthCode)
        ensures
            r == *self,
    {
        DeviceAuthCode {
            client_id: self.client_id.clone(),
            device_code: self.device_code.clone(),
            verified_by: clone_opt(&self.verified_by),
            exp: self.exp,
            last_poll: self.last_poll,
            scopes: clone_opt(&self.scopes),
            client_secret: clone_opt(&self.client_secret),
            warnings: self.warnings,
        }
    }

    /// The user code: the leading [`USER_CODE_LENGTH`] characters of the
    /// device code.
    pub fn user_code(&self) -> (r: &str)
        requires
            self.wf(),
        ensures
            r@ == user_code_of(self.device_code@),
    {
        self.device_code.as_str().substring_char(0, USER_CODE_LENGTH)
    }

    /// Where a user confirms a device.
    pub fn verification_uri(&self, pub_url: &str) -> (r: String)
        ensures
            r@ == pub_url@ + "/auth/v1/device"@,
    {
        pub_url.to_owned().concat("/auth/v1/device")
    }

    /// Where a user confirms this device, with the user code filled in.
    pub fn verification_uri_complete(&self, pub_url: &str) -> (r: String)
        requires
            self.wf(),
        ensures
            r@ == pub_url@ + "/auth/v1/device?code="@ + user_code_of(self.device_code@),
    {
        pub_url.to_owned().concat("/auth/v1/device?code=").concat(self.user_code())
    }

    /// Issues a code with a fresh random device code, valid for
    /// `lifetime_secs` from now, and stores it under its user code.
    pub fn new(
        store: &mut StateBackend,
        lifetime_secs: i64,
        scopes: Option<String>,
        client_id: String,
        client_secret: Option<String>,
    ) -> (r: Result<DeviceAuthCode, ErrorResponse>)
        requires
            old(store).wf(),
        ensures
            final(store).wf(),
            r is Ok,
            r matches Ok(c) ==> {
                &&& c.wf()
                &&& c.device_code@.len() == DEVICE_KEY_LENGTH
                &&& c.verified_by is None
                &&& c.client_id == client_id
                &&& c.scopes == scopes
                &&& c.client_secret == client_secret
                &&& c.warnings == 0
                &&& c.exp == saturating(c.last_poll + lifetime_secs)
                &&& has_key(final(store).device_codes@, user_code_of(c.device_code@))
                &&& entry_of(final(store).device_codes@, user_code_of(c.device_code@)).value == c
                &&& entry_of(final(store).device_codes@, user_code_of(c.device_code@)).expires == c.exp
                &&& same_but(final(store).device_codes@, old(store).device_codes@, user_code_of(c.device_code@))
            },
            final(store).magic_links@ == old(store).magic_links@,
            final(store).events@ == old(store).events@,
            final(store).devices@ == old(store).devices@,
    {
        let device_code = random_alphanumeric(DEVICE_KEY_LENGTH);
        let now = unix_now();
        Ok(DeviceAuthCode::new_at(store, device_code, now, lifetime_secs, scopes, client_id, client_secret))
    }

    /// Issues a code with the given device code at time `now`, valid for
    /// `lifetime_secs`, and stores it under its user code for as long.
    pub fn new_at(
        store: &mut StateBackend,
        device_code: String,
        now: i64,
        lifetime_secs: i64,
        scopes: Option<String>,
        client_id: String,
        client_secret: Option<String>,
    ) -> (r: DeviceAuthCode)
        requires
            old(store).wf(),
            device_code@.len() > USER_CODE_LENGTH,
        ensures
            final(store).wf(),
            r == (DeviceAuthCode {
                client_id,
                device_code,
                verified_by: None,
                exp: saturating(now + lifetime_secs),
                last_poll: now,
                scopes,
                client_secret,
                warnings: 0,
            }),
            r.wf(),
            has_key(final(store).device_codes@, user_code_of(device_code@)),
            entry_of(final(store).device_codes@, user_code_of(device_code@)) == (CacheEntry {
                key: entry_of(final(store).device_codes@, user_code_of(device_code@)).key,
                value: r,
                expires: saturating(now + lifetime_secs),
            }),
            same_but(final(store).device_codes@, old(store).device_codes@, user_code_of(device_code@)),
            final(store).replicated == old(store).replicated,
            final(store).leader == old(store).leader,
            final(store).magic_links@ == old(store).magic_links@,
            final(store).events@ == old(store).events@,
            final(store).devices@ == old(store).devices@,
    {
        let exp = saturating_sum(now, lifetime_secs);
        let slf = DeviceAuthCode {
            client_id,
            device_code,
            verified_by: None,
            exp,
            last_poll: now,
            scopes,
            client_secret,
            warnings: 0,
        };
        let key = slf.user_code().to_owned();
        store.cache_put(key, slf.duplicate(), lifetime_secs, now);
        slf
    }

    /// Looks a code up by its user code at time `now`. A code past its
    /// deadline is never returned: it is removed instead.
    pub fn find(store: &mut StateBackend, user_code: &str, now: i64) -> (r: Result<
        Option<DeviceAuthCode>,
        ErrorResponse,
    >)
        requires
            old(store).wf(),
        ensures
            final(store).wf(),
            r == Ok::<Option<DeviceAuthCode>, ErrorResponse>(find_result(old(store).device_codes@, user_code@, now)),
            r matches Ok(Some(_)) ==> final(store).device_codes@ == old(store).device_codes@,
            !has_key(old(store).device_codes@, user_code@) ==> final(store).device_codes@ == old(store).device_codes@,
            has_key(old(store).device_codes@, user_code@) && find_result(old(store).device_codes@, user_code@, now) is None
                ==> !has_key(final(store).device_codes@, user_code@),
            same_but(final(store).device_codes@, old(store).device_codes@, user_code@),
            final(store).replicated == old(store).replicated,
            final(store).leader == old(store).leader,
            final(store).magic_links@ == old(store).magic_links@,
            final(store).events@ == old(store).events@,
            final(store).devices@ == old(store).devices@,
    {
        match store.cache_get(user_code, now) {
            None => Ok(None),
            Some(slf) => {
                if slf.exp < now {
                    store.cache_delete(user_code);
                    Ok(None)
                } else {
                    Ok(Some(slf))
                }
            },
        }
    }

    /// Looks a code up by its device code: the same as [`DeviceAuthCode::find`]
    /// on its leading part. A text shorter than a user code finds nothing.
    pub fn find_by_device_code(store: &mut StateBackend, device_code: &str, now: i64) -> (r: Result<
        Option<DeviceAuthCode>,
        ErrorResponse,
    >)
        requires
            old(store).wf(),
        ensures
            final(store).wf(),
            r == Ok::<Option<DeviceAuthCode>, ErrorResponse>(
                by_device_code_result(old(store).device_codes@, device_code@, now),
            ),
            r matches Ok(Some(_)) ==> final(store).device_codes@ == old(store).device_codes@,
            device_code@.len() >= USER_CODE_LENGTH && !has_key(old(store).device_codes@, user_code_of(device_code@))
                ==> final(store).device_codes@ == old(store).device_codes@,
            device_code@.len() >= USER_CODE_LENGTH && has_key(old(store).device_codes@, user_code_of(device_code@))
                && by_device_code_result(old(store).device_codes@, device_code@, now) is None
                ==> !has_key(final(store).device_codes@, user_code_of(device_code@)),
            device_code@.len() >= USER_CODE_LENGTH ==> same_but(
                final(store).device_codes@,
                old(store).device_codes@,
                user_code_of(device_code@),
            ),
            device_code@.len() < USER_CODE_LENGTH ==> final(store).device_codes@ == old(store).device_codes@,
            final(store).magic_links@ == old(store).magic_links@,
            final(store).events@ == old(store).events@,
            final(store).devices@ == old(store).devices@,
    {
        if device_code.unicode_len() < USER_CODE_LENGTH {
            return Ok(None);
        }
        let key = device_code.substring_char(0, USER_CODE_LENGTH);
        assert(key@ == user_code_of(device_code@));
        DeviceAuthCode::find(store, key, now)
    }

    /// Removes this code from the cache.
    pub fn delete(&self, store: &mut StateBackend) -> (r: Result<(), ErrorResponse>)
        requires
            old(store).wf(),
            self.wf(),
        ensures
            final(store).wf(),
            r is Ok,
            !has_key(final(store).device_codes@, user_code_of(self.device_code@)),
            same_but(final(store).device_codes@, old(store).device_codes@, user_code_of(self.device_code@)),
            final(store).magic_links@ == old(store).magic_links@,
            final(store).events@ == old(store).events@,
            final(store).devices@ == old(store).devices@,
    {
        store.cache_delete(self.user_code());
        Ok(())
    }

    /// Writes this code back under its user code, readable for `ttl_secs`
    /// from `now`. The deadline `exp` stays as it is.
    pub fn save(&self, store: &mut StateBackend, ttl_secs: i64, now: i64) -> (r: Result<(), ErrorResponse>)
        requires
            old(store).wf(),
            self.wf(),
        ensures
            final(store).wf(),
            r is Ok,
            has_key(final(store).device_codes@, user_code_of(self.device_code@)),
            entry_of(final(store).device_codes@, user_code_of(self.device_code@)).value == *self,
            entry_of(final(store).device_codes@, user_code_of(self.device_code@)).expires == saturating(now + ttl_secs),
            same_but(final(store).device_codes@, old(store).device_codes@, user_code_of(self.device_code@)),
            final(store).magic_links@ == old(store).magic_links@,
            final(store).events@ == old(store).events@,
            final(store).devices@ == old(store).devices@,
    {
        let key = self.user_code().to_owned();
        store.cache_put(key, self.duplicate(), ttl_secs, now);
        Ok(())
    }

    /// Records that `user_id` confirmed the request. The deadline does not
    /// move.
    pub fn verify(&mut self, user_id: String)
        ensures
            *final(self) == (DeviceAuthCode { verified_by: Some(user_id), ..*old(self) }),
    {
        self.verified_by = Some(user_id);
    }

    /// A poll by the device at time `now`, where polls must be at least
    /// `interval_secs` apart. Polling too fast counts a warning (up to the
    /// largest count); otherwise the answer says whether a user has
    /// confirmed yet. Either way the poll time is recorded.
    pub fn poll(&mut self, now: i64, interval_secs: i64) -> (r: DevicePoll)
        ensures
            r == poll_outcome(*old(self), now, interval_secs),
            *final(self) == (DeviceAuthCode {
                last_poll: now,
                warnings: if r == DevicePoll::SlowDown && old(self).warnings < u8::MAX {
                    (old(self).warnings + 1) as u8
                } else {
                    old(self).warnings
                },
                ..*old(self)
            }),
    {
        let next = saturating_sum(self.last_poll, interval_secs);
        let r = if now < next {
            if self.warnings < u8::MAX {
                self.warnings = self.warnings + 1;
            }
            DevicePoll::SlowDown
        } else if self.verified_by.is_some() {
            DevicePoll::Ready
        } else {
            DevicePoll::Pending
        };
        self.last_poll = now;
        r
    }
}

/// What a polling device is told.
#[derive(Debug, Clone, Copy, PartialEq, Eq, Structural)]
pub enum DevicePoll {
    /// Polled sooner than allowed.
    SlowDown,
    /// No user has confirmed yet.
    Pending,
    /// A user confirmed; the code may be redeemed.
    Ready,
}

pub open spec fn poll_outcome(c: DeviceAuthCode, now: i64, interval_secs: i64) -> DevicePoll {
    if now < saturating(c.last_poll + interval_secs) {
        DevicePoll::SlowDown
    } else if c.verified_by is Some {
        DevicePoll::Ready
    } else {
        DevicePoll::Pending
    }
}

/// What a lookup by user code at time `now` returns.
pub open spec fn find_result(codes: Seq<CacheEntry>, user_code: Seq<char>, now: i64) -> Option<DeviceAuthCode> {
    match live_value(codes, user_code, now) {
        Some(c) => if c.exp < now {
            None
        } else {
            Some(c)
        },
        None => None,
    }
}

/// What a lookup by device code at time `now` returns.
pub open spec fn by_device_code_result(codes: Seq<CacheEntry>, device_code: Seq<char>, now: i64) -> Option<DeviceAuthCode> {
    if device_code.len() < USER_CODE_LENGTH {
        None
    } else {
        find_result(codes, user_code_of(device_code), now)
    }
}

/// The user code of a well-formed code is a strict prefix of its device
/// code, and looking a code up by its device code finds what looking it up
/// by that prefix finds.
pub proof fn lemma_user_code_prefix(c: DeviceAuthCode, codes: Seq<CacheEntry>, now: i64)
    requires
        c.wf(),
    ensures
        is_prefix(c.device_code@, user_code_of(c.device_code@)),
        user_code_of(c.device_code@).len() < c.device_code@.len(),
        by_device_code_result(codes, c.device_code@, now) == find_result(codes, user_code_of(c.device_code@), now),
{
}

/// A code stored under `user_code` with a cache lifetime that has not run
/// out is found as it was stored, as long as its deadline has not passed
/// either; so is a code saved again after a user confirmed it.
pub proof fn lemma_stored_code_found(codes: Seq<CacheEntry>, user_code: Seq<char>, now: i64)
    requires
        has_key(codes, user_code),
        now < entry_of(codes, user_code).expires,
        now <= entry_of(codes, user_code).value.exp,
    ensures
        find_result(codes, user_code, now) == Some(entry_of(codes, user_code).value),
{
}

/// A code issued at `now` for `lifetime_secs`, where that does not pass the
/// end of the `i64` range, has its deadline exactly `lifetime_secs` later.
/// Once a user confirmed it and it was saved again at `saved_at`, a lookup
/// at `t` before both the deadline and the new cache lifetime finds the
/// confirmed code with that same deadline.
pub proof fn lemma_confirmed_code_keeps_deadline(
    codes: Seq<CacheEntry>,
    c: DeviceAuthCode,
    user_id: String,
    now: i64,
    lifetime_secs: i64,
    saved_at: i64,
    ttl_secs: i64,
    t: i64,
)
    requires
        0 <= lifetime_secs,
        now + lifetime_secs <= i64::MAX,
        c.exp == saturating(now + lifetime_secs),
        has_key(codes, user_code_of(c.device_code@)),
        entry_of(codes, user_code_of(c.device_code@)).value == (DeviceAuthCode { verified_by: Some(user_id), ..c }),
        entry_of(codes, user_code_of(c.device_code@)).expires == saturating(saved_at + ttl_secs),
        saved_at <= t,
        t < saved_at + ttl_secs,
        saved_at + ttl_secs <= i64::MAX,
        t <= c.exp,
    ensures
        c.exp == now + lifetime_secs,
        find_result(codes, user_code_of(c.device_code@), t) == Some(DeviceAuthCode { verified_by: Some(user_id), ..c }),
{
}

/// After a code's deadline has passed, looking it up finds nothing and
/// leaves no entry under its user code.
pub proof fn lemma_expired_code_gone(codes: Seq<CacheEntry>, user_code: Seq<char>, now: i64)
    requires
        has_key(codes, user_code),
        entry_of(codes, user_code).value.exp < now,
    ensures
        find_result(codes, user_code, now) is None,
{
}

} // verus!
