//! Devices that completed a device-authorization grant and hold tokens.
use vstd::prelude::*;
use crate::error::{ErrorResponse, ErrorResponseType};
use crate::store::{device_ids_unique, saturating, saturating_sum, StateBackend};
use crate::sys::unix_now;
use crate::text::{clone_opt, same_text};

verus! {

/// A device with its token deadlines, in seconds since the Unix epoch.
#[derive(Debug, Clone)]
pub struct DeviceEntity {
    pub id: String,
    pub client_id: String,
    pub user_id: Option<String>,
    pub created: i64,
    pub access_exp: i64,
    pub refresh_exp: Option<i64>,
    pub peer_ip: String,
    pub name: String,
}

/// Which devices a bulk operation keeps.
pub enum DeviceFilter {
    /// Those of the given user.
    OwnedBy(Seq<char>),
    /// Those with a token that is still valid at the given time.
    Unexpired(i64),
    /// Those with another id.
    OtherThan(Seq<char>),
}

pub open spec fn expired_at(d: DeviceEntity, t: i64) -> bool {
    d.access_exp < t && (d.refresh_exp is None || d.refresh_exp->0 < t)
}

pub open spec fn filter_keeps(f: DeviceFilter, d: DeviceEntity) -> bool {
    match f {
        DeviceFilter::OwnedBy(u) => d.user_id is Some && d.user_id->0@ == u,
        DeviceFilter::Unexpired(t) => !expired_at(d, t),
        DeviceFilter::OtherThan(id) => d.id@ != id,
    }
}

/// The devices of `s` that `f` keeps, in order.
pub open spec fn retained_devices(s: Seq<DeviceEntity>, f: DeviceFilter) -> Seq<DeviceEntity>
    decreases s.len(),
{
    if s.len() == 0 {
        Seq::empty()
    } else {
        let rest = retained_devices(s.drop_last(), f);
        if filter_keeps(f, s.last()) {
            rest.push(s.last())
        } else {
            rest
        }
    }
}

/// Some device has id `id`.
pub open spec fn device_id_taken(s: Seq<DeviceEntity>, id: Seq<char>) -> bool {
    exists|i: int| 0 <= i < s.len() && (#[trigger] s[i]).id@ == id
}

/// `d` once the refresh token of device `id` is revoked.
pub open spec fn revoked(d: DeviceEntity, id: Seq<char>) -> DeviceEntity {
    if d.id@ == id {
        DeviceEntity { refresh_exp: None, ..d }
    } else {
        d
    }
}

enum DeviceQuery<'a> {
    OwnedBy(&'a str),
    Unexpired(i64),
    OtherThan(&'a str),
}

spec fn query_filter(q: DeviceQuery) -> DeviceFilter {
    match q {
        DeviceQuery::OwnedBy(u) => DeviceFilter::OwnedBy(u@),
        DeviceQuery::Unexpired(t) => DeviceFilter::Unexpired(t),
        DeviceQuery::OtherThan(id) => DeviceFilter::OtherThan(id@),
    }
}

fn query_keeps(q: &DeviceQuery, d: &DeviceEntity) -> (r: bool)
    ensures
        r == filter_keeps(query_filter(*q), *d),
{
    match q {
        DeviceQuery::OwnedBy(u) => match &d.user_id {
            Some(owner) => same_text(owner.as_str(), u),
            None => false,
        },
        DeviceQuery::Unexpired(t) => {
            let refresh_gone = match d.refresh_exp {
                Some(e) => e < *t,
                None => true,
            };
            !(d.access_exp < *t && refresh_gone)
        },
        DeviceQuery::OtherThan(id) => !same_text(d.id.as_str(), id),
    }
}

/// The devices that `q` keeps, as copies, in order.
fn filtered(devices: &Vec<DeviceEntity>, q: &DeviceQuery) -> (r: Vec<DeviceEntity>)
    requires
        device_ids_unique(devices@),
    ensures
        r@ == retained_devices(devices@, query_filter(*q)),
        device_ids_unique(r@),
{
    let ghost s = devices@;
    let mut kept: Vec<DeviceEntity> = Vec::new();
    let mut i: usize = 0;
    while i < devices.len()
        invariant
            s == devices@,
            device_ids_unique(s),
            i <= s.len(),
            kept@ == retained_devices(s.subrange(0, i as int), query_filter(*q)),
            device_ids_unique(kept@),
            forall|k: int| 0 <= k < kept@.len() ==> exists|j: int| 0 <= j < i && s[j] == #[trigger] kept@[k],
        decreases s.len() - i,
    {
        assert(s.subrange(0, i + 1).drop_last() =~= s.subrange(0, i as int));
        if query_keeps(q, &devices[i]) {
            let ghost before = kept@;
            kept.push(devices[i].duplicate());
            proof {
                assert forall|a: int, b: int| 0 <= a < b < kept@.len() implies kept@[a].id@ != kept@[b].id@ by {
                    if b == before.len() {
                        let j = choose|j: int| 0 <= j < i && s[j] == before[a];
                        assert(s[j].id@ != s[i as int].id@);
                    }
                }
                assert forall|k: int| 0 <= k < kept@.len() implies exists|j: int| 0 <= j < i + 1 && s[j] == #[trigger] kept@[k] by {
                    if k == before.len() {
                        assert(s[i as int] == kept@[k]);
                    } else {
                        let j = choose|j: int| 0 <= j < i && s[j] == before[k];
                        assert(s[j] == kept@[k]);
                    }
                }
            }
        }
        i = i + 1;
    }
    assert(s.subrange(0, s.len() as int) =~= s);
    kept
}

fn device_index(devices: &Vec<DeviceEntity>, id: &str) -> (r: Option<usize>)
    ensures
        match r {
            Some(i) => i < devices@.len() && devices@[i as int].id@ == id@,
            None => !device_id_taken(devices@, id@),
        },
{
    let mut i: usize = 0;
    while i < devices.len()
        invariant
            i <= devices@.len(),
            forall|j: int| 0 <= j < i ==> (#[trigger] devices@[j]).id@ != id@,
        decreases devices.len() - i,
    {
        if same_text(devices[i].id.as_str(), id) {
            return Some(i);
        }
        i = i + 1;
    }
    None
}

impl DeviceEntity {
    /// A copy of this device.
    pub fn duplicate(&self) -> (r: DeviceEntity)
        ensures
            r == *self,
    {
        DeviceEntity {
            id: self.id.clone(),
            client_id: self.client_id.clone(),
            user_id: clone_opt(&self.user_id),
            created: self.created,
            access_exp: self.access_exp,
            refresh_exp: self.refresh_exp,
            peer_ip: self.peer_ip.clone(),
            name: self.name.clone(),
        }
    }

    /// Stores a new device; an id that is already taken is refused.
    pub fn insert(self, store: &mut StateBackend) -> (r: Result<(), ErrorResponse>)
        requires
            old(store).wf(),
        ensures
            final(store).wf(),
            r is Ok <==> !device_id_taken(old(store).devices@, self.id@),
            r is Ok ==> final(store).devices@ == old(store).devices@.push(self),
            r matches Err(e) ==> e.error == ErrorResponseType::Internal && final(store).devices@ == old(store).devices@,
            final(store).device_codes@ == old(store).device_codes@,
            final(store).magic_links@ == old(store).magic_links@,
            final(store).events@ == old(store).events@,
    {
        if device_index(&store.devices, self.id.as_str()).is_some() {
            return Err(ErrorResponse::new(ErrorResponseType::Internal, "A device with this id exists already"));
        }
        let ghost s = store.devices@;
        let ghost me = self;
        store.devices.push(self);
        proof {
            let t = store.devices@;
            assert(device_ids_unique(t)) by {
                assert forall|i: int, j: int| 0 <= i < j < t.len() implies t[i].id@ != t[j].id@ by {
                    if j == s.len() {
                        assert(t[i] == s[i]);
                        assert(t[j] == me);
                    }
                }
            }
        }
        Ok(())
    }

    /// The device with the given id.
    pub fn find(store: &StateBackend, id: &str) -> (r: Result<DeviceEntity, ErrorResponse>)
        requires
            store.wf(),
        ensures
            r is Ok <==> device_id_taken(store.devices@, id@),
            r matches Ok(d) ==> d.id@ == id@ && store.devices@.contains(d),
            r matches Err(e) ==> e.error == ErrorResponseType::NotFound,
    {
        match device_index(&store.devices, id) {
            Some(i) => Ok(store.devices[i].duplicate()),
            None => Err(ErrorResponse::new(ErrorResponseType::NotFound, "Device not found")),
        }
    }

    /// The devices of the given user, in order.
    pub fn find_for_user(store: &StateBackend, user_id: &str) -> (r: Result<Vec<DeviceEntity>, ErrorResponse>)
        requires
            store.wf(),
        ensures
            r matches Ok(v) && v@ == retained_devices(store.devices@, DeviceFilter::OwnedBy(user_id@)),
    {
        Ok(filtered(&store.devices, &DeviceQuery::OwnedBy(user_id)))
    }

    /// Deletes the devices whose tokens all expired more than an hour ago.
    pub fn delete_expired(store: &mut StateBackend) -> (r: Result<(), ErrorResponse>)
        requires
            old(store).wf(),
        ensures
            final(store).wf(),
            r is Ok,
            exists|now: i64| final(store).devices@ == retained_devices(
                old(store).devices@,
                DeviceFilter::Unexpired(#[trigger] saturating(now - 3600)),
            ),
            final(store).device_codes@ == old(store).device_codes@,
            final(store).magic_links@ == old(store).magic_links@,
            final(store).events@ == old(store).events@,
    {
        let now = unix_now();
        DeviceEntity::delete_expired_at(store, now)
    }

    /// Deletes, at time `now`, the devices whose access token and refresh
    /// token (if any) both expired before `now` minus one hour.
    pub fn delete_expired_at(store: &mut StateBackend, now: i64) -> (r: Result<(), ErrorResponse>)
        requires
            old(store).wf(),
        ensures
            final(store).wf(),
            r is Ok,
            final(store).devices@ == retained_devices(old(store).devices@, DeviceFilter::Unexpired(saturating(now - 3600))),
            final(store).replicated == old(store).replicated,
            final(store).leader == old(store).leader,
            final(store).device_codes@ == old(store).device_codes@,
            final(store).magic_links@ == old(store).magic_links@,
            final(store).events@ == old(store).events@,
    {
        let threshold = saturating_sum(now, -3600);
        let kept = filtered(&store.devices, &DeviceQuery::Unexpired(threshold));
        store.devices = kept;
        Ok(())
    }

    /// Deletes the device with the given id.
    pub fn invalidate(store: &mut StateBackend, id: &str) -> (r: Result<(), ErrorResponse>)
        requires
            old(store).wf(),
        ensures
            final(store).wf(),
            r is Ok,
            final(store).devices@ == retained_devices(old(store).devices@, DeviceFilter::OtherThan(id@)),
            final(store).replicated == old(store).replicated,
            final(store).leader == old(store).leader,
            final(store).device_codes@ == old(store).device_codes@,
            final(store).magic_links@ == old(store).magic_links@,
            final(store).events@ == old(store).events@,
    {
        let kept = filtered(&store.devices, &DeviceQuery::OtherThan(id));
        store.devices = kept;
        Ok(())
    }

    /// Revokes the refresh token of the device with the given id.
    pub fn revoke_refresh_tokens(store: &mut StateBackend, device_id: &str) -> (r: Result<(), ErrorResponse>)
        requires
            old(store).wf(),
        ensures
            final(store).wf(),
            r is Ok,
            final(store).devices@ == old(store).devices@.map_values(|d: DeviceEntity| revoked(d, device_id@)),
            final(store).device_codes@ == old(store).device_codes@,
            final(store).magic_links@ == old(store).magic_links@,
            final(store).events@ == old(store).events@,
    {
        let ghost s = store.devices@;
        let mut i: usize = 0;
        while i < store.devices.len()
            invariant
                store.devices@.len() == s.len(),
                i <= s.len(),
                forall|j: int| 0 <= j < i ==> store.devices@[j] == revoked(s[j], device_id@),
                forall|j: int| i <= j < s.len() ==> store.devices@[j] == s[j],
                store.replicated == old(store).replicated,
                store.leader == old(store).leader,
                store.device_codes@ == old(store).device_codes@,
                store.magic_links@ == old(store).magic_links@,
                store.events@ == old(store).events@,
            decreases s.len() - i,
        {
            if same_text(store.devices[i].id.as_str(), device_id) {
                let row = DeviceEntity { refresh_exp: None, ..store.devices[i].duplicate() };
                store.devices.set(i, row);
            }
            i = i + 1;
        }
        proof {
            let t = store.devices@;
            assert(t =~= s.map_values(|d: DeviceEntity| revoked(d, device_id@)));
            assert(device_ids_unique(t)) by {
                assert forall|a: int, b: int| 0 <= a < b < t.len() implies t[a].id@ != t[b].id@ by {
                    assert(s[a].id@ != s[b].id@);
                }
            }
        }
        Ok(())
    }

    /// Renames the device `device_id` if it belongs to `user_id`.
    pub fn update_name(store: &mut StateBackend, device_id: &str, user_id: &str, name: &str) -> (r: Result<
        (),
        ErrorResponse,
    >)
        requires
            old(store).wf(),
        ensures
            final(store).wf(),
            r is Ok,
            final(store).devices@.len() == old(store).devices@.len(),
            forall|j: int| 0 <= j < old(store).devices@.len() ==> {
                let d = #[trigger] old(store).devices@[j];
                let e = final(store).devices@[j];
                if d.id@ == device_id@ && d.user_id is Some && d.user_id->0@ == user_id@ {
                    e.name@ == name@ && e == (DeviceEntity { name: e.name, ..d })
                } else {
                    e == d
                }
            },
            final(store).device_codes@ == old(store).device_codes@,
            final(store).magic_links@ == old(store).magic_links@,
            final(store).events@ == old(store).events@,
    {
        let ghost s = store.devices@;
        let mut i: usize = 0;
        while i < store.devices.len()
            invariant
                store.devices@.len() == s.len(),
                i <= s.len(),
                forall|j: int| 0 <= j < i ==> {
                    let d = #[trigger] s[j];
                    let e = store.devices@[j];
                    if d.id@ == device_id@ && d.user_id is Some && d.user_id->0@ == user_id@ {
                        e.name@ == name@ && e == (DeviceEntity { name: e.name, ..d })
                    } else {
                        e == d
                    }
                },
                forall|j: int| i <= j < s.len() ==> store.devices@[j] == s[j],
                store.replicated == old(store).replicated,
                store.leader == old(store).leader,
                store.device_codes@ == old(store).device_codes@,
                store.magic_links@ == old(store).magic_links@,
                store.events@ == old(store).events@,
            decreases s.len() - i,
        {
            let owned = match &store.devices[i].user_id {
                Some(owner) => same_text(owner.as_str(), user_id),
                None => false,
            };
            if owned && same_text(store.devices[i].id.as_str(), device_id) {
                let row = DeviceEntity { name: name.to_owned(), ..store.devices[i].duplicate() };
                store.devices.set(i, row);
            }
            i = i + 1;
        }
        proof {
            let t = store.devices@;
            assert(device_ids_unique(t)) by {
                assert forall|a: int, b: int| 0 <= a < b < t.len() implies t[a].id@ != t[b].id@ by {
                    assert(s[a].id@ != s[b].id@);
                }
            }
        }
        Ok(())
    }
}

} // verus!
