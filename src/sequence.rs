//! The replicated append-only sequence, held as safe-nd's CRDT `SData` and
//! reached only through the wrappers below, whose contracts speak of what a
//! replica holds: its entries, its owner history, its permission history.
//!
//! Keys are compared with `==` in these contracts (owners, permission maps).
//! safe-nd compares `PublicKey`s with `PartialEq`, and orders them for its
//! permission maps by their serialised bytes; for BLS keys both amount to
//! equality of the curve point, whatever its internal representation. The
//! contracts read a key's value as that point, so `==` on keys here is the
//! same relation as safe-nd's key equality (`same_key` in the ledger).
use vstd::prelude::*;
use safe_nd::{
    PublicKey, SData, SDataIndex, SDataMutationOperation, SDataOwner, SDataPrivPermissions,
    SDataPubPermissions, SDataUser, SDataUserPermissions,
};
use safe_nd::SDataAction::{Append, ManagePermissions as Manage, Read};

verus! {

#[verifier::external_type_specification]
#[verifier::external_body]
pub struct ExSData(safe_nd::SData);

#[verifier::external_type_specification]
#[verifier::external_body]
#[verifier::reject_recursive_types(T)]
pub struct ExSDataMutationOperation<T>(safe_nd::SDataMutationOperation<T>);

#[verifier::external_type_specification]
#[verifier::external_body]
pub struct ExSDataOwner(safe_nd::SDataOwner);

#[verifier::external_type_specification]
#[verifier::external_body]
pub struct ExSDataPrivPermissions(safe_nd::SDataPrivPermissions);

#[verifier::external_type_specification]
#[verifier::external_body]
pub struct ExSDataPubPermissions(safe_nd::SDataPubPermissions);

/// Relies on the derived `Clone` of safe-nd's `SData`: a clone is the same replica.
pub assume_specification[ <safe_nd::SData as Clone>::clone ](d: &safe_nd::SData) -> (r: safe_nd::SData)
    ensures
        r == *d,
;

/// Address of a sequence: content-derived name, numeric tag, privacy flavour.
#[derive(Clone, Copy, Debug, PartialEq, Eq)]
pub struct SeqAddress {
    pub name: [u8; 32],
    pub tag: u64,
    pub private: bool,
}

/// An action on a sequence that permissions govern.
#[derive(Clone, Copy, Debug, PartialEq, Eq, Structural)]
pub enum SeqAction {
    Read,
    Append,
    ManagePermissions,
}

/// A position in a sequence, counted from its start or back from its end.
#[derive(Clone, Copy, Debug, PartialEq, Eq, Structural)]
pub enum SeqIndex {
    FromStart(u64),
    FromEnd(u64),
}

/// Rights of one key on a private sequence.
#[derive(Clone, Copy, Debug, PartialEq, Eq, Structural)]
pub struct PrivUserPermissions {
    pub read: bool,
    pub append: bool,
    pub manage_permissions: bool,
}

/// Rights of one user on a public sequence; `None` defers to the rights of anyone.
#[derive(Clone, Copy, Debug, PartialEq, Eq, Structural)]
pub struct PubUserPermissions {
    pub append: Option<bool>,
    pub manage_permissions: Option<bool>,
}

/// A user of a public sequence: one key, or anyone.
#[derive(Clone, Copy)]
pub enum SeqUser {
    Anyone,
    Key(PublicKey),
}

/// The rights a sequence grants one user, in the sequence's flavour.
#[derive(Clone, Copy, Debug, PartialEq, Eq, Structural)]
pub enum UserPermissions {
    Priv(PrivUserPermissions),
    Pub(PubUserPermissions),
}

/// How many local appends a fresh CRDT list is certain to take: each
/// append places its identifier at most one level deeper than the last one,
/// and the identifier tree has 21 levels at the base safe-nd gives it.
pub const FRESH_ROOM: u64 = 21;

/// The address a replica carries.
pub uninterp spec fn address_of(d: SData) -> SeqAddress;

/// The entries a replica holds, in order.
pub uninterp spec fn entries_of(d: SData) -> Seq<Seq<u8>>;

/// The owners a replica has had, the current one last.
pub uninterp spec fn owners_of(d: SData) -> Seq<PublicKey>;

/// How many permission sets a replica has had.
pub uninterp spec fn perms_count(d: SData) -> nat;

/// The current private permission set of a replica, by key.
pub uninterp spec fn priv_perms_of(d: SData) -> Map<PublicKey, PrivUserPermissions>;

/// The current public permission set of a replica, by user.
pub uninterp spec fn pub_perms_of(d: SData) -> Map<SeqUser, PubUserPermissions>;

/// How many more local appends the entry list takes before an identifier
/// could need a level deeper than the CRDT supports.
pub uninterp spec fn entries_room(d: SData) -> nat;

/// How many more local appends the owner list takes, in the same sense.
pub uninterp spec fn owners_room(d: SData) -> nat;

/// How many more local appends the permission list takes, in the same sense.
pub uninterp spec fn perms_room(d: SData) -> nat;

/// The entry an append op carries.
pub uninterp spec fn op_entry(op: SDataMutationOperation<Vec<u8>>) -> Seq<u8>;

/// The owner key an owner op carries.
pub uninterp spec fn op_owner(op: SDataMutationOperation<SDataOwner>) -> PublicKey;

/// The permission set a private permissions op carries.
pub uninterp spec fn op_priv_perms(op: SDataMutationOperation<SDataPrivPermissions>) -> Map<PublicKey, PrivUserPermissions>;

/// The permission set a public permissions op carries.
pub uninterp spec fn op_pub_perms(op: SDataMutationOperation<SDataPubPermissions>) -> Map<SeqUser, PubUserPermissions>;

/// Everything the library reads of a replica, as one value.
pub struct Facets {
    pub address: SeqAddress,
    pub entries: Seq<Seq<u8>>,
    pub owners: Seq<PublicKey>,
    pub perms_count: nat,
    pub priv_perms: Map<PublicKey, PrivUserPermissions>,
    pub pub_perms: Map<SeqUser, PubUserPermissions>,
    pub entries_room: nat,
    pub owners_room: nat,
    pub perms_room: nat,
}

/// The facets of a replica.
pub open spec fn facets_of(d: SData) -> Facets {
    Facets {
        address: address_of(d),
        entries: entries_of(d),
        owners: owners_of(d),
        perms_count: perms_count(d),
        priv_perms: priv_perms_of(d),
        pub_perms: pub_perms_of(d),
        entries_room: entries_room(d),
        owners_room: owners_room(d),
        perms_room: perms_room(d),
    }
}

/// Whether a replica is of the private flavour.
pub open spec fn is_private_data(d: SData) -> bool {
    address_of(d).private
}

/// The map a list of pairs builds, a repeated key keeping its last value.
pub open spec fn map_of<K, V>(s: Seq<(K, V)>) -> Map<K, V>
    decreases s.len(),
{
    if s.len() == 0 {
        Map::empty()
    } else {
        map_of(s.drop_last()).insert(s.last().0, s.last().1)
    }
}

/// Whether private rights `p` allow `action`.
pub open spec fn priv_allows(p: PrivUserPermissions, action: SeqAction) -> bool {
    match action {
        SeqAction::Read => p.read,
        SeqAction::Append => p.append,
        SeqAction::ManagePermissions => p.manage_permissions,
    }
}

/// What a public permission set says of `user` taking `action`: allowed,
/// denied, or nothing said.
pub open spec fn pub_setting(perms: Map<SeqUser, PubUserPermissions>, user: SeqUser, action: SeqAction) -> Option<bool> {
    if !perms.contains_key(user) {
        None
    } else {
        match action {
            SeqAction::Read => Some(true),
            SeqAction::Append => perms[user].append,
            SeqAction::ManagePermissions => perms[user].manage_permissions,
        }
    }
}

/// Whether the replica lets `key` take `action`: its current owner may do
/// anything, anyone may read a public replica; otherwise the current
/// permission set decides, a public one falling back from the key's own
/// setting to that of anyone.
pub open spec fn permits(d: SData, action: SeqAction, key: PublicKey) -> bool {
    ||| owners_of(d).len() > 0 && owners_of(d).last() == key
    ||| !is_private_data(d) && action == SeqAction::Read
    ||| perms_count(d) > 0 && if is_private_data(d) {
        priv_perms_of(d).contains_key(key) && priv_allows(priv_perms_of(d)[key], action)
    } else {
        match pub_setting(pub_perms_of(d), SeqUser::Key(key), action) {
            Some(b) => b,
            None => pub_setting(pub_perms_of(d), SeqUser::Anyone, action) == Some(true),
        }
    }
}

/// The rights the replica's current permission set gives `user`, if any.
pub open spec fn user_permissions_of(d: SData, user: SeqUser) -> Option<UserPermissions> {
    if perms_count(d) == 0 {
        None
    } else if is_private_data(d) {
        match user {
            SeqUser::Key(k) => if priv_perms_of(d).contains_key(k) {
                Some(UserPermissions::Priv(priv_perms_of(d)[k]))
            } else {
                None
            },
            SeqUser::Anyone => None,
        }
    } else if pub_perms_of(d).contains_key(user) {
        Some(UserPermissions::Pub(pub_perms_of(d)[user]))
    } else {
        None
    }
}

/// A replica as the cache keeps it, with lower bounds on the room of each
/// of its CRDT lists.
pub struct Replica {
    pub data: SData,
    pub room: Room,
}

/// Lower bounds on how many more local appends each list of a replica takes.
#[derive(Clone, Copy, Debug, PartialEq, Eq, Structural)]
pub struct Room {
    pub entries: u64,
    pub owners: u64,
    pub perms: u64,
}

impl Replica {
    /// The bounds hold of the data.
    pub open spec fn wf(self) -> bool {
        &&& self.room.entries <= entries_room(self.data)
        &&& self.room.owners <= owners_room(self.data)
        &&& self.room.perms <= perms_room(self.data)
    }
}

/// The position `i` stands for in a sequence of `count` entries, if any.
pub open spec fn absolute_index(i: SeqIndex, count: nat) -> Option<nat> {
    match i {
        SeqIndex::FromStart(k) => if k <= count { Some(k as nat) } else { None },
        SeqIndex::FromEnd(k) => if k <= count { Some((count - k) as nat) } else { None },
    }
}

/// The entries from `start` up to, not including, `end`; nothing when either
/// position lies outside the sequence or the range is empty.
pub open spec fn range_of(entries: Seq<Seq<u8>>, start: SeqIndex, end: SeqIndex) -> Option<Seq<Seq<u8>>> {
    match (absolute_index(start, entries.len()), absolute_index(end, entries.len())) {
        (Some(s), Some(e)) => if s < e { Some(entries.subrange(s as int, e as int)) } else { None },
        _ => None,
    }
}

/// The views of a list of byte strings.
pub open spec fn views_of(v: Seq<Vec<u8>>) -> Seq<Seq<u8>> {
    v.map_values(|e: Vec<u8>| e@)
}

/// Relies on `SData::new_priv`: a new private replica, with no entry, owner or permissions.
#[verifier::external_body]
pub(crate) fn new_private_data(actor: PublicKey, name: [u8; 32], tag: u64) -> (r: SData)
    ensures
        address_of(r) == (SeqAddress { name, tag, private: true }),
        entries_of(r) == Seq::<Seq<u8>>::empty(),
        owners_of(r) == Seq::<PublicKey>::empty(),
        perms_count(r) == 0,
        entries_room(r) == FRESH_ROOM,
        owners_room(r) == FRESH_ROOM,
        perms_room(r) == FRESH_ROOM,
{
    SData::new_priv(actor, safe_nd::XorName(name), tag)
}

/// Relies on `SData::new_pub`: a new public replica, with no entry, owner or permissions.
#[verifier::external_body]
pub(crate) fn new_public_data(actor: PublicKey, name: [u8; 32], tag: u64) -> (r: SData)
    ensures
        address_of(r) == (SeqAddress { name, tag, private: false }),
        entries_of(r) == Seq::<Seq<u8>>::empty(),
        owners_of(r) == Seq::<PublicKey>::empty(),
        perms_count(r) == 0,
        entries_room(r) == FRESH_ROOM,
        owners_room(r) == FRESH_ROOM,
        perms_room(r) == FRESH_ROOM,
{
    SData::new_pub(actor, safe_nd::XorName(name), tag)
}

/// Relies on `SData::is_priv`: whether the replica is of the private flavour.
#[verifier::external_body]
pub(crate) fn check_private(d: &SData) -> (r: bool)
    ensures
        r == address_of(*d).private,
{
    d.is_priv()
}

/// Relies on `SData::append` and `SData::apply_crdt_op`: the op that `append`
/// returns, applied to the same replica, puts the entry after all others.
/// `append` allocates an identifier at most one level below the last one and
/// panics past the deepest level, which the room excludes.
#[verifier::external_body]
pub(crate) fn append_entry(d: &mut SData, entry: Vec<u8>) -> (op: SDataMutationOperation<Vec<u8>>)
    requires
        entries_room(*old(d)) > 0,
    ensures
        facets_of(*final(d)) == (Facets {
            entries: entries_of(*old(d)).push(entry@),
            entries_room: entries_room(*final(d)),
            ..facets_of(*old(d))
        }),
        entries_room(*final(d)) + 1 >= entries_room(*old(d)),
        op_entry(op) == entry@,
{
    let op = d.append(entry);
    d.apply_crdt_op(op.crdt_op.clone());
    op
}

/// Relies on `SData::entries_index`: the number of entries.
#[verifier::external_body]
pub(crate) fn entries_index(d: &SData) -> (r: u64)
    ensures
        r == entries_of(*d).len(),
{
    d.entries_index()
}

/// Relies on `SData::last_entry`: the last entry, if there is one.
#[verifier::external_body]
pub(crate) fn last_entry(d: &SData) -> (r: Option<Vec<u8>>)
    ensures
        match r {
            Some(e) => entries_of(*d).len() > 0 && e@ == entries_of(*d).last(),
            None => entries_of(*d).len() == 0,
        },
{
    d.last_entry().cloned()
}

/// Relies on `SData::in_range`: the entries between two positions, or nothing.
#[verifier::external_body]
pub(crate) fn in_range(d: &SData, start: SeqIndex, end: SeqIndex) -> (r: Option<Vec<Vec<u8>>>)
    ensures
        match r {
            Some(v) => range_of(entries_of(*d), start, end) == Some(views_of(v@)),
            None => range_of(entries_of(*d), start, end) is None,
        },
{
    let start = match start {
        SeqIndex::FromStart(k) => SDataIndex::FromStart(k),
        SeqIndex::FromEnd(k) => SDataIndex::FromEnd(k),
    };
    let end = match end {
        SeqIndex::FromStart(k) => SDataIndex::FromStart(k),
        SeqIndex::FromEnd(k) => SDataIndex::FromEnd(k),
    };
    d.in_range(start, end)
}

/// Relies on `SData::set_owner` and `SData::apply_crdt_owner_op`: the owner
/// op, applied to the same replica, makes `owner` the current owner. The
/// owner list's identifiers grow as the entries' do; the room excludes a panic.
#[verifier::external_body]
pub(crate) fn push_owner(d: &mut SData, owner: PublicKey) -> (op: SDataMutationOperation<SDataOwner>)
    requires
        owners_room(*old(d)) > 0,
    ensures
        facets_of(*final(d)) == (Facets {
            owners: owners_of(*old(d)).push(owner),
            owners_room: owners_room(*final(d)),
            ..facets_of(*old(d))
        }),
        owners_room(*final(d)) + 1 >= owners_room(*old(d)),
        op_owner(op) == owner,
{
    let op = d.set_owner(owner);
    d.apply_crdt_owner_op(op.crdt_op.clone());
    op
}

/// Relies on `SData::owner`: the key of the current owner, if there is one.
#[verifier::external_body]
pub(crate) fn current_owner(d: &SData) -> (r: Option<PublicKey>)
    ensures
        match r {
            Some(k) => owners_of(*d).len() > 0 && k == owners_of(*d).last(),
            None => owners_of(*d).len() == 0,
        },
{
    d.owner(SDataIndex::FromEnd(1)).map(|o| o.public_key)
}

/// Relies on `SData::set_priv_permissions` and `SData::apply_crdt_priv_perms_op`:
/// a private replica takes the map built from `perms` as its new permission
/// set; a public one refuses it. The room excludes a panic, as for entries.
#[verifier::external_body]
pub(crate) fn push_priv_permissions(d: &mut SData, perms: Vec<(PublicKey, PrivUserPermissions)>) -> (r: Option<SDataMutationOperation<SDataPrivPermissions>>)
    requires
        perms_room(*old(d)) > 0,
    ensures
        r is Some <==> is_private_data(*old(d)),
        r is None ==> *final(d) == *old(d),
        r is Some ==> facets_of(*final(d)) == (Facets {
            perms_count: perms_count(*old(d)) + 1,
            priv_perms: map_of(perms@),
            perms_room: perms_room(*final(d)),
            ..facets_of(*old(d))
        }),
        perms_room(*final(d)) + 1 >= perms_room(*old(d)),
        r matches Some(op) ==> op_priv_perms(op) == map_of(perms@),
{
    let mut map = std::collections::BTreeMap::new();
    for (k, p) in perms {
        let _ = map.insert(k, safe_nd::SDataPrivUserPermissions::new(p.read, p.append, p.manage_permissions));
    }
    let op = d.set_priv_permissions(map).ok()?;
    let _ = d.apply_crdt_priv_perms_op(op.crdt_op.clone());
    Some(op)
}

/// Relies on `SData::set_pub_permissions` and `SData::apply_crdt_pub_perms_op`:
/// a public replica takes the map built from `perms` as its new permission
/// set; a private one refuses it. The room excludes a panic, as for entries.
#[verifier::external_body]
pub(crate) fn push_pub_permissions(d: &mut SData, perms: Vec<(SeqUser, PubUserPermissions)>) -> (r: Option<SDataMutationOperation<SDataPubPermissions>>)
    requires
        perms_room(*old(d)) > 0,
    ensures
        r is Some <==> !is_private_data(*old(d)),
        r is None ==> *final(d) == *old(d),
        r is Some ==> facets_of(*final(d)) == (Facets {
            perms_count: perms_count(*old(d)) + 1,
            pub_perms: map_of(perms@),
            perms_room: perms_room(*final(d)),
            ..facets_of(*old(d))
        }),
        perms_room(*final(d)) + 1 >= perms_room(*old(d)),
        r matches Some(op) ==> op_pub_perms(op) == map_of(perms@),
{
    let mut map = std::collections::BTreeMap::new();
    for (u, p) in perms {
        let user = match u {
            SeqUser::Anyone => SDataUser::Anyone,
            SeqUser::Key(k) => SDataUser::Key(k),
        };
        let _ = map.insert(user, safe_nd::SDataPubUserPermissions::new(p.append, p.manage_permissions));
    }
    let op = d.set_pub_permissions(map).ok()?;
    let _ = d.apply_crdt_pub_perms_op(op.crdt_op.clone());
    Some(op)
}

/// Relies on `SData::check_permission`: the current owner may take any action,
/// and anyone may read a public replica; beyond that the current permission
/// set decides.
#[verifier::external_body]
pub(crate) fn check_permission(d: &SData, action: SeqAction, key: PublicKey) -> (r: bool)
    ensures
        r == permits(*d, action, key),
{
    let action = match action {
        SeqAction::Read => Read,
        SeqAction::Append => Append,
        SeqAction::ManagePermissions => Manage,
    };
    d.check_permission(action, key).is_ok()
}

/// Relies on `SData::user_permissions` at the current permission set: the
/// rights it gives `user`; none while the replica has no permission set.
#[verifier::external_body]
pub(crate) fn user_permissions(d: &SData, user: SeqUser) -> (r: Option<UserPermissions>)
    ensures
        r == user_permissions_of(*d, user),
{
    let user = match user {
        SeqUser::Anyone => SDataUser::Anyone,
        SeqUser::Key(k) => SDataUser::Key(k),
    };
    Some(match d.user_permissions(user, SDataIndex::FromEnd(1)).ok()? {
        SDataUserPermissions::Priv(p) => UserPermissions::Priv(PrivUserPermissions {
            read: p.is_allowed(Read), append: p.is_allowed(Append), manage_permissions: p.is_allowed(Manage),
        }),
        SDataUserPermissions::Pub(p) => UserPermissions::Pub(PubUserPermissions {
            append: p.is_allowed(Append), manage_permissions: p.is_allowed(Manage),
        }),
    })
}

/// Relies on `SData::priv_permissions` at the current permission set: a
/// private replica's permissions, if it has any; a public replica has none.
#[verifier::external_body]
pub(crate) fn priv_permissions(d: &SData) -> (r: Option<Vec<(PublicKey, PrivUserPermissions)>>)
    ensures
        r is None <==> !is_private_data(*d) || perms_count(*d) == 0,
        r matches Some(v) ==> map_of(v@) == priv_perms_of(*d),
{
    let perms = d.priv_permissions(SDataIndex::FromEnd(1)).ok()?;
    Some(perms.permissions.iter().map(|(k, p)| (*k, PrivUserPermissions {
        read: p.is_allowed(Read), append: p.is_allowed(Append), manage_permissions: p.is_allowed(Manage),
    })).collect())
}

/// Relies on `SData::pub_permissions` at the current permission set: a
/// public replica's permissions, if it has any; a private replica has none.
#[verifier::external_body]
pub(crate) fn pub_permissions(d: &SData) -> (r: Option<Vec<(SeqUser, PubUserPermissions)>>)
    ensures
        r is None <==> is_private_data(*d) || perms_count(*d) == 0,
        r matches Some(v) ==> map_of(v@) == pub_perms_of(*d),
{
    let perms = d.pub_permissions(SDataIndex::FromEnd(1)).ok()?;
    Some(perms.permissions.iter().map(|(u, p)| (match u {
        SDataUser::Anyone => SeqUser::Anyone,
        SDataUser::Key(k) => SeqUser::Key(*k),
    }, PubUserPermissions { append: p.is_allowed(Append), manage_permissions: p.is_allowed(Manage) })).collect())
}

} // verus!
