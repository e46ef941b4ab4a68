//! Laws on the restrictions of a user's access to a cipher.

use crate::access::{
    allows_writing, combined_flags, full_access_group, full_access_org, gathered_flags,
    is_hiding, is_managing, is_read_only, listed_flags, restrictions, stored_flags, sync_flags,
    OrgStanding,
};
use crate::cipher::Cipher;
use crate::ids::{CollectionId, UserId};
use crate::joins::{joined, lemma_joined_back, lemma_joined_forward, Join, JoinRow};
use crate::laws::finding::{
    group_reaches, has_group_access, has_org_access, has_own_access, in_collection,
    is_group_access, is_in_group, is_link, is_member, is_org_admin, is_own_access,
    law_finds_what_is_reached,
};
use crate::laws::values::law_lists;
use crate::queries::{
    finds, group_access_flags, group_flag_rows, member_is_user, stored_copies, subject_of,
    user_access_flags, user_flag_rows,
};
use crate::seqs::lemma_filter_holds;
use crate::sync::{CipherSyncData, CollectionAccess, TextMap};
use crate::tables::Tables;
use vstd::prelude::*;

verus! {

/// Whoever owns a cipher, or has full access where it is, is under no restriction.
pub proof fn law_full_access_is_unrestricted(
    cipher: Cipher,
    user: UserId,
    sync: Option<&CipherSyncData>,
    groups: bool,
    standing: OrgStanding,
    t: &Tables,
)
    requires
        cipher.owned_by(user@) || full_access_org(cipher, sync, standing) || full_access_group(
            cipher,
            sync,
            groups,
            standing,
        ),
    ensures
        restrictions(cipher, user, sync, groups, standing, t) == Some((false, false, true)),
        allows_writing(restrictions(cipher, user, sync, groups, standing, t)),
{
}

/// Whoever may change a cipher may see it.
pub proof fn law_writing_implies_access(flags: Option<(bool, bool, bool)>)
    ensures
        allows_writing(flags) ==> flags is Some,
{
}

/// Adding accesses never adds a restriction.
pub proof fn law_more_access_never_restricts(
    rows: Seq<(bool, bool, bool)>,
    more: Seq<(bool, bool, bool)>,
)
    requires
        rows.len() > 0,
        forall|i: int| 0 <= i < rows.len() ==> more.contains(#[trigger] rows[i]),
    ensures
        combined_flags(more) is Some,
        (combined_flags(more)->0).0 ==> (combined_flags(rows)->0).0,
        (combined_flags(more)->0).1 ==> (combined_flags(rows)->0).1,
        (combined_flags(rows)->0).2 ==> (combined_flags(more)->0).2,
{
    assert(more.contains(rows[0]));
    assert forall|i: int| 0 <= i < rows.len() implies exists|j: int|
        0 <= j < more.len() && more[j] == #[trigger] rows[i] by {
        assert(more.contains(rows[i]));
    }
    if (combined_flags(more)->0).0 {
        assert forall|i: int| 0 <= i < rows.len() implies is_read_only(#[trigger] rows[i]) by {
            let j = choose|j: int| 0 <= j < more.len() && more[j] == rows[i];
            assert(is_read_only(more[j]));
        }
    }
    if (combined_flags(more)->0).1 {
        assert forall|i: int| 0 <= i < rows.len() implies is_hiding(#[trigger] rows[i]) by {
            let j = choose|j: int| 0 <= j < more.len() && more[j] == rows[i];
            assert(is_hiding(more[j]));
        }
    }
    if (combined_flags(rows)->0).2 {
        let i = choose|i: int| 0 <= i < rows.len() && is_managing(#[trigger] rows[i]);
        let j = choose|j: int| 0 <= j < more.len() && more[j] == rows[i];
        assert(is_managing(more[j]));
    }
}

/// In which order accesses are listed, and how often, makes no difference.
pub proof fn law_order_of_accesses_is_irrelevant(
    rows: Seq<(bool, bool, bool)>,
    others: Seq<(bool, bool, bool)>,
)
    requires
        forall|i: int| 0 <= i < rows.len() ==> others.contains(#[trigger] rows[i]),
        forall|i: int| 0 <= i < others.len() ==> rows.contains(#[trigger] others[i]),
    ensures
        combined_flags(rows) == combined_flags(others),
{
    if rows.len() > 0 {
        law_more_access_never_restricts(rows, others);
    }
    if others.len() > 0 {
        law_more_access_never_restricts(others, rows);
    }
}

/// A user's own access to a cipher overrules access through groups.
pub proof fn law_own_access_overrules_groups(t: &Tables, user: UserId, groups: bool, cipher: Cipher)
    requires
        user_access_flags(t, user, cipher).len() > 0,
    ensures
        stored_flags(t, user, groups, cipher) == user_access_flags(t, user, cipher),
{
}

/// Whether the cipher is stored.
pub open spec fn is_stored(t: &Tables, cipher: Cipher) -> bool {
    exists|i: int|
        0 <= i < t.ciphers@.len() && (#[trigger] t.ciphers@[i]).uuid.0@ == cipher.uuid.0@
}

/// Whether the group's access is one to a collection that the cipher is in, and the user has a
/// membership, confirmed or not, in the group.
pub open spec fn is_access_through(
    t: &Tables,
    user: Seq<char>,
    cipher: Cipher,
    c: int,
    gu: int,
    m: int,
) -> bool {
    &&& 0 <= c < t.collections_groups@.len()
    &&& 0 <= gu < t.groups_users@.len()
    &&& 0 <= m < t.users_organizations@.len()
    &&& in_collection(t, cipher, t.collections_groups@[c].collections_uuid.0@)
    &&& t.groups_users@[gu].groups_uuid.0@ == t.collections_groups@[c].groups_uuid.0@
    &&& t.users_organizations@[m].uuid.0@ == t.groups_users@[gu].users_organizations_uuid.0@
    &&& t.users_organizations@[m].user_uuid.0@ == user
}

/// Whether a group of the user has access to a collection that the cipher is in.
pub open spec fn has_access_through_groups(t: &Tables, user: Seq<char>, cipher: Cipher) -> bool {
    exists|c: int, gu: int, m: int| is_access_through(t, user, cipher, c, gu, m)
}

/// The first row of a search for restrictions is there exactly where the cipher is stored.
proof fn lemma_stored(t: &Tables, cipher: Cipher)
    ensures
        is_stored(t, cipher) <==> stored_copies(t, cipher).map_values(
            |cipher: Cipher| JoinRow::empty_spec(),
        ).contains(JoinRow::empty_spec()),
{
    let pred = |stored: Cipher| stored.uuid@ == cipher.uuid@;
    let copies = t.ciphers@.filter(pred);
    let start = copies.map_values(|cipher: Cipher| JoinRow::empty_spec());
    if is_stored(t, cipher) {
        let i = choose|i: int|
            0 <= i < t.ciphers@.len() && (#[trigger] t.ciphers@[i]).uuid@ == cipher.uuid@;
        t.ciphers@.lemma_filter_contains(pred, i);
        let k = choose|k: int| 0 <= k < copies.len() && copies[k] == t.ciphers@[i];
        assert(start[k] == JoinRow::empty_spec());
    }
    if start.contains(JoinRow::empty_spec()) {
        let k = choose|k: int| 0 <= k < start.len() && start[k] == JoinRow::empty_spec();
        assert(copies.contains(copies[k]));
        lemma_filter_holds(t.ciphers@, pred, copies[k]);
    }
}

/// A user has restrictions of their own on a stored cipher exactly where they have access to a
/// collection that it is in.
pub proof fn law_own_flags(t: &Tables, user: UserId, cipher: Cipher)
    ensures
        user_access_flags(t, user, cipher).len() > 0 <==> is_stored(t, cipher) && has_own_access(
            t,
            user@,
            cipher,
        ),
{
    let subject = &subject_of(user, cipher);
    let start = stored_copies(t, cipher).map_values(|cipher: Cipher| JoinRow::empty_spec());
    let links = joined(t, subject, Join::CipherLinks, false, start);
    let rows = user_flag_rows(t, subject, cipher);
    lemma_stored(t, cipher);
    if rows.len() > 0 {
        assert(rows.contains(rows[0]));
        let from = lemma_joined_back(t, subject, Join::UserCollections, false, links, rows[0]);
        let first = lemma_joined_back(t, subject, Join::CipherLinks, false, start, from.0);
        let k = choose|k: int| 0 <= k < start.len() && start[k] == first.0;
        assert(first.0 == JoinRow::empty_spec());
        let u = from.1->0 as int;
        assert(is_link(
            t,
            cipher,
            t.users_collections@[u].collection_uuid@,
            first.1->0 as int,
        ));
        assert(is_own_access(t, user@, cipher, u));
    }
    if is_stored(t, cipher) && has_own_access(t, user@, cipher) {
        let u = choose|u: int| is_own_access(t, user@, cipher, u);
        let collection = t.users_collections@[u].collection_uuid@;
        let l = choose|l: int| is_link(t, cipher, collection, l);
        assert(t.ciphers_collections.len() == t.ciphers_collections@.len());
        let empty = JoinRow::empty_spec();
        lemma_joined_forward(t, subject, Join::CipherLinks, false, start, empty, l);
        let first = empty.with_spec(Join::CipherLinks, Some(l as usize));
        lemma_joined_forward(t, subject, Join::UserCollections, false, links, first, u);
        let row = first.with_spec(Join::UserCollections, Some(u as usize));
        assert(rows.contains(row));
    }
}

/// Where groups are in use, a user has restrictions through groups on a stored cipher exactly
/// where a group of theirs has access to a collection that it is in.
pub proof fn law_group_flags(t: &Tables, user: UserId, groups: bool, cipher: Cipher)
    ensures
        group_access_flags(t, user, groups, cipher).len() > 0 <==> groups && is_stored(t, cipher)
            && has_access_through_groups(t, user@, cipher),
{
    let subject = &subject_of(user, cipher);
    let start = stored_copies(t, cipher).map_values(|cipher: Cipher| JoinRow::empty_spec());
    let links = joined(t, subject, Join::CipherLinks, false, start);
    let accesses = joined(t, subject, Join::LinkedGroups, false, links);
    let group_users = joined(t, subject, Join::CollectionGroupUsers, false, accesses);
    let rows = group_flag_rows(t, subject, cipher);
    let pred = |row: JoinRow| member_is_user(t, user@, row);
    let chosen = rows.filter(pred);
    lemma_stored(t, cipher);
    if chosen.len() > 0 {
        let row = chosen[0];
        assert(chosen.contains(row));
        lemma_filter_holds(rows, pred, row);
        let with_user = lemma_joined_back(t, subject, Join::GroupMembers, false, group_users, row);
        let with_access = lemma_joined_back(
            t,
            subject,
            Join::CollectionGroupUsers,
            false,
            accesses,
            with_user.0,
        );
        let with_link = lemma_joined_back(
            t,
            subject,
            Join::LinkedGroups,
            false,
            links,
            with_access.0,
        );
        let first = lemma_joined_back(t, subject, Join::CipherLinks, false, start, with_link.0);
        let k = choose|k: int| 0 <= k < start.len() && start[k] == first.0;
        assert(first.0 == JoinRow::empty_spec());
        let c = with_link.1->0 as int;
        assert(is_link(
            t,
            cipher,
            t.collections_groups@[c].collections_uuid@,
            first.1->0 as int,
        ));
        assert(is_access_through(
            t,
            user@,
            cipher,
            c,
            with_access.1->0 as int,
            with_user.1->0 as int,
        ));
    }
    if is_stored(t, cipher) && has_access_through_groups(t, user@, cipher) {
        let (c, gu, m) = choose|c: int, gu: int, m: int|
            is_access_through(t, user@, cipher, c, gu, m);
        let collection = t.collections_groups@[c].collections_uuid@;
        let l = choose|l: int| is_link(t, cipher, collection, l);
        assert(t.ciphers_collections.len() == t.ciphers_collections@.len());
        assert(t.collections_groups.len() == t.collections_groups@.len());
        assert(t.groups_users.len() == t.groups_users@.len());
        assert(t.users_organizations.len() == t.users_organizations@.len());
        let empty = JoinRow::empty_spec();
        lemma_joined_forward(t, subject, Join::CipherLinks, false, start, empty, l);
        let first = empty.with_spec(Join::CipherLinks, Some(l as usize));
        lemma_joined_forward(t, subject, Join::LinkedGroups, false, links, first, c);
        let second = first.with_spec(Join::LinkedGroups, Some(c as usize));
        lemma_joined_forward(
            t,
            subject,
            Join::CollectionGroupUsers,
            false,
            accesses,
            second,
            gu,
        );
        let third = second.with_spec(Join::CollectionGroupUsers, Some(gu as usize));
        lemma_joined_forward(t, subject, Join::GroupMembers, false, group_users, third, m);
        let row = third.with_spec(Join::GroupMembers, Some(m as usize));
        lemma_filter_holds(rows, pred, row);
    }
}

/// A user is without access to a stored cipher exactly where it does not belong to them, they
/// have no full access where it is, and it is in no collection that they have access to, be it
/// their own or, where groups are in use, through a group.
pub proof fn law_no_restrictions_means_no_access(
    cipher: Cipher,
    user: UserId,
    groups: bool,
    standing: OrgStanding,
    t: &Tables,
)
    requires
        is_stored(t, cipher),
    ensures
        restrictions(cipher, user, None, groups, standing, t) is None <==> {
            &&& !cipher.owned_by(user@)
            &&& !full_access_org(cipher, None, standing)
            &&& !full_access_group(cipher, None, groups, standing)
            &&& !has_own_access(t, user@, cipher)
            &&& !(groups && has_access_through_groups(t, user@, cipher))
        },
{
    law_own_flags(t, user, cipher);
    law_group_flags(t, user, groups, cipher);
}

/// Whether the collection is one that the sync knows an access of the user to.
pub open spec fn sync_knows(sync: &CipherSyncData, collection: CollectionId) -> bool {
    sync.user_collections@.contains_key(collection@)
        || sync.user_collections_groups@.contains_key(collection@)
}

/// A choice of what some values come to is empty exactly where none comes to anything.
proof fn lemma_filter_map_empty<A, B>(values: Seq<A>, f: spec_fn(A) -> Option<B>)
    ensures
        values.filter_map(f).len() == 0 <==> forall|i: int|
            0 <= i < values.len() ==> f(#[trigger] values[i]) is None,
    decreases values.len(),
{
    reveal(Seq::filter_map);
    if values.len() > 0 {
        let front = values.drop_last();
        lemma_filter_map_empty(front, f);
        assert(values.take(values.len() - 1) =~= front);
        assert(values.take(values.len() as int) =~= values);
        values.lemma_filter_map_take_succ(f, values.len() - 1);
        if forall|i: int| 0 <= i < values.len() ==> f(#[trigger] values[i]) is None {
            assert forall|i: int| 0 <= i < front.len() implies f(#[trigger] front[i]) is None by {
                assert(front[i] == values[i]);
            }
            assert(f(values[values.len() - 1]) is None);
        } else {
            let i = choose|i: int| 0 <= i < values.len() && f(#[trigger] values[i]) is Some;
            if i < front.len() {
                assert(front[i] == values[i]);
            }
        }
    }
}

/// During a sync, too, a user's own access to a collection of a cipher overrules access through
/// groups, be it to the same collection or to another one that the cipher is in: only the user's
/// own permissions count.
pub proof fn law_own_access_overrules_groups_in_a_sync(
    cipher: Cipher,
    sync: &CipherSyncData,
    collections: Vec<CollectionId>,
    i: int,
)
    requires
        sync.cipher_collections.lookup(cipher.uuid@) == Some(collections),
        0 <= i < collections@.len(),
        sync.user_collections@.contains_key(collections@[i]@),
    ensures
        sync_flags(sync, cipher.uuid@) == gathered_flags(&sync.user_collections, collections@),
        sync_flags(sync, cipher.uuid@).len() > 0,
{
    let own = |collection: CollectionId| listed_flags(&sync.user_collections, collection@);
    lemma_filter_map_empty(collections@, own);
    assert(own(collections@[i]) is Some);
}

/// During a sync, a user who neither owns a cipher nor has full access where it is, is without
/// access to it exactly where the sync knows of no access to any of its collections.
pub proof fn law_no_sync_access(
    cipher: Cipher,
    user: UserId,
    sync: &CipherSyncData,
    groups: bool,
    standing: OrgStanding,
    t: &Tables,
)
    requires
        !cipher.owned_by(user@),
        !full_access_org(cipher, Some(sync), standing),
        !full_access_group(cipher, Some(sync), groups, standing),
    ensures
        restrictions(cipher, user, Some(sync), groups, standing, t) is None <==> {
            sync.cipher_collections.lookup(cipher.uuid@) matches Some(collections) ==> forall|
                i: int,
            |
                0 <= i < collections@.len() ==> !sync_knows(sync, #[trigger] collections@[i])
        },
{
    match sync.cipher_collections.lookup(cipher.uuid@) {
        Some(collections) => {
            let own = |collection: CollectionId|
                listed_flags(&sync.user_collections, collection@);
            let of_groups = |collection: CollectionId|
                listed_flags(&sync.user_collections_groups, collection@);
            lemma_filter_map_empty(collections@, own);
            lemma_filter_map_empty(collections@, of_groups);
            assert forall|i: int| 0 <= i < collections@.len() implies (!sync_knows(
                sync,
                #[trigger] collections@[i],
            ) <==> own(collections@[i]) is None && of_groups(collections@[i]) is None) by {}
        },
        None => {},
    }
}

/// Whether what is said of the user's standing in the cipher's organization holds at least what
/// the tables show: full access for a confirmed membership with access to everything or of an
/// administrator or owner, and for a group with access to everything that a confirmed
/// membership of the user is in.
pub open spec fn standing_covers(
    t: &Tables,
    user: Seq<char>,
    cipher: Cipher,
    standing: OrgStanding,
) -> bool {
    &&& has_org_access(t, user, cipher) || is_org_admin(t, user, cipher)
        ==> standing.member_full_access == Some(true)
    &&& (exists|m: int, gu: int, g: int|
        #![trigger is_member(t, user, cipher, m), is_in_group(t, m, gu, g)]
        is_member(t, user, cipher, m) && is_in_group(t, m, gu, g) && t.groups@[g].access_all)
        ==> standing.group_full_access
}

/// What the search for a user's ciphers finds, the user may see.
pub proof fn law_found_is_accessible(
    t: &Tables,
    user: UserId,
    visible_only: bool,
    groups: bool,
    cipher: Cipher,
    standing: OrgStanding,
)
    requires
        t.ciphers@.contains(cipher),
        finds(t, user, visible_only, groups, cipher),
        standing_covers(t, user@, cipher, standing),
    ensures
        restrictions(cipher, user, None, groups, standing, t) is Some,
{
    law_finds_what_is_reached(t, user, visible_only, groups, cipher);
    let i = choose|i: int| 0 <= i < t.ciphers@.len() && t.ciphers@[i] == cipher;
    assert(t.ciphers@[i].uuid@ == cipher.uuid@);
    law_no_restrictions_means_no_access(cipher, user, groups, standing, t);
    if groups && has_group_access(t, user@, cipher) {
        let (m, gu, g) = choose|m: int, gu: int, g: int|
            #![trigger is_member(t, user@, cipher, m), is_in_group(t, m, gu, g)]
            is_member(t, user@, cipher, m) && is_in_group(t, m, gu, g)
                && group_reaches(t, cipher, g);
        if !t.groups@[g].access_all {
            let c = choose|c: int| is_group_access(t, cipher, g, c);
            assert(is_access_through(t, user@, cipher, c, gu, m));
        }
    }
}

/// Whether the user owns the cipher, or has full access where it is: as a member of its
/// organization or, where groups are in use, through a group.
pub open spec fn is_unrestricted(
    cipher: Cipher,
    user: Seq<char>,
    groups: bool,
    standing: OrgStanding,
) -> bool {
    ||| cipher.user_uuid matches Some(owner) && owner.0@ == user
    ||| cipher.organization_uuid is Some && standing.member_full_access == Some(true)
    ||| groups && cipher.organization_uuid is Some && standing.group_full_access
}

/// Restrictions that come of a user's own accesses have the columns of the accesses.
proof fn lemma_flags_are_own(t: &Tables, user: UserId, cipher: Cipher, k: int) -> (u: int)
    requires
        0 <= k < user_access_flags(t, user, cipher).len(),
    ensures
        is_own_access(t, user@, cipher, u),
        user_access_flags(t, user, cipher)[k] == (
            t.users_collections@[u].read_only,
            t.users_collections@[u].hide_passwords,
            t.users_collections@[u].manage,
        ),
{
    let subject = &subject_of(user, cipher);
    let start = stored_copies(t, cipher).map_values(|cipher: Cipher| JoinRow::empty_spec());
    let links = joined(t, subject, Join::CipherLinks, false, start);
    let rows = user_flag_rows(t, subject, cipher);
    assert(rows.contains(rows[k]));
    let from = lemma_joined_back(t, subject, Join::UserCollections, false, links, rows[k]);
    let first = lemma_joined_back(t, subject, Join::CipherLinks, false, start, from.0);
    let u = from.1->0 as int;
    assert(is_link(t, cipher, t.users_collections@[u].collection_uuid@, first.1->0 as int));
    u
}

/// Every own access of a user to a stored cipher is among those that restrictions come of.
proof fn lemma_own_is_flag(t: &Tables, user: UserId, cipher: Cipher, u: int) -> (k: int)
    requires
        is_stored(t, cipher),
        is_own_access(t, user@, cipher, u),
    ensures
        0 <= k < user_access_flags(t, user, cipher).len(),
        user_access_flags(t, user, cipher)[k] == (
            t.users_collections@[u].read_only,
            t.users_collections@[u].hide_passwords,
            t.users_collections@[u].manage,
        ),
{
    let subject = &subject_of(user, cipher);
    let start = stored_copies(t, cipher).map_values(|cipher: Cipher| JoinRow::empty_spec());
    let links = joined(t, subject, Join::CipherLinks, false, start);
    let rows = user_flag_rows(t, subject, cipher);
    lemma_stored(t, cipher);
    let collection = t.users_collections@[u].collection_uuid@;
    let l = choose|l: int| is_link(t, cipher, collection, l);
    assert(t.ciphers_collections.len() == t.ciphers_collections@.len());
    assert(t.users_collections.len() == t.users_collections@.len());
    let empty = JoinRow::empty_spec();
    lemma_joined_forward(t, subject, Join::CipherLinks, false, start, empty, l);
    let first = empty.with_spec(Join::CipherLinks, Some(l as usize));
    lemma_joined_forward(t, subject, Join::UserCollections, false, links, first, u);
    let row = first.with_spec(Join::UserCollections, Some(u as usize));
    choose|k: int| 0 <= k < rows.len() && rows[k] == row
}

/// A group's access that reaches the user, by the position of the access and of the records that
/// put the user into the group.
pub struct GroupPath {
    pub access: int,
    pub group_user: int,
    pub member: int,
}

/// Restrictions that come of accesses through groups have the columns of the accesses.
proof fn lemma_flags_are_of_groups(t: &Tables, user: UserId, cipher: Cipher, k: int) -> (path:
    GroupPath)
    requires
        0 <= k < group_access_flags(t, user, true, cipher).len(),
    ensures
        is_access_through(t, user@, cipher, path.access, path.group_user, path.member),
        group_access_flags(t, user, true, cipher)[k] == (
            t.collections_groups@[path.access].read_only,
            t.collections_groups@[path.access].hide_passwords,
            t.collections_groups@[path.access].manage,
        ),
{
    let subject = &subject_of(user, cipher);
    let start = stored_copies(t, cipher).map_values(|cipher: Cipher| JoinRow::empty_spec());
    let links = joined(t, subject, Join::CipherLinks, false, start);
    let accesses = joined(t, subject, Join::LinkedGroups, false, links);
    let group_users = joined(t, subject, Join::CollectionGroupUsers, false, accesses);
    let rows = group_flag_rows(t, subject, cipher);
    let pred = |row: JoinRow| member_is_user(t, user@, row);
    let chosen = rows.filter(pred);
    let row = chosen[k];
    assert(chosen.contains(row));
    lemma_filter_holds(rows, pred, row);
    let with_user = lemma_joined_back(t, subject, Join::GroupMembers, false, group_users, row);
    let with_access = lemma_joined_back(
        t,
        subject,
        Join::CollectionGroupUsers,
        false,
        accesses,
        with_user.0,
    );
    let with_link = lemma_joined_back(
        t,
        subject,
        Join::LinkedGroups,
        false,
        links,
        with_access.0,
    );
    let first = lemma_joined_back(t, subject, Join::CipherLinks, false, start, with_link.0);
    let c = with_link.1->0 as int;
    assert(is_link(t, cipher, t.collections_groups@[c].collections_uuid@, first.1->0 as int));
    GroupPath {
        access: c,
        group_user: with_access.1->0 as int,
        member: with_user.1->0 as int,
    }
}

/// Every access through a group to a stored cipher is among those that restrictions come of.
proof fn lemma_group_access_is_flag(
    t: &Tables,
    user: UserId,
    cipher: Cipher,
    path: GroupPath,
) -> (k: int)
    requires
        is_stored(t, cipher),
        is_access_through(t, user@, cipher, path.access, path.group_user, path.member),
    ensures
        0 <= k < group_access_flags(t, user, true, cipher).len(),
        group_access_flags(t, user, true, cipher)[k] == (
            t.collections_groups@[path.access].read_only,
            t.collections_groups@[path.access].hide_passwords,
            t.collections_groups@[path.access].manage,
        ),
{
    let subject = &subject_of(user, cipher);
    let start = stored_copies(t, cipher).map_values(|cipher: Cipher| JoinRow::empty_spec());
    let links = joined(t, subject, Join::CipherLinks, false, start);
    let accesses = joined(t, subject, Join::LinkedGroups, false, links);
    let group_users = joined(t, subject, Join::CollectionGroupUsers, false, accesses);
    let rows = group_flag_rows(t, subject, cipher);
    let pred = |row: JoinRow| member_is_user(t, user@, row);
    let chosen = rows.filter(pred);
    lemma_stored(t, cipher);
    let (c, gu, m) = (path.access, path.group_user, path.member);
    let collection = t.collections_groups@[c].collections_uuid@;
    let l = choose|l: int| is_link(t, cipher, collection, l);
    assert(t.ciphers_collections.len() == t.ciphers_collections@.len());
    assert(t.collections_groups.len() == t.collections_groups@.len());
    assert(t.groups_users.len() == t.groups_users@.len());
    assert(t.users_organizations.len() == t.users_organizations@.len());
    let empty = JoinRow::empty_spec();
    lemma_joined_forward(t, subject, Join::CipherLinks, false, start, empty, l);
    let first = empty.with_spec(Join::CipherLinks, Some(l as usize));
    lemma_joined_forward(t, subject, Join::LinkedGroups, false, links, first, c);
    let second = first.with_spec(Join::LinkedGroups, Some(c as usize));
    lemma_joined_forward(t, subject, Join::CollectionGroupUsers, false, accesses, second, gu);
    let third = second.with_spec(Join::CollectionGroupUsers, Some(gu as usize));
    lemma_joined_forward(t, subject, Join::GroupMembers, false, group_users, third, m);
    let row = third.with_spec(Join::GroupMembers, Some(m as usize));
    lemma_filter_holds(rows, pred, row);
    choose|k: int| 0 <= k < chosen.len() && chosen[k] == row
}

/// Whoever owns a cipher, or has full access where it is, may read and write it, sees its
/// passwords and manages it.
pub proof fn law_unrestricted_access(
    cipher: Cipher,
    user: UserId,
    groups: bool,
    standing: OrgStanding,
    t: &Tables,
)
    requires
        is_unrestricted(cipher, user.0@, groups, standing),
    ensures
        restrictions(cipher, user, None, groups, standing, t) == Some((false, false, true)),
{
}

/// A user with own accesses to collections of a stored cipher is restricted by these alone: to
/// reading exactly where every one of them is read-only, without passwords exactly where every
/// one hides them; they manage it where one of them does.
pub proof fn law_restrictions_of_own_access(
    cipher: Cipher,
    user: UserId,
    groups: bool,
    standing: OrgStanding,
    t: &Tables,
)
    requires
        is_stored(t, cipher),
        !is_unrestricted(cipher, user.0@, groups, standing),
        has_own_access(t, user.0@, cipher),
    ensures
        restrictions(cipher, user, None, groups, standing, t) == Some(
            (
                forall|u: int| #[trigger]
                    is_own_access(t, user.0@, cipher, u) ==> t.users_collections@[u].read_only,
                forall|u: int| #[trigger]
                    is_own_access(t, user.0@, cipher, u) ==> t.users_collections@[u].hide_passwords,
                exists|u: int| #[trigger]
                    is_own_access(t, user.0@, cipher, u) && t.users_collections@[u].manage,
            ),
        ),
{
    let rows = user_access_flags(t, user, cipher);
    law_own_flags(t, user, cipher);
    if forall|u: int| #[trigger]
        is_own_access(t, user@, cipher, u) ==> t.users_collections@[u].read_only {
        assert forall|k: int| 0 <= k < rows.len() implies is_read_only(#[trigger] rows[k]) by {
            let u = lemma_flags_are_own(t, user, cipher, k);
        }
    } else {
        let u = choose|u: int| #[trigger]
            is_own_access(t, user@, cipher, u) && !t.users_collections@[u].read_only;
        let k = lemma_own_is_flag(t, user, cipher, u);
        assert(!is_read_only(rows[k]));
    }
    if forall|u: int| #[trigger]
        is_own_access(t, user@, cipher, u) ==> t.users_collections@[u].hide_passwords {
        assert forall|k: int| 0 <= k < rows.len() implies is_hiding(#[trigger] rows[k]) by {
            let u = lemma_flags_are_own(t, user, cipher, k);
        }
    } else {
        let u = choose|u: int| #[trigger]
            is_own_access(t, user@, cipher, u) && !t.users_collections@[u].hide_passwords;
        let k = lemma_own_is_flag(t, user, cipher, u);
        assert(!is_hiding(rows[k]));
    }
    if exists|u: int| #[trigger]
        is_own_access(t, user@, cipher, u) && t.users_collections@[u].manage {
        let u = choose|u: int| #[trigger]
            is_own_access(t, user@, cipher, u) && t.users_collections@[u].manage;
        let k = lemma_own_is_flag(t, user, cipher, u);
        assert(is_managing(rows[k]));
    } else {
        assert forall|k: int| 0 <= k < rows.len() implies !is_managing(#[trigger] rows[k]) by {
            let u = lemma_flags_are_own(t, user, cipher, k);
        }
    }
}

/// A user with access to collections of a stored cipher only through groups is restricted by the
/// groups' accesses that reach them: to reading exactly where every one is read-only, without
/// passwords exactly where every one hides them; they manage it where one of them does.
pub proof fn law_restrictions_of_group_access(
    cipher: Cipher,
    user: UserId,
    standing: OrgStanding,
    t: &Tables,
)
    requires
        is_stored(t, cipher),
        !is_unrestricted(cipher, user.0@, true, standing),
        !has_own_access(t, user.0@, cipher),
        has_access_through_groups(t, user.0@, cipher),
    ensures
        restrictions(cipher, user, None, true, standing, t) == Some(
            (
                forall|c: int, gu: int, m: int| #[trigger]
                    is_access_through(t, user.0@, cipher, c, gu, m)
                        ==> t.collections_groups@[c].read_only,
                forall|c: int, gu: int, m: int| #[trigger]
                    is_access_through(t, user.0@, cipher, c, gu, m)
                        ==> t.collections_groups@[c].hide_passwords,
                exists|c: int, gu: int, m: int| #[trigger]
                    is_access_through(t, user.0@, cipher, c, gu, m)
                        && t.collections_groups@[c].manage,
            ),
        ),
{
    let rows = group_access_flags(t, user, true, cipher);
    law_own_flags(t, user, cipher);
    law_group_flags(t, user, true, cipher);
    if forall|c: int, gu: int, m: int| #[trigger]
        is_access_through(t, user@, cipher, c, gu, m) ==> t.collections_groups@[c].read_only {
        assert forall|k: int| 0 <= k < rows.len() implies is_read_only(#[trigger] rows[k]) by {
            let path = lemma_flags_are_of_groups(t, user, cipher, k);
            assert(is_access_through(
                t,
                user@,
                cipher,
                path.access,
                path.group_user,
                path.member,
            ));
        }
    } else {
        let (c, gu, m) = choose|c: int, gu: int, m: int| #[trigger]
            is_access_through(t, user@, cipher, c, gu, m) && !t.collections_groups@[c].read_only;
        let path = GroupPath { access: c, group_user: gu, member: m };
        let k = lemma_group_access_is_flag(t, user, cipher, path);
        assert(!is_read_only(rows[k]));
    }
    if forall|c: int, gu: int, m: int| #[trigger]
        is_access_through(t, user@, cipher, c, gu, m) ==> t.collections_groups@[c].hide_passwords {
        assert forall|k: int| 0 <= k < rows.len() implies is_hiding(#[trigger] rows[k]) by {
            let path = lemma_flags_are_of_groups(t, user, cipher, k);
            assert(is_access_through(
                t,
                user@,
                cipher,
                path.access,
                path.group_user,
                path.member,
            ));
        }
    } else {
        let (c, gu, m) = choose|c: int, gu: int, m: int| #[trigger]
            is_access_through(t, user@, cipher, c, gu, m)
                && !t.collections_groups@[c].hide_passwords;
        let path = GroupPath { access: c, group_user: gu, member: m };
        let k = lemma_group_access_is_flag(t, user, cipher, path);
        assert(!is_hiding(rows[k]));
    }
    if exists|c: int, gu: int, m: int| #[trigger]
        is_access_through(t, user@, cipher, c, gu, m) && t.collections_groups@[c].manage {
        let (c, gu, m) = choose|c: int, gu: int, m: int| #[trigger]
            is_access_through(t, user@, cipher, c, gu, m) && t.collections_groups@[c].manage;
        let path = GroupPath { access: c, group_user: gu, member: m };
        let k = lemma_group_access_is_flag(t, user, cipher, path);
        assert(is_managing(rows[k]));
    } else {
        assert forall|k: int| 0 <= k < rows.len() implies !is_managing(#[trigger] rows[k]) by {
            let path = lemma_flags_are_of_groups(t, user, cipher, k);
            assert(is_access_through(
                t,
                user@,
                cipher,
                path.access,
                path.group_user,
                path.member,
            ));
        }
    }
}

/// Nobody else has any access: neither to a stored cipher without an access of their own or
/// through a group in use, nor to one that is not stored.
pub proof fn law_nobody_else_has_access(
    cipher: Cipher,
    user: UserId,
    groups: bool,
    standing: OrgStanding,
    t: &Tables,
)
    requires
        !is_unrestricted(cipher, user.0@, groups, standing),
        !is_stored(t, cipher) || (!has_own_access(t, user.0@, cipher) && !(groups
            && has_access_through_groups(t, user.0@, cipher))),
    ensures
        restrictions(cipher, user, None, groups, standing, t) is None,
{
    law_own_flags(t, user, cipher);
    law_group_flags(t, user, groups, cipher);
}

/// The flags that are listed for own access and for access through groups are the columns of
/// those accesses, and every such access to a stored cipher is listed.
pub proof fn law_flags_are_columns(t: &Tables, user: UserId, cipher: Cipher, k: int)
    ensures
        0 <= k < user_access_flags(t, user, cipher).len() ==> exists|u: int| #[trigger]
            is_own_access(t, user.0@, cipher, u) && user_access_flags(t, user, cipher)[k] == (
                t.users_collections@[u].read_only,
                t.users_collections@[u].hide_passwords,
                t.users_collections@[u].manage,
            ),
        0 <= k < group_access_flags(t, user, true, cipher).len() ==> exists|
            c: int,
            gu: int,
            m: int,
        | #[trigger]
            is_access_through(t, user.0@, cipher, c, gu, m) && group_access_flags(
                t,
                user,
                true,
                cipher,
            )[k] == (
                t.collections_groups@[c].read_only,
                t.collections_groups@[c].hide_passwords,
                t.collections_groups@[c].manage,
            ),
        group_access_flags(t, user, false, cipher).len() == 0,
{
    if 0 <= k < user_access_flags(t, user, cipher).len() {
        let u = lemma_flags_are_own(t, user, cipher, k);
    }
    if 0 <= k < group_access_flags(t, user, true, cipher).len() {
        let path = lemma_flags_are_of_groups(t, user, cipher, k);
        assert(is_access_through(t, user@, cipher, path.access, path.group_user, path.member));
    }
}

/// A user may write a cipher where their access is not read-only, or where they manage it.
pub proof fn law_who_may_write(read_only: bool, hide_passwords: bool, manage: bool)
    ensures
        allows_writing(Some((read_only, hide_passwords, manage))) == (!read_only || manage),
        !allows_writing(None),
{
}

/// Accesses are combined flag by flag: read-only where all are, passwords hidden where all hide
/// them, managed where one is; there is nothing to combine where there is none.
pub proof fn law_combined_flags(rows: Seq<(bool, bool, bool)>, last: (bool, bool, bool))
    ensures
        combined_flags(Seq::empty()) is None,
        combined_flags(seq![last]) == Some(last),
        rows.len() > 0 ==> combined_flags(rows.push(last)) == Some(
            (
                (combined_flags(rows)->0).0 && last.0,
                (combined_flags(rows)->0).1 && last.1,
                (combined_flags(rows)->0).2 || last.2,
            ),
        ),
{
    let one = seq![last];
    assert(one[0] == last);
    assert(is_read_only(one[0]) == last.0 && is_hiding(one[0]) == last.1 && is_managing(one[0])
        == last.2);
    let all = rows.push(last);
    let n = rows.len() as int;
    assert(all[n] == last);
    assert(is_read_only(all[n]) == last.0 && is_hiding(all[n]) == last.1 && is_managing(all[n])
        == last.2);
    assert forall|i: int| 0 <= i < n implies #[trigger] all[i] == rows[i] by {}
    assert forall|i: int| 0 <= i < n implies #[trigger] rows[i] == all[i] by {}
}

/// Whether, during a sync, the user owns the cipher, or has full access where it is.
pub open spec fn is_unrestricted_in_sync(
    cipher: Cipher,
    user: Seq<char>,
    sync: &CipherSyncData,
    groups: bool,
) -> bool {
    ||| cipher.user_uuid matches Some(owner) && owner.0@ == user
    ||| cipher.organization_uuid matches Some(org) && sync.members.lookup(org.0@) == Some(true)
    ||| groups && (cipher.organization_uuid matches Some(org) && exists|i: int|
        0 <= i < sync.user_group_full_access_for_organizations@.len() && (
        #[trigger] sync.user_group_full_access_for_organizations@[i]).0@ == org.0@)
}

/// Whether the access is listed for the collection at a position.
pub open spec fn is_listed_access(
    accesses: &TextMap<CollectionAccess>,
    collections: Seq<CollectionId>,
    i: int,
) -> bool {
    0 <= i < collections.len() && accesses.lookup(collections[i].0@) is Some
}

/// What the accesses that are listed for some of the collections come to: read-only where all
/// are, passwords hidden where all hide them, managed where one is.
pub open spec fn listed_restrictions(
    accesses: &TextMap<CollectionAccess>,
    collections: Seq<CollectionId>,
) -> (bool, bool, bool) {
    (
        forall|i: int| #[trigger]
            is_listed_access(accesses, collections, i) ==> accesses.lookup(
                collections[i].0@,
            )->0.read_only,
        forall|i: int| #[trigger]
            is_listed_access(accesses, collections, i) ==> accesses.lookup(
                collections[i].0@,
            )->0.hide_passwords,
        exists|i: int| #[trigger]
            is_listed_access(accesses, collections, i) && accesses.lookup(
                collections[i].0@,
            )->0.manage,
    )
}

/// The accesses that a list has for collections come to what their fields say.
proof fn lemma_gathered(accesses: &TextMap<CollectionAccess>, collections: Seq<CollectionId>)
    ensures
        ({
            let rows = gathered_flags(accesses, collections);
            &&& rows.len() > 0 <==> exists|i: int| is_listed_access(accesses, collections, i)
            &&& rows.len() > 0 ==> combined_flags(rows) == Some(
                listed_restrictions(accesses, collections),
            )
        }),
    decreases collections.len(),
{
    let f = |collection: CollectionId| listed_flags(accesses, collection@);
    let rows = gathered_flags(accesses, collections);
    reveal(Seq::filter_map);
    if collections.len() > 0 {
        let n = collections.len() - 1;
        let front = collections.drop_last();
        let before = gathered_flags(accesses, front);
        lemma_gathered(accesses, front);
        assert(collections.take(n) =~= front);
        assert(collections.take(n + 1) =~= collections);
        collections.lemma_filter_map_take_succ(f, n);
        assert forall|i: int| 0 <= i < n implies (is_listed_access(accesses, front, i)
            == #[trigger] is_listed_access(accesses, collections, i)) && front[i]
            == collections[i] by {}
        assert forall|i: int| #[trigger] is_listed_access(accesses, front, i) implies
            is_listed_access(accesses, collections, i) && front[i] == collections[i] by {}
        match accesses.lookup(collections[n]@) {
            Some(access) => {
                let last = (access.read_only, access.hide_passwords, access.manage);
                assert(is_listed_access(accesses, collections, n));
                assert(rows =~= before.push(last));
                if before.len() > 0 {
                    law_combined_flags(before, last);
                } else {
                    law_combined_flags(before, last);
                    assert(rows =~= seq![last]);
                    assert forall|i: int| #[trigger]
                        is_listed_access(accesses, collections, i) implies i == n by {
                        if i < n {
                            assert(is_listed_access(accesses, front, i));
                        }
                    }
                }
            },
            None => {
                assert(rows =~= before);
                assert forall|i: int| #[trigger]
                    is_listed_access(accesses, collections, i) implies is_listed_access(
                    accesses,
                    front,
                    i,
                ) by {}
            },
        }
    }
}

/// During a sync the restrictions are told from the sync data alone. Whoever owns the cipher or
/// has full access is under none. Else the user's own accesses to the collections of the cipher
/// count, and only where there are none, those of groups; without any there is no access.
pub proof fn law_restrictions_in_a_sync(
    cipher: Cipher,
    user: UserId,
    sync: &CipherSyncData,
    groups: bool,
    standing: OrgStanding,
    t: &Tables,
    collections: Vec<CollectionId>,
)
    ensures
        ({
            let flags = restrictions(cipher, user, Some(sync), groups, standing, t);
            let own = exists|i: int|
                is_listed_access(&sync.user_collections, collections@, i);
            let of_groups = exists|i: int|
                is_listed_access(&sync.user_collections_groups, collections@, i);
            if is_unrestricted_in_sync(cipher, user.0@, sync, groups) {
                flags == Some((false, false, true))
            } else if sync.cipher_collections.lookup(cipher.uuid.0@) is None {
                flags is None
            } else if sync.cipher_collections.lookup(cipher.uuid.0@) == Some(collections) {
                if own {
                    flags == Some(listed_restrictions(&sync.user_collections, collections@))
                } else if of_groups {
                    flags == Some(
                        listed_restrictions(&sync.user_collections_groups, collections@),
                    )
                } else {
                    flags is None
                }
            } else {
                true
            }
        }),
{
    lemma_gathered(&sync.user_collections, collections@);
    lemma_gathered(&sync.user_collections_groups, collections@);
    if cipher.organization_uuid is Some {
        law_lists(
            Seq::empty(),
            sync.user_group_full_access_for_organizations@,
            (cipher.organization_uuid->0).0@,
        );
    }
}

/// A user has full access to a cipher as a member where the cipher names an organization in which
/// a sync has listed the user so or, without a sync, the membership says so; and through a group
/// where groups are in use and the same holds of groups.
pub proof fn law_full_access(
    cipher: Cipher,
    sync: &CipherSyncData,
    groups: bool,
    standing: OrgStanding,
)
    ensures
        full_access_org(cipher, None, standing) <==> cipher.organization_uuid is Some
            && standing.member_full_access == Some(true),
        full_access_org(cipher, Some(sync), standing) <==> cipher.organization_uuid is Some
            && sync.members.lookup(cipher.organization_uuid.unwrap().0@) == Some(true),
        full_access_group(cipher, None, groups, standing) <==> groups
            && cipher.organization_uuid is Some && standing.group_full_access,
        full_access_group(cipher, Some(sync), groups, standing) <==> groups
            && cipher.organization_uuid is Some && exists|i: int|
            0 <= i < sync.user_group_full_access_for_organizations@.len() && (#[trigger]
            sync.user_group_full_access_for_organizations@[i]).0@
                == cipher.organization_uuid.unwrap().0@,
{
    if cipher.organization_uuid is Some {
        law_lists(
            Seq::empty(),
            sync.user_group_full_access_for_organizations@,
            cipher.organization_uuid.unwrap().0@,
        );
    }
}

} // verus!
