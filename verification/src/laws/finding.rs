//! Laws on which ciphers a user finds.

use crate::cipher::Cipher;
use crate::ids::UserId;
use crate::joins::{
    joined, lemma_joined_back, lemma_joined_forward, lemma_joined_outer, linked, Join, JoinRow,
    Subject,
};
use crate::queries::{
    access_rows, finds, finds_row, found_ciphers, is_first_row, lemma_positions_rise, positions,
    row_finds, subject_of,
};
use crate::seqs::lemma_filter_holds;
use crate::tables::Tables;
use vstd::prelude::*;

verus! {

/// Whether the membership is the user's, confirmed, and in the cipher's organization.
pub open spec fn is_member(t: &Tables, user: Seq<char>, cipher: Cipher, m: int) -> bool {
    &&& 0 <= m < t.users_organizations@.len()
    &&& cipher.organization_uuid matches Some(org) && org.0@
        == t.users_organizations@[m].org_uuid.0@
    &&& t.users_organizations@[m].user_uuid.0@ == user
    &&& t.users_organizations@[m].status == 2
}

/// Whether the user has a confirmed membership in the cipher's organization.
pub open spec fn is_confirmed(t: &Tables, user: Seq<char>, cipher: Cipher) -> bool {
    exists|m: int| is_member(t, user, cipher, m)
}

/// Whether the user is a confirmed administrator or owner of the cipher's organization.
pub open spec fn is_org_admin(t: &Tables, user: Seq<char>, cipher: Cipher) -> bool {
    exists|m: int| #[trigger]
        is_member(t, user, cipher, m) && t.users_organizations@[m].atype <= 1
}

/// Whether the user is a confirmed member with access to everything in the cipher's
/// organization.
pub open spec fn has_org_access(t: &Tables, user: Seq<char>, cipher: Cipher) -> bool {
    exists|m: int| #[trigger]
        is_member(t, user, cipher, m) && t.users_organizations@[m].access_all
}

/// Whether the link puts the cipher into the collection.
pub open spec fn is_link(t: &Tables, cipher: Cipher, collection: Seq<char>, l: int) -> bool {
    &&& 0 <= l < t.ciphers_collections@.len()
    &&& t.ciphers_collections@[l].cipher_uuid.0@ == cipher.uuid.0@
    &&& t.ciphers_collections@[l].collection_uuid.0@ == collection
}

/// Whether the cipher is in the collection.
pub open spec fn in_collection(t: &Tables, cipher: Cipher, collection: Seq<char>) -> bool {
    exists|l: int| is_link(t, cipher, collection, l)
}

/// Whether the access is the user's, to a collection that the cipher is in.
pub open spec fn is_own_access(t: &Tables, user: Seq<char>, cipher: Cipher, u: int) -> bool {
    &&& 0 <= u < t.users_collections@.len()
    &&& t.users_collections@[u].user_uuid.0@ == user
    &&& in_collection(t, cipher, t.users_collections@[u].collection_uuid.0@)
}

/// Whether the user has access to a collection that the cipher is in.
pub open spec fn has_own_access(t: &Tables, user: Seq<char>, cipher: Cipher) -> bool {
    exists|u: int| is_own_access(t, user, cipher, u)
}

/// Whether the record puts the member into the group.
pub open spec fn is_in_group(t: &Tables, m: int, gu: int, g: int) -> bool {
    &&& 0 <= gu < t.groups_users@.len()
    &&& 0 <= g < t.groups@.len()
    &&& t.groups_users@[gu].users_organizations_uuid.0@ == t.users_organizations@[m].uuid.0@
    &&& t.groups@[g].uuid.0@ == t.groups_users@[gu].groups_uuid.0@
}

/// Whether the access is the group's, to a collection that the cipher is in.
pub open spec fn is_group_access(t: &Tables, cipher: Cipher, g: int, c: int) -> bool {
    &&& 0 <= c < t.collections_groups@.len()
    &&& t.collections_groups@[c].groups_uuid.0@ == t.groups@[g].uuid.0@
    &&& in_collection(t, cipher, t.collections_groups@[c].collections_uuid.0@)
}

/// Whether the group has access to everything, or to a collection that the cipher is in.
pub open spec fn group_reaches(t: &Tables, cipher: Cipher, g: int) -> bool {
    t.groups@[g].access_all || exists|c: int| is_group_access(t, cipher, g, c)
}

/// Whether the user is a confirmed member in a group that reaches the cipher.
pub open spec fn has_group_access(t: &Tables, user: Seq<char>, cipher: Cipher) -> bool {
    exists|m: int, gu: int, g: int|
        #![trigger is_member(t, user, cipher, m), is_in_group(t, m, gu, g)]
        is_member(t, user, cipher, m) && is_in_group(t, m, gu, g) && group_reaches(t, cipher, g)
}

/// Whether the user reaches the cipher: as its owner; as a confirmed member of its organization
/// with access to everything in it or to a collection that the cipher is in; where groups are
/// in use, as a confirmed member in a group that has such access; and, unless only visible
/// ciphers count, as a confirmed administrator or owner of the organization.
pub open spec fn reaches(
    t: &Tables,
    user: Seq<char>,
    visible_only: bool,
    groups: bool,
    cipher: Cipher,
) -> bool {
    ||| cipher.user_uuid matches Some(owner) && owner.0@ == user
    ||| has_org_access(t, user, cipher)
    ||| is_confirmed(t, user, cipher) && has_own_access(t, user, cipher)
    ||| groups && has_group_access(t, user, cipher)
    ||| !visible_only && is_org_admin(t, user, cipher)
}

/// Whether what the tables contribute to a combined row meets the join conditions.
spec fn well_joined(t: &Tables, subject: &Subject, row: JoinRow) -> bool {
    &&& row.link matches Some(l) ==> l < t.ciphers_collections@.len() && linked(
        t,
        subject,
        Join::CipherLinks,
        row,
        l as int,
    )
    &&& row.member matches Some(m) ==> m < t.users_organizations@.len() && linked(
        t,
        subject,
        Join::ConfirmedMembers,
        row,
        m as int,
    )
    &&& row.user_collection matches Some(u) ==> u < t.users_collections@.len() && linked(
        t,
        subject,
        Join::MemberCollections,
        row,
        u as int,
    )
    &&& row.group_user matches Some(gu) ==> gu < t.groups_users@.len() && linked(
        t,
        subject,
        Join::MemberGroups,
        row,
        gu as int,
    )
    &&& row.group matches Some(g) ==> g < t.groups@.len() && linked(
        t,
        subject,
        Join::Groups,
        row,
        g as int,
    )
    &&& row.collection_group matches Some(c) ==> c < t.collections_groups@.len() && linked(
        t,
        subject,
        Join::GroupCollections,
        row,
        c as int,
    )
}

/// What the tables contribute to the combined rows of the search meets the join conditions.
proof fn lemma_access_row(t: &Tables, subject: &Subject, groups: bool, row: JoinRow)
    requires
        access_rows(t, subject, groups).contains(row),
    ensures
        well_joined(t, subject, row),
{
    let start = seq![JoinRow::empty_spec()];
    let links = joined(t, subject, Join::CipherLinks, true, start);
    let members = joined(t, subject, Join::ConfirmedMembers, true, links);
    let collections = joined(t, subject, Join::MemberCollections, true, members);
    let group_users = joined(t, subject, Join::MemberGroups, true, collections);
    let in_groups = joined(t, subject, Join::Groups, true, group_users);
    let with_collection = if groups {
        let from = lemma_joined_back(t, subject, Join::GroupCollections, true, in_groups, row);
        let group = lemma_joined_back(t, subject, Join::Groups, true, group_users, from.0);
        let user = lemma_joined_back(t, subject, Join::MemberGroups, true, collections, group.0);
        user.0
    } else {
        row
    };
    let with_member = lemma_joined_back(
        t,
        subject,
        Join::MemberCollections,
        true,
        members,
        with_collection,
    );
    let with_link = lemma_joined_back(
        t,
        subject,
        Join::ConfirmedMembers,
        true,
        links,
        with_member.0,
    );
    let first = lemma_joined_back(t, subject, Join::CipherLinks, true, start, with_link.0);
    assert(first.0 == JoinRow::empty_spec());
}

/// A combined row that lets the user find the cipher shows how the user reaches it.
proof fn lemma_row_reaches(
    t: &Tables,
    user: UserId,
    visible_only: bool,
    groups: bool,
    cipher: Cipher,
    row: JoinRow,
)
    requires
        access_rows(t, &subject_of(user, cipher), groups).contains(row),
        row_finds(t, user@, visible_only, groups, cipher, row),
    ensures
        reaches(t, user@, visible_only, groups, cipher),
{
    lemma_access_row(t, &subject_of(user, cipher), groups, row);
    if row.member is Some {
        assert(is_member(t, user@, cipher, row.member->0 as int));
    }
    if row.user_collection is Some {
        let u = row.user_collection->0 as int;
        let collection = t.users_collections@[u].collection_uuid@;
        assert(is_link(t, cipher, collection, row.link->0 as int));
        assert(is_own_access(t, user@, cipher, u));
    }
    if row.group is Some {
        let g = row.group->0 as int;
        let gu = row.group_user->0 as int;
        assert(is_in_group(t, row.member->0 as int, gu, g));
        if row.collection_group is Some {
            let c = row.collection_group->0 as int;
            let collection = t.collections_groups@[c].collections_uuid@;
            assert(is_link(t, cipher, collection, row.link->0 as int));
            assert(is_group_access(t, cipher, g, c));
        }
        assert(groups && (group_reaches(t, cipher, g)) ==> has_group_access(t, user@, cipher));
    }
}

/// The search has a combined row with the given link and membership, and with the given access
/// of the member's where there is one.
proof fn lemma_member_row(
    t: &Tables,
    subject: &Subject,
    link: Option<int>,
    member: Option<int>,
    access: Option<int>,
) -> (row: JoinRow)
    requires
        link matches Some(l) ==> 0 <= l < t.ciphers_collections@.len() && linked(
            t,
            subject,
            Join::CipherLinks,
            JoinRow::empty_spec(),
            l,
        ),
        member matches Some(m) ==> 0 <= m < t.users_organizations@.len() && linked(
            t,
            subject,
            Join::ConfirmedMembers,
            JoinRow::empty_spec(),
            m,
        ),
        access matches Some(u) ==> 0 <= u < t.users_collections@.len() && link is Some
            && member is Some && t.users_collections@[u].collection_uuid@
            == t.ciphers_collections@[link->0].collection_uuid@
            && t.users_collections@[u].user_uuid@
            == t.users_organizations@[member->0].user_uuid@,
    ensures
        access_rows(t, subject, false).contains(row),
        link is Some ==> row.link is Some && row.link->0 == link->0,
        member is Some ==> row.member is Some && row.member->0 == member->0,
        access is Some ==> row.user_collection is Some && row.user_collection->0 == access->0,
{
    assert(t.ciphers_collections.len() == t.ciphers_collections@.len());
    assert(t.users_organizations.len() == t.users_organizations@.len());
    assert(t.users_collections.len() == t.users_collections@.len());
    let start = seq![JoinRow::empty_spec()];
    assert(start[0] == JoinRow::empty_spec());
    let links = joined(t, subject, Join::CipherLinks, true, start);
    let members = joined(t, subject, Join::ConfirmedMembers, true, links);
    let first = match link {
        Some(l) => {
            lemma_joined_forward(
                t,
                subject,
                Join::CipherLinks,
                true,
                start,
                JoinRow::empty_spec(),
                l,
            );
            JoinRow::empty_spec().with_spec(Join::CipherLinks, Some(l as usize))
        },
        None => {
            let at = lemma_joined_outer(
                t,
                subject,
                Join::CipherLinks,
                start,
                JoinRow::empty_spec(),
            );
            JoinRow::empty_spec().with_spec(Join::CipherLinks, at)
        },
    };
    let second = match member {
        Some(m) => {
            lemma_joined_forward(t, subject, Join::ConfirmedMembers, true, links, first, m);
            first.with_spec(Join::ConfirmedMembers, Some(m as usize))
        },
        None => {
            let at = lemma_joined_outer(t, subject, Join::ConfirmedMembers, links, first);
            first.with_spec(Join::ConfirmedMembers, at)
        },
    };
    match access {
        Some(u) => {
            lemma_joined_forward(t, subject, Join::MemberCollections, true, members, second, u);
            second.with_spec(Join::MemberCollections, Some(u as usize))
        },
        None => {
            let at = lemma_joined_outer(t, subject, Join::MemberCollections, members, second);
            second.with_spec(Join::MemberCollections, at)
        },
    }
}

/// With groups in use, every combined row of the search without them goes on to one or more.
proof fn lemma_group_row(t: &Tables, subject: &Subject, from: JoinRow) -> (row: JoinRow)
    requires
        access_rows(t, subject, false).contains(from),
    ensures
        access_rows(t, subject, true).contains(row),
        row.link == from.link,
        row.member == from.member,
        row.user_collection == from.user_collection,
{
    let collections = access_rows(t, subject, false);
    let group_users = joined(t, subject, Join::MemberGroups, true, collections);
    let in_groups = joined(t, subject, Join::Groups, true, group_users);
    let gu = lemma_joined_outer(t, subject, Join::MemberGroups, collections, from);
    let first = from.with_spec(Join::MemberGroups, gu);
    let g = lemma_joined_outer(t, subject, Join::Groups, group_users, first);
    let second = first.with_spec(Join::Groups, g);
    let c = lemma_joined_outer(t, subject, Join::GroupCollections, in_groups, second);
    second.with_spec(Join::GroupCollections, c)
}

/// With groups in use, a combined row with a membership goes on to one with a group of the
/// member, and with the group's access to the linked collection where there is one.
proof fn lemma_group_row_of(
    t: &Tables,
    subject: &Subject,
    from: JoinRow,
    gu: int,
    g: int,
    access: Option<int>,
) -> (row: JoinRow)
    requires
        access_rows(t, subject, false).contains(from),
        from.member is Some,
        is_in_group(t, from.member->0 as int, gu, g),
        access matches Some(c) ==> 0 <= c < t.collections_groups@.len() && from.link is Some
            && t.collections_groups@[c].collections_uuid@
            == t.ciphers_collections@[from.link->0 as int].collection_uuid@
            && t.collections_groups@[c].groups_uuid@ == t.groups@[g].uuid@,
    ensures
        access_rows(t, subject, true).contains(row),
        row.group is Some && row.group->0 == g,
        access is Some ==> row.collection_group is Some,
{
    assert(t.groups_users.len() == t.groups_users@.len());
    assert(t.groups.len() == t.groups@.len());
    assert(t.collections_groups.len() == t.collections_groups@.len());
    let collections = access_rows(t, subject, false);
    let group_users = joined(t, subject, Join::MemberGroups, true, collections);
    let in_groups = joined(t, subject, Join::Groups, true, group_users);
    lemma_joined_forward(t, subject, Join::MemberGroups, true, collections, from, gu);
    let first = from.with_spec(Join::MemberGroups, Some(gu as usize));
    lemma_joined_forward(t, subject, Join::Groups, true, group_users, first, g);
    let second = first.with_spec(Join::Groups, Some(g as usize));
    match access {
        Some(c) => {
            lemma_joined_forward(t, subject, Join::GroupCollections, true, in_groups, second, c);
            second.with_spec(Join::GroupCollections, Some(c as usize))
        },
        None => {
            let c = lemma_joined_outer(t, subject, Join::GroupCollections, in_groups, second);
            second.with_spec(Join::GroupCollections, c)
        },
    }
}

/// A combined row of the search without groups that lets the user find the cipher is enough,
/// whether groups are in use or not.
proof fn lemma_found_by(
    t: &Tables,
    user: UserId,
    visible_only: bool,
    groups: bool,
    cipher: Cipher,
    row: JoinRow,
)
    requires
        access_rows(t, &subject_of(user, cipher), false).contains(row),
        row_finds(t, user@, visible_only, false, cipher, row),
    ensures
        finds(t, user, visible_only, groups, cipher),
{
    let subject = &subject_of(user, cipher);
    let pred = |row: JoinRow| row_finds(t, user@, visible_only, groups, cipher, row);
    let rows = access_rows(t, subject, groups);
    let found = if groups {
        lemma_group_row(t, subject, row)
    } else {
        row
    };
    let i = choose|i: int| 0 <= i < rows.len() && rows[i] == found;
    assert(pred(rows[i]));
}

/// Whoever reaches the cipher through a group finds it where groups are in use.
proof fn lemma_group_finds(t: &Tables, user: UserId, visible_only: bool, cipher: Cipher)
    requires
        has_group_access(t, user@, cipher),
    ensures
        finds(t, user, visible_only, true, cipher),
{
    let subject = &subject_of(user, cipher);
    let pred = |row: JoinRow| row_finds(t, user@, visible_only, true, cipher, row);
    let rows = access_rows(t, subject, true);
    let (m, gu, g) = choose|m: int, gu: int, g: int|
        #![trigger is_member(t, user@, cipher, m), is_in_group(t, m, gu, g)]
        is_member(t, user@, cipher, m) && is_in_group(t, m, gu, g) && group_reaches(
            t,
            cipher,
            g,
        );
    let found = if t.groups@[g].access_all {
        let from = lemma_member_row(t, subject, None, Some(m), None);
        lemma_group_row_of(t, subject, from, gu, g, None)
    } else {
        let c = choose|c: int| is_group_access(t, cipher, g, c);
        let collection = t.collections_groups@[c].collections_uuid@;
        let l = choose|l: int| is_link(t, cipher, collection, l);
        let from = lemma_member_row(t, subject, Some(l), Some(m), None);
        lemma_group_row_of(t, subject, from, gu, g, Some(c))
    };
    let i = choose|i: int| 0 <= i < rows.len() && rows[i] == found;
    assert(pred(rows[i]));
}

/// The search for a user's ciphers finds exactly those that the user reaches.
pub proof fn law_finds_what_is_reached(
    t: &Tables,
    user: UserId,
    visible_only: bool,
    groups: bool,
    cipher: Cipher,
)
    ensures
        finds(t, user, visible_only, groups, cipher) <==> reaches(
            t,
            user@,
            visible_only,
            groups,
            cipher,
        ),
{
    let subject = &subject_of(user, cipher);
    if finds(t, user, visible_only, groups, cipher) {
        let rows = access_rows(t, subject, groups);
        let pred = |row: JoinRow| row_finds(t, user@, visible_only, groups, cipher, row);
        let i = choose|i: int| 0 <= i < rows.len() && pred(#[trigger] rows[i]);
        assert(rows.contains(rows[i]));
        lemma_row_reaches(t, user, visible_only, groups, cipher, rows[i]);
    }
    if cipher.owned_by(user@) {
        let row = lemma_member_row(t, subject, None, None, None);
        lemma_found_by(t, user, visible_only, groups, cipher, row);
    }
    if has_org_access(t, user@, cipher) {
        let m = choose|m: int| #[trigger]
            is_member(t, user@, cipher, m) && t.users_organizations@[m].access_all;
        let row = lemma_member_row(t, subject, None, Some(m), None);
        lemma_found_by(t, user, visible_only, groups, cipher, row);
    }
    if !visible_only && is_org_admin(t, user@, cipher) {
        let m = choose|m: int| #[trigger]
            is_member(t, user@, cipher, m) && t.users_organizations@[m].atype <= 1;
        let row = lemma_member_row(t, subject, None, Some(m), None);
        lemma_found_by(t, user, visible_only, groups, cipher, row);
    }
    if is_confirmed(t, user@, cipher) && has_own_access(t, user@, cipher) {
        let m = choose|m: int| is_member(t, user@, cipher, m);
        let u = choose|u: int| is_own_access(t, user@, cipher, u);
        let collection = t.users_collections@[u].collection_uuid@;
        let l = choose|l: int| is_link(t, cipher, collection, l);
        let row = lemma_member_row(t, subject, Some(l), Some(m), Some(u));
        lemma_found_by(t, user, visible_only, groups, cipher, row);
    }
    if groups && has_group_access(t, user@, cipher) {
        lemma_group_finds(t, user, visible_only, cipher);
    }
}

/// A visible cipher is accessible; one that is accessible without being visible belongs to an
/// organization of which the user is a confirmed administrator or owner.
pub proof fn law_visible_is_accessible(t: &Tables, user: UserId, groups: bool, cipher: Cipher)
    ensures
        finds(t, user, true, groups, cipher) ==> finds(t, user, false, groups, cipher),
        finds(t, user, false, groups, cipher) && !finds(t, user, true, groups, cipher)
            ==> is_org_admin(t, user@, cipher),
{
    law_finds_what_is_reached(t, user, true, groups, cipher);
    law_finds_what_is_reached(t, user, false, groups, cipher);
}

/// The owner of a cipher always finds it.
pub proof fn law_owner_finds(
    t: &Tables,
    user: UserId,
    visible_only: bool,
    groups: bool,
    cipher: Cipher,
)
    requires
        cipher.owned_by(user@),
    ensures
        finds(t, user, visible_only, groups, cipher),
{
    law_finds_what_is_reached(t, user, visible_only, groups, cipher);
}

/// Where groups come into use, no cipher is lost to a user.
pub proof fn law_groups_only_add(t: &Tables, user: UserId, visible_only: bool, cipher: Cipher)
    ensures
        finds(t, user, visible_only, false, cipher) ==> finds(t, user, visible_only, true, cipher),
{
    law_finds_what_is_reached(t, user, visible_only, false, cipher);
    law_finds_what_is_reached(t, user, visible_only, true, cipher);
}

/// Whoever is not a confirmed member of a cipher's organization finds the cipher only as its
/// owner.
pub proof fn law_unconfirmed_finds_only_own(
    t: &Tables,
    user: UserId,
    visible_only: bool,
    groups: bool,
    cipher: Cipher,
)
    requires
        !is_confirmed(t, user@, cipher),
    ensures
        finds(t, user, visible_only, groups, cipher) == cipher.owned_by(user@),
{
    law_finds_what_is_reached(t, user, visible_only, groups, cipher);
}

/// Whether no two ciphers have the same identifier.
pub open spec fn distinct_ciphers(ciphers: Seq<Cipher>) -> bool {
    forall|i: int, j: int|
        0 <= i < j < ciphers.len() ==> (#[trigger] ciphers[i]).uuid.0@ != (#[trigger]
        ciphers[j]).uuid.0@
}

/// Of two ciphers that are equal in all columns, the search finds both or none.
proof fn lemma_same_is_found(
    t: &Tables,
    user: UserId,
    visible_only: bool,
    groups: bool,
    one: Cipher,
    other: Cipher,
)
    requires
        one.same_as(&other),
        finds(t, user, visible_only, groups, one),
    ensures
        finds(t, user, visible_only, groups, other),
{
    law_finds_what_is_reached(t, user, visible_only, groups, one);
    law_finds_what_is_reached(t, user, visible_only, groups, other);
    assert forall|m: int| is_member(t, user@, one, m) implies is_member(t, user@, other, m) by {}
    assert forall|collection: Seq<char>, l: int|
        is_link(t, one, collection, l) implies is_link(t, other, collection, l) by {}
    assert forall|collection: Seq<char>| #[trigger]
        in_collection(t, one, collection) implies in_collection(t, other, collection) by {
        let l = choose|l: int| is_link(t, one, collection, l);
        assert(is_link(t, other, collection, l));
    }
    if has_org_access(t, user@, one) {
        let m = choose|m: int| #[trigger]
            is_member(t, user@, one, m) && t.users_organizations@[m].access_all;
        assert(is_member(t, user@, other, m));
    }
    if is_org_admin(t, user@, one) {
        let m = choose|m: int| #[trigger]
            is_member(t, user@, one, m) && t.users_organizations@[m].atype <= 1;
        assert(is_member(t, user@, other, m));
    }
    if is_confirmed(t, user@, one) {
        let m = choose|m: int| is_member(t, user@, one, m);
        assert(is_member(t, user@, other, m));
    }
    if has_own_access(t, user@, one) {
        let u = choose|u: int| is_own_access(t, user@, one, u);
        assert(is_own_access(t, user@, other, u));
    }
    if has_group_access(t, user@, one) {
        let (m, gu, g) = choose|m: int, gu: int, g: int|
            #![trigger is_member(t, user@, one, m), is_in_group(t, m, gu, g)]
            is_member(t, user@, one, m) && is_in_group(t, m, gu, g) && group_reaches(t, one, g);
        assert(is_member(t, user@, other, m));
        if !t.groups@[g].access_all {
            let c = choose|c: int| is_group_access(t, one, g, c);
            assert(is_group_access(t, other, g, c));
        }
        assert(group_reaches(t, other, g));
    }
}

/// Of the rows that are equal to the one at a position, one is the first.
proof fn lemma_first_row(ciphers: Seq<Cipher>, i: int) -> (first: int)
    requires
        0 <= i < ciphers.len(),
    ensures
        0 <= first <= i,
        ciphers[first].same_as(&ciphers[i]),
        is_first_row(ciphers, first),
    decreases i,
{
    if is_first_row(ciphers, i) {
        i
    } else {
        let j = choose|j: int| 0 <= j < i && (#[trigger] ciphers[j]).same_as(&ciphers[i]);
        lemma_first_row(ciphers, j)
    }
}

/// Whether two optional texts are equal.
pub open spec fn equal_texts(one: Option<String>, other: Option<String>) -> bool {
    match (one, other) {
        (Some(one), Some(other)) => one@ == other@,
        (None, None) => true,
        _ => false,
    }
}

/// Whether two ciphers have equal values in every column.
pub open spec fn equal_columns(one: Cipher, other: Cipher) -> bool {
    &&& one.uuid.0@ == other.uuid.0@
    &&& one.created_at.secs == other.created_at.secs && one.created_at.nanos
        == other.created_at.nanos
    &&& one.updated_at.secs == other.updated_at.secs && one.updated_at.nanos
        == other.updated_at.nanos
    &&& match (one.user_uuid, other.user_uuid) {
        (Some(one), Some(other)) => one.0@ == other.0@,
        (None, None) => true,
        _ => false,
    }
    &&& match (one.organization_uuid, other.organization_uuid) {
        (Some(one), Some(other)) => one.0@ == other.0@,
        (None, None) => true,
        _ => false,
    }
    &&& equal_texts(one.key, other.key)
    &&& one.atype == other.atype
    &&& one.name@ == other.name@
    &&& equal_texts(one.notes, other.notes)
    &&& equal_texts(one.fields, other.fields)
    &&& one.data@ == other.data@
    &&& equal_texts(one.password_history, other.password_history)
    &&& one.deleted_at == other.deleted_at
    &&& one.reprompt == other.reprompt
}

/// Rows count as equal exactly where every column is.
proof fn lemma_equal_rows(one: Cipher, other: Cipher)
    ensures
        one.same_as(&other) <==> equal_columns(one, other),
{
}

/// Every stored cipher that a user reaches is among those that they find: one with its
/// identifier, its name, its data and every other column.
pub proof fn law_reached_is_found(
    t: &Tables,
    user: UserId,
    visible_only: bool,
    groups: bool,
    i: int,
) -> (k: int)
    requires
        0 <= i < t.ciphers@.len(),
        reaches(t, user.0@, visible_only, groups, t.ciphers@[i]),
    ensures
        0 <= k < found_ciphers(t, user, visible_only, groups).len(),
        ({
            let found = found_ciphers(t, user, visible_only, groups)[k];
            let stored = t.ciphers@[i];
            &&& found.uuid@ == stored.uuid@
            &&& found.name@ == stored.name@
            &&& found.data@ == stored.data@
            &&& equal_columns(found, stored)
        }),
{
    let all = positions(t.ciphers@.len());
    let pred = |at: usize| finds_row(t, user, visible_only, groups, at);
    let chosen = all.filter(pred);
    let stored = t.ciphers@[i];
    law_finds_what_is_reached(t, user, visible_only, groups, stored);
    assert(t.ciphers.len() == t.ciphers@.len());
    let first = lemma_first_row(t.ciphers@, i);
    lemma_same_is_found(t, user, visible_only, groups, stored, t.ciphers@[first]);
    assert(all[first] == first as usize);
    lemma_filter_holds(all, pred, first as usize);
    lemma_equal_rows(t.ciphers@[first], stored);
    choose|k: int| 0 <= k < chosen.len() && chosen[k] == first as usize
}

/// Every cipher that a user finds is stored as it is found, and reached by them.
pub proof fn law_found_is_stored_and_reached(
    t: &Tables,
    user: UserId,
    visible_only: bool,
    groups: bool,
    k: int,
) -> (i: int)
    requires
        0 <= k < found_ciphers(t, user, visible_only, groups).len(),
    ensures
        0 <= i < t.ciphers@.len(),
        t.ciphers@[i] == found_ciphers(t, user, visible_only, groups)[k],
        reaches(t, user.0@, visible_only, groups, t.ciphers@[i]),
{
    let all = positions(t.ciphers@.len());
    let pred = |at: usize| finds_row(t, user, visible_only, groups, at);
    let chosen = all.filter(pred);
    assert(t.ciphers.len() == t.ciphers@.len());
    assert(chosen.contains(chosen[k]));
    lemma_filter_holds(all, pred, chosen[k]);
    law_finds_what_is_reached(t, user, visible_only, groups, t.ciphers@[chosen[k] as int]);
    chosen[k] as int
}

/// A cipher that a user finds is stored and reached; one that is stored and reached is found, or
/// an equal row is.
pub proof fn law_found_iff_stored_and_reached(
    t: &Tables,
    user: UserId,
    visible_only: bool,
    groups: bool,
    cipher: Cipher,
)
    ensures
        found_ciphers(t, user, visible_only, groups).contains(cipher) ==> t.ciphers@.contains(
            cipher,
        ) && reaches(t, user@, visible_only, groups, cipher),
        t.ciphers@.contains(cipher) && reaches(t, user@, visible_only, groups, cipher)
            ==> exists|i: int|
            0 <= i < found_ciphers(t, user, visible_only, groups).len() && (
            #[trigger] found_ciphers(t, user, visible_only, groups)[i]).same_as(&cipher),
{
    let all = positions(t.ciphers@.len());
    let pred = |at: usize| finds_row(t, user, visible_only, groups, at);
    let chosen = all.filter(pred);
    let found = found_ciphers(t, user, visible_only, groups);
    law_finds_what_is_reached(t, user, visible_only, groups, cipher);
    assert(t.ciphers.len() == t.ciphers@.len());
    if found.contains(cipher) {
        let i = choose|i: int| 0 <= i < found.len() && found[i] == cipher;
        assert(chosen.contains(chosen[i]));
        lemma_filter_holds(all, pred, chosen[i]);
        assert(t.ciphers@[chosen[i] as int] == cipher);
    }
    if t.ciphers@.contains(cipher) && reaches(t, user@, visible_only, groups, cipher) {
        let i = choose|i: int| 0 <= i < t.ciphers@.len() && t.ciphers@[i] == cipher;
        let first = lemma_first_row(t.ciphers@, i);
        lemma_same_is_found(t, user, visible_only, groups, cipher, t.ciphers@[first]);
        assert(all[first] == first as usize);
        lemma_filter_holds(all, pred, first as usize);
        let k = choose|k: int| 0 <= k < chosen.len() && chosen[k] == first as usize;
        assert(found[k] == t.ciphers@[first]);
    }
}

/// No two ciphers that a user finds are equal in all columns; where no two stored ciphers have
/// the same identifier, no two that are found have.
pub proof fn law_search_is_distinct(
    t: &Tables,
    user: UserId,
    visible_only: bool,
    groups: bool,
    i: int,
    j: int,
)
    requires
        0 <= i < j < found_ciphers(t, user, visible_only, groups).len(),
    ensures
        ({
            let found = found_ciphers(t, user, visible_only, groups);
            &&& !found[i].same_as(&found[j])
            &&& !equal_columns(found[i], found[j])
            &&& distinct_ciphers(t.ciphers@) ==> found[i].uuid@ != found[j].uuid@
        }),
{
    assert(t.ciphers.len() == t.ciphers@.len());
    let all = positions(t.ciphers@.len());
    let pred = |at: usize| finds_row(t, user, visible_only, groups, at);
    let chosen = all.filter(pred);
    lemma_positions_rise(t.ciphers@.len(), pred, i, j);
    assert(chosen.contains(chosen[j]));
    lemma_filter_holds(all, pred, chosen[j]);
    assert(is_first_row(t.ciphers@, chosen[j] as int));
    assert(!t.ciphers@[chosen[i] as int].same_as(&t.ciphers@[chosen[j] as int]));
    lemma_equal_rows(t.ciphers@[chosen[i] as int], t.ciphers@[chosen[j] as int]);
}

} // verus!
