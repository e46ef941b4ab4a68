//! Laws on the collections that a user sees a cipher in.

use crate::cipher::Cipher;
use crate::ids::{CollectionId, UserId};
use crate::joins::{
    extended, joined, lemma_joined_back, lemma_joined_forward, lemma_joined_outer,
    lemma_table_len, linked, matches_upto, table_len, Join, JoinRow, Subject,
};
use crate::laws::finding::{is_in_group, is_link};
use crate::queries::{
    assignable, collection_rows, is_first_link, lemma_positions_rise, link_at, positions,
    row_assigns, row_collection, row_shows, same_link, shown_pairs, shows_link, subject_of,
    user_link_rows, user_subject,
};
use crate::seqs::{lemma_filter_distinct, lemma_filter_holds};
use crate::tables::{CollectionCipher, Tables};
use vstd::prelude::*;

verus! {

/// Whether the collection at a position has the identifier.
pub open spec fn is_collection(t: &Tables, collection: Seq<char>, k: int) -> bool {
    0 <= k < t.collections@.len() && t.collections@[k].uuid.0@ == collection
}

/// Whether the membership, confirmed or not, is the user's in the collection's organization.
pub open spec fn is_holder(t: &Tables, user: Seq<char>, k: int, m: int) -> bool {
    &&& 0 <= m < t.users_organizations@.len()
    &&& t.users_organizations@[m].org_uuid.0@ == t.collections@[k].org_uuid.0@
    &&& t.users_organizations@[m].user_uuid.0@ == user
}

/// Whether the access is the user's to the collection.
pub open spec fn is_user_access(
    t: &Tables,
    user: Seq<char>,
    collection: Seq<char>,
    u: int,
) -> bool {
    &&& 0 <= u < t.users_collections@.len()
    &&& t.users_collections@[u].collection_uuid.0@ == collection
    &&& t.users_collections@[u].user_uuid.0@ == user
}

/// Whether the user has access to the collection that allows changes.
pub open spec fn edits(t: &Tables, user: Seq<char>, collection: Seq<char>) -> bool {
    exists|u: int| #[trigger]
        is_user_access(t, user, collection, u) && !t.users_collections@[u].read_only
}

/// Whether the access is the group's to the collection.
pub open spec fn is_access_of_group(t: &Tables, collection: Seq<char>, g: int, c: int) -> bool {
    &&& 0 <= c < t.collections_groups@.len()
    &&& t.collections_groups@[c].collections_uuid.0@ == collection
    &&& t.collections_groups@[c].groups_uuid.0@ == t.groups@[g].uuid.0@
}

/// Whether the group has access to everything, or access to the collection that allows changes.
pub open spec fn group_edits(t: &Tables, collection: Seq<char>, g: int) -> bool {
    t.groups@[g].access_all || exists|c: int| #[trigger]
        is_access_of_group(t, collection, g, c) && !t.collections_groups@[c].read_only
}

/// Whether a member who is the user's membership `m` may change what is in the collection
/// through a group.
pub open spec fn edits_through_group(t: &Tables, collection: Seq<char>, m: int) -> bool {
    exists|gu: int, g: int| #[trigger]
        is_in_group(t, m, gu, g) && group_edits(t, collection, g)
}

/// Whether the membership lets its holder change what is in the collection.
pub open spec fn member_assigns(
    t: &Tables,
    user: Seq<char>,
    groups: bool,
    admin: bool,
    collection: Seq<char>,
    m: int,
) -> bool {
    ||| t.users_organizations@[m].access_all
    ||| admin && t.users_organizations@[m].atype <= 1
    ||| edits(t, user, collection)
    ||| groups && edits_through_group(t, collection, m)
}

/// Whether the user may change what is in the collection: as a member of its organization with
/// access to everything, with access that allows changes, or, where groups are in use, in a
/// group with such access; with `admin` also as an administrator or owner. Where groups are in
/// use, access that allows changes is enough without a membership.
pub open spec fn assigns(
    t: &Tables,
    user: Seq<char>,
    groups: bool,
    admin: bool,
    collection: Seq<char>,
    k: int,
) -> bool {
    ||| exists|m: int| #[trigger]
        is_holder(t, user, k, m) && member_assigns(t, user, groups, admin, collection, m)
    ||| groups && edits(t, user, collection)
}

/// Whether the identifier is among the collections.
pub open spec fn lists_collection(collections: Seq<CollectionId>, collection: Seq<char>) -> bool {
    exists|i: int| 0 <= i < collections.len() && (#[trigger] collections[i]).0@ == collection
}

/// Whether what the tables contribute to a combined row meets the join conditions.
spec fn well_joined(t: &Tables, subject: &Subject, row: JoinRow) -> bool {
    &&& row.collection matches Some(k) ==> k < t.collections@.len() && linked(
        t,
        subject,
        Join::Collections,
        row,
        k as int,
    )
    &&& row.member matches Some(m) ==> m < t.users_organizations@.len() && linked(
        t,
        subject,
        Join::CollectionMembers,
        row,
        m as int,
    )
    &&& row.user_collection matches Some(u) ==> u < t.users_collections@.len() && linked(
        t,
        subject,
        Join::UserCollections,
        row,
        u as int,
    )
    &&& row.group_user matches Some(gu) ==> gu < t.groups_users@.len() && linked(
        t,
        subject,
        Join::MemberGroups,
        row,
        gu as int,
    )
    &&& row.group matches Some(g) ==> g < t.groups@.len() && linked(
        t,
        subject,
        Join::Groups,
        row,
        g as int,
    )
    &&& row.collection_group matches Some(c) ==> c < t.collections_groups@.len() && linked(
        t,
        subject,
        Join::GroupCollections,
        row,
        c as int,
    )
}

/// The combined rows after the links of a search: with their collections, the user's membership
/// and access, and, where groups are in use, the member's groups and their access.
spec fn rows_after_links(
    t: &Tables,
    subject: &Subject,
    outer: bool,
    groups: bool,
    links: Seq<JoinRow>,
) -> Seq<JoinRow> {
    let collections = joined(t, subject, Join::Collections, false, links);
    let members = joined(t, subject, Join::CollectionMembers, outer, collections);
    let user_collections = joined(t, subject, Join::UserCollections, true, members);
    if groups {
        let group_users = joined(t, subject, Join::MemberGroups, true, user_collections);
        let in_groups = joined(t, subject, Join::Groups, true, group_users);
        joined(t, subject, Join::GroupCollections, true, in_groups)
    } else {
        user_collections
    }
}

/// The link that a combined row comes from.
proof fn lemma_row_back(
    t: &Tables,
    subject: &Subject,
    outer: bool,
    groups: bool,
    links: Seq<JoinRow>,
    row: JoinRow,
) -> (first: JoinRow)
    requires
        rows_after_links(t, subject, outer, groups, links).contains(row),
        forall|i: int|
            0 <= i < links.len() ==> (#[trigger] links[i]) == (JoinRow {
                link: links[i].link,
                ..JoinRow::empty_spec()
            }),
    ensures
        links.contains(first),
        row.link == first.link,
        row.collection is Some,
        !outer ==> row.member is Some,
        !groups ==> row.group is None && row.collection_group is None,
        well_joined(t, subject, row),
{
    let collections = joined(t, subject, Join::Collections, false, links);
    let members = joined(t, subject, Join::CollectionMembers, outer, collections);
    let user_collections = joined(t, subject, Join::UserCollections, true, members);
    let group_users = joined(t, subject, Join::MemberGroups, true, user_collections);
    let in_groups = joined(t, subject, Join::Groups, true, group_users);
    let with_access = if groups {
        let from = lemma_joined_back(t, subject, Join::GroupCollections, true, in_groups, row);
        let group = lemma_joined_back(t, subject, Join::Groups, true, group_users, from.0);
        let user = lemma_joined_back(
            t,
            subject,
            Join::MemberGroups,
            true,
            user_collections,
            group.0,
        );
        user.0
    } else {
        row
    };
    let with_member = lemma_joined_back(
        t,
        subject,
        Join::UserCollections,
        true,
        members,
        with_access,
    );
    let with_collection = lemma_joined_back(
        t,
        subject,
        Join::CollectionMembers,
        outer,
        collections,
        with_member.0,
    );
    let first = lemma_joined_back(
        t,
        subject,
        Join::Collections,
        false,
        links,
        with_collection.0,
    );
    let i = choose|i: int| 0 <= i < links.len() && links[i] == first.0;
    assert(links[i] == (JoinRow { link: links[i].link, ..JoinRow::empty_spec() }));
    first.0
}

/// What a combined row is to be built from, after its link and collection.
spec fn fits_together(
    t: &Tables,
    subject: &Subject,
    collection: Seq<char>,
    k: int,
    member: Option<int>,
    access: Option<int>,
) -> bool {
    &&& is_collection(t, collection, k)
    &&& member matches Some(m) ==> is_holder(t, subject.user@, k, m)
    &&& access matches Some(u) ==> is_user_access(t, subject.user@, collection, u)
}

/// There is a combined row with the given link, collection and membership, and with the given
/// access of the user's where there is one.
proof fn lemma_row_of(
    t: &Tables,
    subject: &Subject,
    outer: bool,
    links: Seq<JoinRow>,
    first: JoinRow,
    k: int,
    member: Option<int>,
    access: Option<int>,
) -> (row: JoinRow)
    requires
        links.contains(first),
        first.link is Some,
        fits_together(
            t,
            subject,
            t.ciphers_collections@[first.link->0 as int].collection_uuid@,
            k,
            member,
            access,
        ),
        outer || member is Some,
    ensures
        rows_after_links(t, subject, outer, false, links).contains(row),
        row.link == first.link,
        member is Some ==> row.member is Some && row.member->0 == member->0,
        access is Some ==> row.user_collection is Some && row.user_collection->0 == access->0,
{
    assert(t.collections.len() == t.collections@.len());
    assert(t.users_organizations.len() == t.users_organizations@.len());
    assert(t.users_collections.len() == t.users_collections@.len());
    let collections = joined(t, subject, Join::Collections, false, links);
    let members = joined(t, subject, Join::CollectionMembers, outer, collections);
    lemma_joined_forward(t, subject, Join::Collections, false, links, first, k);
    let second = first.with_spec(Join::Collections, Some(k as usize));
    let third = match member {
        Some(m) => {
            lemma_joined_forward(
                t,
                subject,
                Join::CollectionMembers,
                outer,
                collections,
                second,
                m,
            );
            second.with_spec(Join::CollectionMembers, Some(m as usize))
        },
        None => {
            let at = lemma_joined_outer(t, subject, Join::CollectionMembers, collections, second);
            second.with_spec(Join::CollectionMembers, at)
        },
    };
    match access {
        Some(u) => {
            lemma_joined_forward(t, subject, Join::UserCollections, true, members, third, u);
            third.with_spec(Join::UserCollections, Some(u as usize))
        },
        None => {
            let at = lemma_joined_outer(t, subject, Join::UserCollections, members, third);
            third.with_spec(Join::UserCollections, at)
        },
    }
}

/// With groups in use, every combined row goes on to one or more.
proof fn lemma_group_row(
    t: &Tables,
    subject: &Subject,
    outer: bool,
    links: Seq<JoinRow>,
    from: JoinRow,
) -> (row: JoinRow)
    requires
        rows_after_links(t, subject, outer, false, links).contains(from),
    ensures
        rows_after_links(t, subject, outer, true, links).contains(row),
        row.link == from.link,
        row.member == from.member,
        row.user_collection == from.user_collection,
{
    let rows = rows_after_links(t, subject, outer, false, links);
    let group_users = joined(t, subject, Join::MemberGroups, true, rows);
    let in_groups = joined(t, subject, Join::Groups, true, group_users);
    let gu = lemma_joined_outer(t, subject, Join::MemberGroups, rows, from);
    let first = from.with_spec(Join::MemberGroups, gu);
    let g = lemma_joined_outer(t, subject, Join::Groups, group_users, first);
    let second = first.with_spec(Join::Groups, g);
    let c = lemma_joined_outer(t, subject, Join::GroupCollections, in_groups, second);
    second.with_spec(Join::GroupCollections, c)
}

/// With groups in use, a combined row with a membership goes on to one with a group of the
/// member, and with the group's access to the linked collection where there is one.
proof fn lemma_group_row_of(
    t: &Tables,
    subject: &Subject,
    outer: bool,
    links: Seq<JoinRow>,
    from: JoinRow,
    gu: int,
    g: int,
    access: Option<int>,
) -> (row: JoinRow)
    requires
        rows_after_links(t, subject, outer, false, links).contains(from),
        from.member is Some,
        is_in_group(t, from.member->0 as int, gu, g),
        access matches Some(c) ==> from.link is Some && is_access_of_group(
            t,
            t.ciphers_collections@[from.link->0 as int].collection_uuid@,
            g,
            c,
        ),
    ensures
        rows_after_links(t, subject, outer, true, links).contains(row),
        row.link == from.link,
        row.group is Some && row.group->0 == g,
        access is Some ==> row.collection_group is Some && row.collection_group->0 == access->0,
{
    assert(t.groups_users.len() == t.groups_users@.len());
    assert(t.groups.len() == t.groups@.len());
    assert(t.collections_groups.len() == t.collections_groups@.len());
    let rows = rows_after_links(t, subject, outer, false, links);
    let group_users = joined(t, subject, Join::MemberGroups, true, rows);
    let in_groups = joined(t, subject, Join::Groups, true, group_users);
    lemma_joined_forward(t, subject, Join::MemberGroups, true, rows, from, gu);
    let first = from.with_spec(Join::MemberGroups, Some(gu as usize));
    lemma_joined_forward(t, subject, Join::Groups, true, group_users, first, g);
    let second = first.with_spec(Join::Groups, Some(g as usize));
    match access {
        Some(c) => {
            lemma_joined_forward(t, subject, Join::GroupCollections, true, in_groups, second, c);
            second.with_spec(Join::GroupCollections, Some(c as usize))
        },
        None => {
            let c = lemma_joined_outer(t, subject, Join::GroupCollections, in_groups, second);
            second.with_spec(Join::GroupCollections, c)
        },
    }
}

/// The links that the search for a cipher's collections begins with.
spec fn cipher_links(t: &Tables, subject: &Subject) -> Seq<JoinRow> {
    joined(t, subject, Join::CipherLinks, false, seq![JoinRow::empty_spec()])
}

/// The links that the search begins with are those of the cipher.
proof fn lemma_cipher_links(t: &Tables, user: UserId, cipher: Cipher)
    ensures
        ({
            let links = cipher_links(t, &subject_of(user, cipher));
            forall|i: int|
                0 <= i < links.len() ==> (#[trigger] links[i]) == (JoinRow {
                    link: links[i].link,
                    ..JoinRow::empty_spec()
                }) && links[i].link is Some && is_link(
                    t,
                    cipher,
                    t.ciphers_collections@[links[i].link->0 as int].collection_uuid@,
                    links[i].link->0 as int,
                )
        }),
{
    let subject = &subject_of(user, cipher);
    let start = seq![JoinRow::empty_spec()];
    let links = cipher_links(t, subject);
    assert forall|i: int| 0 <= i < links.len() implies (#[trigger] links[i]) == (JoinRow {
        link: links[i].link,
        ..JoinRow::empty_spec()
    }) && links[i].link is Some && is_link(
        t,
        cipher,
        t.ciphers_collections@[links[i].link->0 as int].collection_uuid@,
        links[i].link->0 as int,
    ) by {
        assert(links.contains(links[i]));
        let from = lemma_joined_back(t, subject, Join::CipherLinks, false, start, links[i]);
        assert(from.0 == JoinRow::empty_spec());
    }
}

/// The search for a cipher's collections is the search after its links.
proof fn lemma_collection_rows(t: &Tables, subject: &Subject, groups: bool)
    ensures
        collection_rows(t, subject, groups) == rows_after_links(
            t,
            subject,
            groups,
            groups,
            cipher_links(t, subject),
        ),
{
}

/// A combined row that lets the user change the cipher's place in a collection shows how.
proof fn lemma_row_assigns(
    t: &Tables,
    user: UserId,
    groups: bool,
    admin: bool,
    cipher: Cipher,
    row: JoinRow,
)
    requires
        collection_rows(t, &subject_of(user, cipher), groups).contains(row),
        row_assigns(t, user@, groups, admin, row),
    ensures
        ({
            let collection = row_collection(t, row)@;
            &&& exists|l: int| is_link(t, cipher, collection, l)
            &&& exists|k: int| #[trigger]
                is_collection(t, collection, k) && assigns(t, user@, groups, admin, collection, k)
        }),
{
    let subject = &subject_of(user, cipher);
    let links = cipher_links(t, subject);
    lemma_cipher_links(t, user, cipher);
    lemma_collection_rows(t, subject, groups);
    let first = lemma_row_back(t, subject, groups, groups, links, row);
    let i = choose|i: int| 0 <= i < links.len() && links[i] == first;
    assert(links[i].link is Some);
    let collection = row_collection(t, row)@;
    assert(is_link(t, cipher, collection, row.link->0 as int));
    let k = row.collection->0 as int;
    assert(is_collection(t, collection, k));
    if row.user_collection is Some {
        assert(is_user_access(t, user@, collection, row.user_collection->0 as int));
    }
    if row.member is Some {
        let m = row.member->0 as int;
        assert(is_holder(t, user@, k, m));
        if row.group is Some {
            let g = row.group->0 as int;
            assert(is_in_group(t, m, row.group_user->0 as int, g));
            if row.collection_group is Some {
                assert(is_access_of_group(t, collection, g, row.collection_group->0 as int));
            }
        }
        assert(member_assigns(t, user@, groups, admin, collection, m));
    }
}

/// A member who may change what is in the cipher's collection has a combined row that says so.
proof fn lemma_member_row(
    t: &Tables,
    user: UserId,
    groups: bool,
    admin: bool,
    cipher: Cipher,
    collection: Seq<char>,
    l: int,
    k: int,
    m: int,
) -> (row: JoinRow)
    requires
        is_link(t, cipher, collection, l),
        is_collection(t, collection, k),
        is_holder(t, user@, k, m),
        member_assigns(t, user@, groups, admin, collection, m),
    ensures
        collection_rows(t, &subject_of(user, cipher), groups).contains(row),
        row_assigns(t, user@, groups, admin, row),
        row.link is Some && row.link->0 == l,
{
    let subject = &subject_of(user, cipher);
    let start = seq![JoinRow::empty_spec()];
    let links = cipher_links(t, subject);
    lemma_collection_rows(t, subject, groups);
    assert(t.ciphers_collections.len() == t.ciphers_collections@.len());
    assert(start[0] == JoinRow::empty_spec());
    lemma_joined_forward(
        t,
        subject,
        Join::CipherLinks,
        false,
        start,
        JoinRow::empty_spec(),
        l,
    );
    let first = JoinRow::empty_spec().with_spec(Join::CipherLinks, Some(l as usize));
    if groups && edits_through_group(t, collection, m) {
        let (gu, g) = choose|gu: int, g: int| #[trigger]
            is_in_group(t, m, gu, g) && group_edits(t, collection, g);
        let from = lemma_row_of(t, subject, groups, links, first, k, Some(m), None);
        let access = if t.groups@[g].access_all {
            None
        } else {
            Some(
                choose|c: int| #[trigger]
                    is_access_of_group(t, collection, g, c) && !t.collections_groups@[c].read_only,
            )
        };
        lemma_group_row_of(t, subject, groups, links, from, gu, g, access)
    } else {
        let access = if edits(t, user@, collection) {
            Some(
                choose|u: int| #[trigger]
                    is_user_access(t, user@, collection, u) && !t.users_collections@[u].read_only,
            )
        } else {
            None
        };
        let from = lemma_row_of(t, subject, groups, links, first, k, Some(m), access);
        if groups {
            lemma_group_row(t, subject, groups, links, from)
        } else {
            from
        }
    }
}

/// Where groups are in use, access that allows changes has a combined row that says so.
proof fn lemma_user_row(
    t: &Tables,
    user: UserId,
    admin: bool,
    cipher: Cipher,
    collection: Seq<char>,
    l: int,
    k: int,
) -> (row: JoinRow)
    requires
        is_link(t, cipher, collection, l),
        is_collection(t, collection, k),
        edits(t, user@, collection),
    ensures
        collection_rows(t, &subject_of(user, cipher), true).contains(row),
        row_assigns(t, user@, true, admin, row),
        row.link is Some && row.link->0 == l,
{
    let subject = &subject_of(user, cipher);
    let start = seq![JoinRow::empty_spec()];
    let links = cipher_links(t, subject);
    lemma_collection_rows(t, subject, true);
    assert(t.ciphers_collections.len() == t.ciphers_collections@.len());
    assert(start[0] == JoinRow::empty_spec());
    lemma_joined_forward(
        t,
        subject,
        Join::CipherLinks,
        false,
        start,
        JoinRow::empty_spec(),
        l,
    );
    let first = JoinRow::empty_spec().with_spec(Join::CipherLinks, Some(l as usize));
    let u = choose|u: int| #[trigger]
        is_user_access(t, user@, collection, u) && !t.users_collections@[u].read_only;
    let from = lemma_row_of(t, subject, true, links, first, k, None, Some(u));
    lemma_group_row(t, subject, true, links, from)
}

/// A combined row that lets the user change the cipher's place puts the collection on the list.
proof fn lemma_listed(
    t: &Tables,
    user: UserId,
    groups: bool,
    admin: bool,
    cipher: Cipher,
    row: JoinRow,
)
    requires
        collection_rows(t, &subject_of(user, cipher), groups).contains(row),
        row_assigns(t, user@, groups, admin, row),
    ensures
        lists_collection(assignable(t, user, groups, admin, cipher), row_collection(t, row)@),
{
    let rows = collection_rows(t, &subject_of(user, cipher), groups);
    let pred = |row: JoinRow| row_assigns(t, user@, groups, admin, row);
    let chosen = rows.filter(pred);
    lemma_filter_holds(rows, pred, row);
    let i = choose|i: int| 0 <= i < chosen.len() && chosen[i] == row;
    assert(assignable(t, user, groups, admin, cipher)[i].0@ == row_collection(t, row)@);
}

/// The collections in which a user may change a cipher are those that the cipher is in, that
/// are stored, and that let the user change what is in them.
pub proof fn law_assignable_collections(
    t: &Tables,
    user: UserId,
    groups: bool,
    admin: bool,
    cipher: Cipher,
    collection: Seq<char>,
)
    ensures
        lists_collection(assignable(t, user, groups, admin, cipher), collection) <==> {
            &&& exists|l: int| is_link(t, cipher, collection, l)
            &&& exists|k: int| #[trigger]
                is_collection(t, collection, k) && assigns(t, user@, groups, admin, collection, k)
        },
{
    let rows = collection_rows(t, &subject_of(user, cipher), groups);
    let pred = |row: JoinRow| row_assigns(t, user@, groups, admin, row);
    let chosen = rows.filter(pred);
    let listed = assignable(t, user, groups, admin, cipher);
    if lists_collection(listed, collection) {
        let i = choose|i: int| 0 <= i < listed.len() && (#[trigger] listed[i]).0@ == collection;
        assert(chosen.contains(chosen[i]));
        lemma_filter_holds(rows, pred, chosen[i]);
        lemma_row_assigns(t, user, groups, admin, cipher, chosen[i]);
    }
    if (exists|l: int| is_link(t, cipher, collection, l)) && (exists|k: int| #[trigger]
        is_collection(t, collection, k) && assigns(t, user@, groups, admin, collection, k)) {
        let l = choose|l: int| is_link(t, cipher, collection, l);
        let k = choose|k: int| #[trigger]
            is_collection(t, collection, k) && assigns(t, user@, groups, admin, collection, k);
        if groups && edits(t, user@, collection) {
            let row = lemma_user_row(t, user, admin, cipher, collection, l, k);
            lemma_listed(t, user, groups, admin, cipher, row);
        } else {
            let m = choose|m: int| #[trigger]
                is_holder(t, user@, k, m) && member_assigns(
                    t,
                    user@,
                    groups,
                    admin,
                    collection,
                    m,
                );
            let row = lemma_member_row(t, user, groups, admin, cipher, collection, l, k, m);
            lemma_listed(t, user, groups, admin, cipher, row);
        }
    }
}

/// The collections in which a user may change a cipher are also those in which they may change
/// it as an administrator or owner.
pub proof fn law_admins_assign_more(
    t: &Tables,
    user: UserId,
    groups: bool,
    cipher: Cipher,
    collection: Seq<char>,
)
    requires
        lists_collection(assignable(t, user, groups, false, cipher), collection),
    ensures
        lists_collection(assignable(t, user, groups, true, cipher), collection),
{
    law_assignable_collections(t, user, groups, false, cipher, collection);
    law_assignable_collections(t, user, groups, true, cipher, collection);
    let k = choose|k: int| #[trigger]
        is_collection(t, collection, k) && assigns(t, user@, groups, false, collection, k);
    if exists|m: int| #[trigger]
        is_holder(t, user@, k, m) && member_assigns(t, user@, groups, false, collection, m) {
        let m = choose|m: int| #[trigger]
            is_holder(t, user@, k, m) && member_assigns(t, user@, groups, false, collection, m);
        assert(member_assigns(t, user@, groups, true, collection, m));
    }
    assert(assigns(t, user@, groups, true, collection, k));
}

/// Whether the group has access to everything, or to the collection.
pub open spec fn group_sees(t: &Tables, collection: Seq<char>, g: int) -> bool {
    t.groups@[g].access_all || exists|c: int| is_access_of_group(t, collection, g, c)
}

/// Whether the membership lets its holder see what is in the collection.
pub open spec fn member_sees(
    t: &Tables,
    user: Seq<char>,
    collection: Seq<char>,
    m: int,
) -> bool {
    ||| t.users_organizations@[m].access_all
    ||| t.users_organizations@[m].atype <= 1
    ||| exists|u: int| is_user_access(t, user, collection, u)
    ||| exists|gu: int, g: int| #[trigger]
        is_in_group(t, m, gu, g) && group_sees(t, collection, g)
}

/// A link is shown to a user during a full sync exactly where its collection is stored and the
/// user has a membership in the collection's organization that lets them see what is in it:
/// with access to everything, as an administrator or owner, with access to the collection, or
/// in a group with such access.
pub proof fn law_shown_links(t: &Tables, user: UserId, link: usize)
    requires
        link < t.ciphers_collections@.len(),
    ensures
        ({
            let collection = t.ciphers_collections@[link as int].collection_uuid@;
            shows_link(t, user, link) <==> exists|k: int, m: int|
                #![trigger is_holder(t, user@, k, m)]
                is_collection(t, collection, k) && is_holder(t, user@, k, m) && member_sees(
                    t,
                    user@,
                    collection,
                    m,
                )
        }),
{
    let subject = &user_subject(user);
    let first = JoinRow { link: Some(link), ..JoinRow::empty_spec() };
    let links = seq![first];
    assert(links[0] == first);
    let collection = t.ciphers_collections@[link as int].collection_uuid@;
    let rows = user_link_rows(t, subject, link);
    let pred = |row: JoinRow| row_shows(t, user@, row);
    assert(rows == rows_after_links(t, subject, false, true, links));
    if shows_link(t, user, link) {
        let i = choose|i: int| 0 <= i < rows.len() && pred(#[trigger] rows[i]);
        let row = rows[i];
        assert(rows.contains(row));
        let from = lemma_row_back(t, subject, false, true, links, row);
        assert(from == first);
        let k = row.collection->0 as int;
        let m = row.member->0 as int;
        assert(is_collection(t, collection, k));
        assert(is_holder(t, user@, k, m));
        if row.user_collection is Some {
            assert(is_user_access(t, user@, collection, row.user_collection->0 as int));
        }
        if row.group is Some {
            let g = row.group->0 as int;
            assert(is_in_group(t, m, row.group_user->0 as int, g));
            if row.collection_group is Some {
                assert(is_access_of_group(t, collection, g, row.collection_group->0 as int));
            }
        }
        assert(member_sees(t, user@, collection, m));
    }
    if exists|k: int, m: int|
        #![trigger is_holder(t, user@, k, m)]
        is_collection(t, collection, k) && is_holder(t, user@, k, m) && member_sees(
            t,
            user@,
            collection,
            m,
        ) {
        let (k, m) = choose|k: int, m: int|
            #![trigger is_holder(t, user@, k, m)]
            is_collection(t, collection, k) && is_holder(t, user@, k, m) && member_sees(
                t,
                user@,
                collection,
                m,
            );
        let row = if exists|u: int| is_user_access(t, user@, collection, u) {
            let u = choose|u: int| is_user_access(t, user@, collection, u);
            let from = lemma_row_of(t, subject, false, links, first, k, Some(m), Some(u));
            lemma_group_row(t, subject, false, links, from)
        } else {
            let from = lemma_row_of(t, subject, false, links, first, k, Some(m), None);
            if exists|gu: int, g: int| #[trigger]
                is_in_group(t, m, gu, g) && group_sees(t, collection, g) {
                let (gu, g) = choose|gu: int, g: int| #[trigger]
                    is_in_group(t, m, gu, g) && group_sees(t, collection, g);
                let access = if t.groups@[g].access_all {
                    None
                } else {
                    Some(choose|c: int| is_access_of_group(t, collection, g, c))
                };
                lemma_group_row_of(t, subject, false, links, from, gu, g, access)
            } else {
                lemma_group_row(t, subject, false, links, from)
            }
        };
        let i = choose|i: int| 0 <= i < rows.len() && rows[i] == row;
        assert(pred(rows[i]));
    }
}

/// Of the links that connect the same as the one at a position, one is the first.
proof fn lemma_first_link(links: Seq<CollectionCipher>, i: int) -> (first: int)
    requires
        0 <= i < links.len(),
    ensures
        0 <= first <= i,
        same_link(links[first], links[i]),
        is_first_link(links, first),
    decreases i,
{
    if is_first_link(links, i) {
        i
    } else {
        let j = choose|j: int| 0 <= j < i && same_link(#[trigger] links[j], links[i]);
        lemma_first_link(links, j)
    }
}

/// A full sync lists no pair of a cipher and a collection twice.
pub proof fn law_pairs_are_distinct(t: &Tables, user: UserId, i: int, j: int)
    requires
        0 <= i < j < shown_pairs(t, user).len(),
    ensures
        shown_pairs(t, user)[i].0@ != shown_pairs(t, user)[j].0@ || shown_pairs(t, user)[i].1@
            != shown_pairs(t, user)[j].1@,
{
    assert(t.ciphers_collections.len() == t.ciphers_collections@.len());
    let links = t.ciphers_collections@;
    let all = positions(links.len());
    let pred = |link: usize| shows_link(t, user, link) && is_first_link(links, link as int);
    let chosen = all.filter(pred);
    lemma_positions_rise(links.len(), pred, i, j);
    assert(chosen.contains(chosen[j]));
    lemma_filter_holds(all, pred, chosen[j]);
    assert(!same_link(links[chosen[i] as int], links[chosen[j] as int]));
}

/// A full sync lists the pair of every link that is shown to the user.
pub proof fn law_shown_links_are_listed(t: &Tables, user: UserId, link: usize) -> (at: int)
    requires
        link < t.ciphers_collections@.len(),
        shows_link(t, user, link),
    ensures
        0 <= at < shown_pairs(t, user).len(),
        shown_pairs(t, user)[at].0@ == link_at(t, link).0@,
        shown_pairs(t, user)[at].1@ == link_at(t, link).1@,
{
    assert(t.ciphers_collections.len() == t.ciphers_collections@.len());
    let links = t.ciphers_collections@;
    let all = positions(links.len());
    let pred = |link: usize| shows_link(t, user, link) && is_first_link(links, link as int);
    let chosen = all.filter(pred);
    let first = lemma_first_link(links, link as int);
    law_shown_links(t, user, link);
    law_shown_links(t, user, first as usize);
    assert(all[first] == first as usize);
    lemma_filter_holds(all, pred, first as usize);
    choose|k: int| 0 <= k < chosen.len() && chosen[k] == first as usize
}

/// Every pair that a full sync lists is that of a stored link, and the user may see what is in
/// the link's collection: the collection is stored, and the user has a membership in its
/// organization with access to everything, as an administrator or owner, with access to that
/// collection, or in a group with such access.
pub proof fn law_listed_pairs_are_shown(t: &Tables, user: UserId, at: int) -> (link: int)
    requires
        0 <= at < shown_pairs(t, user).len(),
    ensures
        0 <= link < t.ciphers_collections@.len(),
        shown_pairs(t, user)[at].0.0@ == t.ciphers_collections@[link].cipher_uuid.0@,
        shown_pairs(t, user)[at].1.0@ == t.ciphers_collections@[link].collection_uuid.0@,
        ({
            let collection = t.ciphers_collections@[link].collection_uuid.0@;
            exists|k: int, m: int|
                #![trigger is_holder(t, user.0@, k, m)]
                is_collection(t, collection, k) && is_holder(t, user.0@, k, m) && member_sees(
                    t,
                    user.0@,
                    collection,
                    m,
                )
        }),
{
    assert(t.ciphers_collections.len() == t.ciphers_collections@.len());
    let links = t.ciphers_collections@;
    let all = positions(links.len());
    let pred = |link: usize| shows_link(t, user, link) && is_first_link(links, link as int);
    let chosen = all.filter(pred);
    assert(chosen.contains(chosen[at]));
    lemma_filter_holds(all, pred, chosen[at]);
    law_shown_links(t, user, chosen[at]);
    chosen[at] as int
}

/// Every link into a collection in which the user may see what is in it is listed in a full
/// sync, as the pair of its cipher and its collection.
pub proof fn law_seen_links_are_listed(
    t: &Tables,
    user: UserId,
    link: int,
    k: int,
    m: int,
) -> (at: int)
    requires
        0 <= link < t.ciphers_collections@.len(),
        is_collection(t, t.ciphers_collections@[link].collection_uuid.0@, k),
        is_holder(t, user.0@, k, m),
        member_sees(t, user.0@, t.ciphers_collections@[link].collection_uuid.0@, m),
    ensures
        0 <= at < shown_pairs(t, user).len(),
        shown_pairs(t, user)[at].0.0@ == t.ciphers_collections@[link].cipher_uuid.0@,
        shown_pairs(t, user)[at].1.0@ == t.ciphers_collections@[link].collection_uuid.0@,
{
    assert(t.ciphers_collections.len() == t.ciphers_collections@.len());
    law_shown_links(t, user, link as usize);
    law_shown_links_are_listed(t, user, link as usize)
}

/// Joining a table to rows that are all different, and to which it has not contributed yet,
/// gives rows that are all different.
proof fn lemma_joined_distinct(
    t: &Tables,
    subject: &Subject,
    join: Join,
    outer: bool,
    rows: Seq<JoinRow>,
)
    requires
        rows.no_duplicates(),
        forall|i: int|
            0 <= i < rows.len() ==> (#[trigger] rows[i]) == rows[i].with_spec(join, None),
    ensures
        joined(t, subject, join, outer, rows).no_duplicates(),
    decreases rows.len(),
{
    let f = |row: JoinRow| extended(t, subject, join, outer, row);
    if rows.len() == 0 {
        assert(rows.map_values(f) =~= Seq::empty());
    } else {
        let front = rows.drop_last();
        let last = rows.last();
        front.lemma_flat_map_push(f, last);
        assert(rows =~= front.push(last));
        assert forall|i: int| 0 <= i < front.len() implies (#[trigger] front[i])
            == front[i].with_spec(join, None) by {
            assert(front[i] == rows[i]);
        }
        lemma_joined_distinct(t, subject, join, outer, front);
        let before = joined(t, subject, join, outer, front);
        let more = extended(t, subject, join, outer, last);
        let found = matches_upto(t, subject, join, last, table_len(t, join));
        lemma_table_len(t, join);
        lemma_matches_rise(t, subject, join, last, table_len(t, join));
        let all = joined(t, subject, join, outer, rows);
        assert(all == before + more);
        assert forall|i: int, j: int| 0 <= i < j < all.len() implies all[i] != all[j] by {
            if j < before.len() {
                assert(before[i] != before[j]);
            } else if i >= before.len() {
                let a = i - before.len();
                let b = j - before.len();
                assert(found[a] < found[b]);
                assert(more[a] == last.with_spec(join, Some(found[a])));
                assert(more[b] == last.with_spec(join, Some(found[b])));
            } else {
                assert(before.contains(before[i]));
                let from = lemma_joined_back(t, subject, join, outer, front, before[i]);
                let k = choose|k: int| 0 <= k < front.len() && front[k] == from.0;
                assert(rows[k] == from.0 && rows[rows.len() - 1] == last);
                assert(from.0 != last);
                assert(from.0 == from.0.with_spec(join, None));
                assert(last == last.with_spec(join, None));
                if before[i] == more[j - before.len()] {
                    assert(before[i].with_spec(join, None) == from.0);
                    assert(more[j - before.len()].with_spec(join, None) == last);
                }
            }
        }
    }
}

/// The positions that a join finds rise.
proof fn lemma_matches_rise(t: &Tables, subject: &Subject, join: Join, row: JoinRow, n: nat)
    requires
        n <= usize::MAX,
    ensures
        ({
            let found = matches_upto(t, subject, join, row, n);
            forall|i: int, j: int| 0 <= i < j < found.len() ==> found[i] < found[j]
        }),
        ({
            let found = matches_upto(t, subject, join, row, n);
            forall|i: int| 0 <= i < found.len() ==> #[trigger] found[i] < n
        }),
    decreases n,
{
    if n > 0 {
        lemma_matches_rise(t, subject, join, row, (n - 1) as nat);
        let front = matches_upto(t, subject, join, row, (n - 1) as nat);
        let found = matches_upto(t, subject, join, row, n);
        assert((n - 1) as usize == n - 1);
        assert forall|i: int| 0 <= i < found.len() implies #[trigger] found[i] < n by {
            if i < front.len() {
                assert(found[i] == front[i]);
            }
        }
        assert forall|i: int, j: int| 0 <= i < j < found.len() implies found[i] < found[j] by {
            assert(found[i] == front[i]);
            if j < front.len() {
                assert(found[j] == front[j]);
            }
        }
    }
}

/// The combined rows behind the search for a cipher's collections are all different.
proof fn lemma_collection_rows_are_distinct(t: &Tables, user: UserId, cipher: Cipher)
    ensures
        collection_rows(t, &subject_of(user, cipher), false).no_duplicates(),
{
    let subject = &subject_of(user, cipher);
    let start = seq![JoinRow::empty_spec()];
    let links = joined(t, subject, Join::CipherLinks, false, start);
    let collections = joined(t, subject, Join::Collections, false, links);
    let members = joined(t, subject, Join::CollectionMembers, false, collections);
    lemma_joined_distinct(t, subject, Join::CipherLinks, false, start);
    assert forall|i: int| 0 <= i < links.len() implies (#[trigger] links[i])
        == links[i].with_spec(Join::Collections, None) && links[i].member is None
        && links[i].user_collection is None by {
        assert(links.contains(links[i]));
        let from = lemma_joined_back(t, subject, Join::CipherLinks, false, start, links[i]);
        assert(from.0 == JoinRow::empty_spec());
    }
    lemma_joined_distinct(t, subject, Join::Collections, false, links);
    assert forall|i: int| 0 <= i < collections.len() implies (#[trigger] collections[i])
        == collections[i].with_spec(Join::CollectionMembers, None)
        && collections[i].user_collection is None by {
        assert(collections.contains(collections[i]));
        let from = lemma_joined_back(
            t,
            subject,
            Join::Collections,
            false,
            links,
            collections[i],
        );
        let k = choose|k: int| 0 <= k < links.len() && links[k] == from.0;
        assert(links[k].member is None);
    }
    lemma_joined_distinct(t, subject, Join::CollectionMembers, false, collections);
    assert forall|i: int| 0 <= i < members.len() implies (#[trigger] members[i])
        == members[i].with_spec(Join::UserCollections, None) by {
        assert(members.contains(members[i]));
        let from = lemma_joined_back(
            t,
            subject,
            Join::CollectionMembers,
            false,
            collections,
            members[i],
        );
        let k = choose|k: int| 0 <= k < collections.len() && collections[k] == from.0;
        assert(collections[k].user_collection is None);
    }
    lemma_joined_distinct(t, subject, Join::UserCollections, true, members);
}

/// Whether the store keeps its keys: no collection, no membership of a user in an organization,
/// no access of a user to a collection and no link is stored twice.
pub open spec fn has_unique_keys(t: &Tables) -> bool {
    &&& forall|i: int, j: int|
        0 <= i < j < t.collections@.len() ==> (#[trigger] t.collections@[i]).uuid.0@ != (
        #[trigger] t.collections@[j]).uuid.0@
    &&& forall|i: int, j: int|
        0 <= i < j < t.users_organizations@.len() ==> (
        #[trigger] t.users_organizations@[i]).user_uuid.0@ != (
        #[trigger] t.users_organizations@[j]).user_uuid.0@
            || t.users_organizations@[i].org_uuid.0@ != t.users_organizations@[j].org_uuid.0@
    &&& forall|i: int, j: int|
        0 <= i < j < t.users_collections@.len() ==> (
        #[trigger] t.users_collections@[i]).user_uuid.0@ != (
        #[trigger] t.users_collections@[j]).user_uuid.0@
            || t.users_collections@[i].collection_uuid.0@
            != t.users_collections@[j].collection_uuid.0@
    &&& forall|i: int, j: int|
        0 <= i < j < t.ciphers_collections@.len() ==> (
        #[trigger] t.ciphers_collections@[i]).cipher_uuid.0@ != (
        #[trigger] t.ciphers_collections@[j]).cipher_uuid.0@
            || t.ciphers_collections@[i].collection_uuid.0@
            != t.ciphers_collections@[j].collection_uuid.0@
}

/// Without groups, no collection in which a user may change a cipher is named twice, where the
/// store keeps its keys.
pub proof fn law_assignable_is_distinct(
    t: &Tables,
    user: UserId,
    admin: bool,
    cipher: Cipher,
    i: int,
    j: int,
)
    requires
        has_unique_keys(t),
        0 <= i < j < assignable(t, user, false, admin, cipher).len(),
    ensures
        assignable(t, user, false, admin, cipher)[i].0@ != assignable(
            t,
            user,
            false,
            admin,
            cipher,
        )[j].0@,
{
    let subject = &subject_of(user, cipher);
    let rows = collection_rows(t, subject, false);
    let pred = |row: JoinRow| row_assigns(t, user@, false, admin, row);
    let chosen = rows.filter(pred);
    lemma_collection_rows_are_distinct(t, user, cipher);
    lemma_filter_distinct(rows, pred);
    let one = chosen[i];
    let two = chosen[j];
    assert(chosen.contains(one) && chosen.contains(two));
    lemma_filter_holds(rows, pred, one);
    lemma_filter_holds(rows, pred, two);
    if row_collection(t, one)@ == row_collection(t, two)@ {
        lemma_row_parts(t, user, cipher, one);
        lemma_row_parts(t, user, cipher, two);
        lemma_row_access(t, user, cipher, one);
        lemma_row_access(t, user, cipher, two);
        assert(one.link == two.link);
        assert(one.collection == two.collection);
        assert(one.member == two.member);
        assert(one.user_collection == two.user_collection);
        assert(one == two);
    }
}

/// What the tables contribute to a combined row without groups, and that groups contribute
/// nothing.
proof fn lemma_row_parts(t: &Tables, user: UserId, cipher: Cipher, row: JoinRow)
    requires
        collection_rows(t, &subject_of(user, cipher), false).contains(row),
    ensures
        row.link is Some && is_link(
            t,
            cipher,
            row_collection(t, row)@,
            row.link->0 as int,
        ),
        row.collection is Some && is_collection(
            t,
            row_collection(t, row)@,
            row.collection->0 as int,
        ),
        row.member is Some && is_holder(
            t,
            user@,
            row.collection->0 as int,
            row.member->0 as int,
        ),
        row.group_user is None && row.group is None && row.collection_group is None,
{
    let subject = &subject_of(user, cipher);
    let links = cipher_links(t, subject);
    lemma_cipher_links(t, user, cipher);
    lemma_collection_rows(t, subject, false);
    let first = lemma_row_back(t, subject, false, false, links, row);
    let i = choose|i: int| 0 <= i < links.len() && links[i] == first;
    assert(links[i].link is Some);
    let collections = joined(t, subject, Join::Collections, false, links);
    let members = joined(t, subject, Join::CollectionMembers, false, collections);
    let from = lemma_joined_back(t, subject, Join::UserCollections, true, members, row);
    let held = lemma_joined_back(
        t,
        subject,
        Join::CollectionMembers,
        false,
        collections,
        from.0,
    );
    let stored = lemma_joined_back(t, subject, Join::Collections, false, links, held.0);
    let k = choose|k: int| 0 <= k < links.len() && links[k] == stored.0;
    assert(links[k] == (JoinRow { link: links[k].link, ..JoinRow::empty_spec() }));
}

/// The access in a combined row is one of the user's to the linked collection; there is none
/// only where the user has none.
proof fn lemma_row_access(t: &Tables, user: UserId, cipher: Cipher, row: JoinRow)
    requires
        collection_rows(t, &subject_of(user, cipher), false).contains(row),
    ensures
        row.user_collection matches Some(u) ==> is_user_access(
            t,
            user@,
            row_collection(t, row)@,
            u as int,
        ),
        row.user_collection is None ==> forall|u: int|
            !#[trigger] is_user_access(t, user@, row_collection(t, row)@, u),
{
    let subject = &subject_of(user, cipher);
    let links = cipher_links(t, subject);
    lemma_collection_rows(t, subject, false);
    lemma_row_parts(t, user, cipher, row);
    let collections = joined(t, subject, Join::Collections, false, links);
    let members = joined(t, subject, Join::CollectionMembers, false, collections);
    let from = lemma_joined_back(t, subject, Join::UserCollections, true, members, row);
    assert forall|u: int| from.1 is None implies !#[trigger] is_user_access(
        t,
        user@,
        row_collection(t, row)@,
        u,
    ) by {
        if 0 <= u < t.users_collections@.len() {
            assert(!linked(t, subject, Join::UserCollections, from.0, u));
        }
    }
}

/// Without groups, a full sync shows a user every collection in which they may change a cipher,
/// be it only as an administrator or owner.
pub proof fn law_assignable_is_shown(
    t: &Tables,
    user: UserId,
    cipher: Cipher,
    collection: Seq<char>,
) -> (link: usize)
    requires
        lists_collection(assignable(t, user, false, true, cipher), collection),
    ensures
        is_link(t, cipher, collection, link as int),
        shows_link(t, user, link),
{
    law_assignable_collections(t, user, false, true, cipher, collection);
    let l = choose|l: int| is_link(t, cipher, collection, l);
    assert(t.ciphers_collections.len() == t.ciphers_collections@.len());
    let link = l as usize;
    law_shown_links(t, user, link);
    let k = choose|k: int| #[trigger]
        is_collection(t, collection, k) && assigns(t, user@, false, true, collection, k);
    let m = choose|m: int| #[trigger]
        is_holder(t, user@, k, m) && member_assigns(t, user@, false, true, collection, m);
    if edits(t, user@, collection) {
        let u = choose|u: int| #[trigger]
            is_user_access(t, user@, collection, u) && !t.users_collections@[u].read_only;
        assert(is_user_access(t, user@, collection, u));
    }
    assert(member_sees(t, user@, collection, m));
    link
}

} // verus!
