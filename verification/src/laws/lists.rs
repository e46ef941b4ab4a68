//! Laws on the lists that searches through several tables return, entry by entry: what they
//! list, how often and in which order.

use crate::cipher::Cipher;
use crate::ids::{CollectionId, UserId};
use crate::joins::{
    extended, joined, lemma_table_len, linked, matches_upto, table_len, Join, JoinRow, Subject,
};
use crate::queries::{
    assignable, collection_rows, group_access_flags, group_flag_rows, group_flags, member_is_user,
    row_assigns, row_collection, stored_copies, subject_of, user_access_flags, user_flag_rows,
    user_flags,
};
use crate::seqs::{lemma_choice_is_flat, lemma_flat_flat, lemma_map_flat, lemma_map_is_flat};
use crate::tables::{
    Collection, CollectionCipher, CollectionGroup, CollectionUser, Group, GroupUser, Membership,
    Tables,
};
use vstd::prelude::*;

verus! {

/// What follows the rows that a join finds, up to a position of its table.
proof fn lemma_matches<A, B>(
    t: &Tables,
    subject: &Subject,
    join: Join,
    row: JoinRow,
    table: Seq<A>,
    pred: spec_fn(A) -> bool,
    next: spec_fn(JoinRow) -> Seq<B>,
    then: spec_fn(A) -> Seq<B>,
    n: nat,
)
    requires
        n <= table.len() == table_len(t, join),
        forall|i: int|
            0 <= i < table.len() ==> #[trigger] linked(t, subject, join, row, i) == pred(table[i]),
        forall|i: int|
            0 <= i < table.len() && #[trigger] linked(t, subject, join, row, i) ==> next(
                row.with_spec(join, Some(i as usize)),
            ) == then(table[i]),
    ensures
        matches_upto(t, subject, join, row, n).flat_map(
            |i: usize| next(row.with_spec(join, Some(i))),
        ) == table.take(n as int).filter(pred).flat_map(then),
    decreases n,
{
    let follow = |i: usize| next(row.with_spec(join, Some(i)));
    reveal(Seq::filter);
    lemma_table_len(t, join);
    if n == 0 {
        assert(table.take(0) =~= Seq::empty());
        assert(Seq::<usize>::empty().map_values(follow) =~= Seq::empty());
        assert(Seq::<A>::empty().map_values(then) =~= Seq::empty());
    } else {
        let before = (n - 1) as nat;
        lemma_matches(t, subject, join, row, table, pred, next, then, before);
        let front = matches_upto(t, subject, join, row, before);
        let rows = table.take(before as int);
        let last = table[before as int];
        rows.lemma_filter_push(last, pred);
        assert(table.take(n as int) =~= rows.push(last));
        if linked(t, subject, join, row, before as int) {
            front.lemma_flat_map_push(follow, before as usize);
            rows.filter(pred).lemma_flat_map_push(then, last);
        }
    }
}

/// What follows the combined rows that one row becomes in an inner join.
proof fn lemma_inner<A, B>(
    t: &Tables,
    subject: &Subject,
    join: Join,
    row: JoinRow,
    table: Seq<A>,
    pred: spec_fn(A) -> bool,
    next: spec_fn(JoinRow) -> Seq<B>,
    then: spec_fn(A) -> Seq<B>,
)
    requires
        table.len() == table_len(t, join),
        forall|i: int|
            0 <= i < table.len() ==> #[trigger] linked(t, subject, join, row, i) == pred(table[i]),
        forall|i: int|
            0 <= i < table.len() && #[trigger] linked(t, subject, join, row, i) ==> next(
                row.with_spec(join, Some(i as usize)),
            ) == then(table[i]),
    ensures
        extended(t, subject, join, false, row).flat_map(next) == table.filter(pred).flat_map(then),
{
    let with = |i: usize| row.with_spec(join, Some(i));
    let found = matches_upto(t, subject, join, row, table.len());
    lemma_matches(t, subject, join, row, table, pred, next, then, table.len());
    lemma_map_flat(found, with, next);
    assert((|i: usize| next(with(i))) =~= (|i: usize| next(row.with_spec(join, Some(i)))));
    assert(table.take(table.len() as int) =~= table);
    assert(extended(t, subject, join, false, row) == found.map_values(with));
}

/// What follows the combined rows of an inner join.
proof fn lemma_joined_then<B>(
    t: &Tables,
    subject: &Subject,
    join: Join,
    outer: bool,
    rows: Seq<JoinRow>,
    next: spec_fn(JoinRow) -> Seq<B>,
)
    ensures
        joined(t, subject, join, outer, rows).flat_map(next) == rows.flat_map(
            |row: JoinRow| extended(t, subject, join, outer, row).flat_map(next),
        ),
{
    let f = |row: JoinRow| extended(t, subject, join, outer, row);
    lemma_flat_flat(rows, f, next);
    assert((|row: JoinRow| f(row).flat_map(next)) =~= (|row: JoinRow|
        extended(t, subject, join, outer, row).flat_map(next)));
}

/// The restrictions of a user's own accesses to a cipher, link by link and for each link access
/// by access.
pub open spec fn own_flags(t: &Tables, user: Seq<char>, cipher: Seq<char>) -> Seq<
    (bool, bool, bool),
> {
    t.ciphers_collections@.filter(
        |link: CollectionCipher| link.cipher_uuid.0@ == cipher,
    ).flat_map(|link: CollectionCipher| own_flags_of_link(t, user, link))
}

/// The restrictions of a user's own accesses to the collection that a link leads to.
pub open spec fn own_flags_of_link(t: &Tables, user: Seq<char>, link: CollectionCipher) -> Seq<
    (bool, bool, bool),
> {
    t.users_collections@.filter(
        |access: CollectionUser|
            access.collection_uuid.0@ == link.collection_uuid.0@ && access.user_uuid.0@ == user,
    ).map_values(
        |access: CollectionUser| (access.read_only, access.hide_passwords, access.manage),
    )
}

/// The restrictions of a user's own access to a stored cipher are listed once for every link of
/// the cipher and every access of the user to the linked collection, and for a cipher that is
/// stored several times as often.
pub proof fn law_list_of_own_restrictions(t: &Tables, user: UserId, cipher: Cipher)
    ensures
        user_access_flags(t, user, cipher) == t.ciphers@.filter(
            |stored: Cipher| stored.uuid.0@ == cipher.uuid.0@,
        ).flat_map(|stored: Cipher| own_flags(t, user.0@, cipher.uuid.0@)),
{
    let subject = &subject_of(user, cipher);
    let copies = stored_copies(t, cipher);
    let blank = |cipher: Cipher| JoinRow::empty_spec();
    let start = copies.map_values(blank);
    let links = joined(t, subject, Join::CipherLinks, false, start);
    let rows = user_flag_rows(t, subject, cipher);
    let pick = |row: JoinRow| user_flags(t, row);
    let one = |row: JoinRow| seq![pick(row)];
    let of_access = |row: JoinRow|
        extended(t, subject, Join::UserCollections, false, row).flat_map(one);
    let of_link = |row: JoinRow|
        extended(t, subject, Join::CipherLinks, false, row).flat_map(of_access);
    lemma_map_is_flat(rows, pick);
    lemma_joined_then(t, subject, Join::UserCollections, false, links, one);
    lemma_joined_then(t, subject, Join::CipherLinks, false, start, of_access);
    lemma_map_flat(copies, blank, of_link);
    let empty = JoinRow::empty_spec();
    let is_link = |link: CollectionCipher| link.cipher_uuid.0@ == cipher.uuid.0@;
    let then = |link: CollectionCipher| own_flags_of_link(t, user.0@, link);
    assert forall|l: int|
        0 <= l < t.ciphers_collections@.len() implies of_access(
        empty.with_spec(Join::CipherLinks, Some(l as usize)),
    ) == #[trigger] then(t.ciphers_collections@[l]) by {
        assert(t.ciphers_collections.len() == t.ciphers_collections@.len());
        let row = empty.with_spec(Join::CipherLinks, Some(l as usize));
        let link = t.ciphers_collections@[l];
        let is_own = |access: CollectionUser|
            access.collection_uuid.0@ == link.collection_uuid.0@ && access.user_uuid.0@ == user.0@;
        let flags = |access: CollectionUser|
            (access.read_only, access.hide_passwords, access.manage);
        let listed = |access: CollectionUser| seq![flags(access)];
        assert(t.users_collections.len() == t.users_collections@.len());
        lemma_inner(
            t,
            subject,
            Join::UserCollections,
            row,
            t.users_collections@,
            is_own,
            one,
            listed,
        );
        lemma_map_is_flat(t.users_collections@.filter(is_own), flags);
    }
    assert forall|l: int|
        0 <= l < t.ciphers_collections@.len() && #[trigger] linked(
            t,
            subject,
            Join::CipherLinks,
            empty,
            l,
        ) implies of_access(empty.with_spec(Join::CipherLinks, Some(l as usize))) == then(
        t.ciphers_collections@[l],
    ) by {}
    lemma_inner(
        t,
        subject,
        Join::CipherLinks,
        empty,
        t.ciphers_collections@,
        is_link,
        of_access,
        then,
    );
    assert(of_link(empty) == own_flags(t, user.0@, cipher.uuid.0@));
    assert((|stored: Cipher| of_link(blank(stored))) =~= (|stored: Cipher|
        own_flags(t, user.0@, cipher.uuid.0@)));
    assert((|stored: Cipher| stored.uuid@ == cipher.uuid@) =~= (|stored: Cipher|
        stored.uuid.0@ == cipher.uuid.0@));
}

/// The restrictions of the accesses that groups of a user have to a cipher, link by link, for
/// each link access by access, and for each access once for every membership of the user in the
/// group.
pub open spec fn flags_through_groups(t: &Tables, user: Seq<char>, cipher: Seq<char>) -> Seq<
    (bool, bool, bool),
> {
    t.ciphers_collections@.filter(
        |link: CollectionCipher| link.cipher_uuid.0@ == cipher,
    ).flat_map(|link: CollectionCipher| group_flags_of_link(t, user, link))
}

/// The restrictions of the accesses that groups of a user have to the collection that a link
/// leads to.
pub open spec fn group_flags_of_link(t: &Tables, user: Seq<char>, link: CollectionCipher) -> Seq<
    (bool, bool, bool),
> {
    t.collections_groups@.filter(
        |access: CollectionGroup| access.collections_uuid.0@ == link.collection_uuid.0@,
    ).flat_map(|access: CollectionGroup| flags_of_group_access(t, user, access))
}

/// The restrictions of a group's access, once for every membership of the user in the group.
pub open spec fn flags_of_group_access(
    t: &Tables,
    user: Seq<char>,
    access: CollectionGroup,
) -> Seq<(bool, bool, bool)> {
    t.groups_users@.filter(
        |record: GroupUser| record.groups_uuid.0@ == access.groups_uuid.0@,
    ).flat_map(|record: GroupUser| flags_of_membership(t, user, access, record))
}

/// The restrictions of a group's access, once for every membership of the user that the record
/// puts into the group.
pub open spec fn flags_of_membership(
    t: &Tables,
    user: Seq<char>,
    access: CollectionGroup,
    record: GroupUser,
) -> Seq<(bool, bool, bool)> {
    t.users_organizations@.filter(
        |member: Membership| member.uuid.0@ == record.users_organizations_uuid.0@,
    ).filter(|member: Membership| member.user_uuid.0@ == user).map_values(
        |member: Membership| (access.read_only, access.hide_passwords, access.manage),
    )
}

/// What a combined row with an access of a group and a record of the group lists.
proof fn lemma_group_members(
    t: &Tables,
    subject: &Subject,
    user: UserId,
    row: JoinRow,
    one: spec_fn(JoinRow) -> Seq<(bool, bool, bool)>,
)
    requires
        row.collection_group is Some && row.collection_group->0 < t.collections_groups@.len(),
        row.group_user is Some && row.group_user->0 < t.groups_users@.len(),
        one == (|row: JoinRow|
            if member_is_user(t, user@, row) {
                seq![group_flags(t, row)]
            } else {
                Seq::empty()
            }),
    ensures
        extended(t, subject, Join::GroupMembers, false, row).flat_map(one) == flags_of_membership(
            t,
            user.0@,
            t.collections_groups@[row.collection_group->0 as int],
            t.groups_users@[row.group_user->0 as int],
        ),
{
    let access = t.collections_groups@[row.collection_group->0 as int];
    let record = t.groups_users@[row.group_user->0 as int];
    let in_group = |member: Membership| member.uuid.0@ == record.users_organizations_uuid.0@;
    let is_user = |member: Membership| member.user_uuid.0@ == user.0@;
    let flags = |member: Membership| (access.read_only, access.hide_passwords, access.manage);
    let then = |member: Membership|
        if is_user(member) {
            seq![flags(member)]
        } else {
            Seq::empty()
        };
    assert(t.users_organizations.len() == t.users_organizations@.len());
    lemma_inner(
        t,
        subject,
        Join::GroupMembers,
        row,
        t.users_organizations@,
        in_group,
        one,
        then,
    );
    lemma_choice_is_flat(t.users_organizations@.filter(in_group), is_user, flags);
}

/// What a combined row with an access of a group lists.
proof fn lemma_group_users(
    t: &Tables,
    subject: &Subject,
    user: UserId,
    row: JoinRow,
    one: spec_fn(JoinRow) -> Seq<(bool, bool, bool)>,
)
    requires
        row.collection_group is Some && row.collection_group->0 < t.collections_groups@.len(),
        one == (|row: JoinRow|
            if member_is_user(t, user@, row) {
                seq![group_flags(t, row)]
            } else {
                Seq::empty()
            }),
    ensures
        extended(t, subject, Join::CollectionGroupUsers, false, row).flat_map(
            |row: JoinRow| extended(t, subject, Join::GroupMembers, false, row).flat_map(one),
        ) == flags_of_group_access(
            t,
            user.0@,
            t.collections_groups@[row.collection_group->0 as int],
        ),
{
    let access = t.collections_groups@[row.collection_group->0 as int];
    let next = |row: JoinRow|
        extended(t, subject, Join::GroupMembers, false, row).flat_map(one);
    let of_group = |record: GroupUser| record.groups_uuid.0@ == access.groups_uuid.0@;
    let then = |record: GroupUser| flags_of_membership(t, user.0@, access, record);
    assert(t.groups_users.len() == t.groups_users@.len());
    assert forall|i: int|
        0 <= i < t.groups_users@.len() && #[trigger] linked(
            t,
            subject,
            Join::CollectionGroupUsers,
            row,
            i,
        ) implies next(row.with_spec(Join::CollectionGroupUsers, Some(i as usize))) == then(
        t.groups_users@[i],
    ) by {
        let more = row.with_spec(Join::CollectionGroupUsers, Some(i as usize));
        lemma_group_members(t, subject, user, more, one);
    }
    lemma_inner(
        t,
        subject,
        Join::CollectionGroupUsers,
        row,
        t.groups_users@,
        of_group,
        next,
        then,
    );
}

/// What a combined row with a link lists.
proof fn lemma_linked_groups(
    t: &Tables,
    subject: &Subject,
    user: UserId,
    row: JoinRow,
    one: spec_fn(JoinRow) -> Seq<(bool, bool, bool)>,
    next: spec_fn(JoinRow) -> Seq<(bool, bool, bool)>,
)
    requires
        row.link is Some && row.link->0 < t.ciphers_collections@.len(),
        one == (|row: JoinRow|
            if member_is_user(t, user@, row) {
                seq![group_flags(t, row)]
            } else {
                Seq::empty()
            }),
        next == (|row: JoinRow|
            extended(t, subject, Join::CollectionGroupUsers, false, row).flat_map(
                |row: JoinRow| extended(t, subject, Join::GroupMembers, false, row).flat_map(one),
            )),
    ensures
        extended(t, subject, Join::LinkedGroups, false, row).flat_map(next)
            == group_flags_of_link(t, user.0@, t.ciphers_collections@[row.link->0 as int]),
{
    let link = t.ciphers_collections@[row.link->0 as int];
    let leads = |access: CollectionGroup| access.collections_uuid.0@ == link.collection_uuid.0@;
    let then = |access: CollectionGroup| flags_of_group_access(t, user.0@, access);
    assert(t.collections_groups.len() == t.collections_groups@.len());
    assert forall|i: int|
        0 <= i < t.collections_groups@.len() && #[trigger] linked(
            t,
            subject,
            Join::LinkedGroups,
            row,
            i,
        ) implies next(row.with_spec(Join::LinkedGroups, Some(i as usize))) == then(
        t.collections_groups@[i],
    ) by {
        let more = row.with_spec(Join::LinkedGroups, Some(i as usize));
        lemma_group_users(t, subject, user, more, one);
    }
    lemma_inner(
        t,
        subject,
        Join::LinkedGroups,
        row,
        t.collections_groups@,
        leads,
        next,
        then,
    );
}

/// The restrictions of a user's access to a stored cipher through groups are listed once for
/// every link of the cipher, every access of a group to the linked collection and every
/// membership of the user in the group, and for a cipher that is stored several times as often.
pub proof fn law_list_of_group_restrictions(t: &Tables, user: UserId, cipher: Cipher)
    ensures
        group_access_flags(t, user, true, cipher) == t.ciphers@.filter(
            |stored: Cipher| stored.uuid.0@ == cipher.uuid.0@,
        ).flat_map(|stored: Cipher| flags_through_groups(t, user.0@, cipher.uuid.0@)),
        group_access_flags(t, user, false, cipher) == Seq::<(bool, bool, bool)>::empty(),
{
    let subject = &subject_of(user, cipher);
    let copies = stored_copies(t, cipher);
    let blank = |cipher: Cipher| JoinRow::empty_spec();
    let start = copies.map_values(blank);
    let links = joined(t, subject, Join::CipherLinks, false, start);
    let accesses = joined(t, subject, Join::LinkedGroups, false, links);
    let records = joined(t, subject, Join::CollectionGroupUsers, false, accesses);
    let rows = group_flag_rows(t, subject, cipher);
    let is_user = |row: JoinRow| member_is_user(t, user@, row);
    let pick = |row: JoinRow| group_flags(t, row);
    let one = |row: JoinRow|
        if member_is_user(t, user@, row) {
            seq![group_flags(t, row)]
        } else {
            Seq::empty()
        };
    let of_record = |row: JoinRow|
        extended(t, subject, Join::GroupMembers, false, row).flat_map(one);
    let of_access = |row: JoinRow|
        extended(t, subject, Join::CollectionGroupUsers, false, row).flat_map(of_record);
    let of_link = |row: JoinRow|
        extended(t, subject, Join::LinkedGroups, false, row).flat_map(of_access);
    let of_cipher = |row: JoinRow|
        extended(t, subject, Join::CipherLinks, false, row).flat_map(of_link);
    lemma_choice_is_flat(rows, is_user, pick);
    assert((|row: JoinRow|
        if is_user(row) {
            seq![pick(row)]
        } else {
            Seq::empty()
        }) =~= one);
    lemma_joined_then(t, subject, Join::GroupMembers, false, records, one);
    lemma_joined_then(t, subject, Join::CollectionGroupUsers, false, accesses, of_record);
    lemma_joined_then(t, subject, Join::LinkedGroups, false, links, of_access);
    lemma_joined_then(t, subject, Join::CipherLinks, false, start, of_link);
    lemma_map_flat(copies, blank, of_cipher);
    let empty = JoinRow::empty_spec();
    let is_link = |link: CollectionCipher| link.cipher_uuid.0@ == cipher.uuid.0@;
    let then = |link: CollectionCipher| group_flags_of_link(t, user.0@, link);
    assert(t.ciphers_collections.len() == t.ciphers_collections@.len());
    assert forall|l: int|
        0 <= l < t.ciphers_collections@.len() && #[trigger] linked(
            t,
            subject,
            Join::CipherLinks,
            empty,
            l,
        ) implies of_link(empty.with_spec(Join::CipherLinks, Some(l as usize))) == then(
        t.ciphers_collections@[l],
    ) by {
        let row = empty.with_spec(Join::CipherLinks, Some(l as usize));
        lemma_linked_groups(t, subject, user, row, one, of_access);
    }
    lemma_inner(
        t,
        subject,
        Join::CipherLinks,
        empty,
        t.ciphers_collections@,
        is_link,
        of_link,
        then,
    );
    assert(of_cipher(empty) == flags_through_groups(t, user.0@, cipher.uuid.0@));
    assert((|stored: Cipher| of_cipher(blank(stored))) =~= (|stored: Cipher|
        flags_through_groups(t, user.0@, cipher.uuid.0@)));
    assert((|stored: Cipher| stored.uuid@ == cipher.uuid@) =~= (|stored: Cipher|
        stored.uuid.0@ == cipher.uuid.0@));
}

/// The rows, or a single absent one where there are none.
pub open spec fn or_none<A>(rows: Seq<A>) -> Seq<Option<A>> {
    if rows.len() == 0 {
        seq![None]
    } else {
        rows.map_values(|row: A| Some(row))
    }
}

/// A join finds as many rows as meet its condition.
proof fn lemma_matches_len<A>(
    t: &Tables,
    subject: &Subject,
    join: Join,
    row: JoinRow,
    table: Seq<A>,
    pred: spec_fn(A) -> bool,
    n: nat,
)
    requires
        n <= table.len() == table_len(t, join),
        forall|i: int|
            0 <= i < table.len() ==> #[trigger] linked(t, subject, join, row, i) == pred(table[i]),
    ensures
        matches_upto(t, subject, join, row, n).len() == table.take(n as int).filter(pred).len(),
    decreases n,
{
    reveal(Seq::filter);
    if n == 0 {
        assert(table.take(0) =~= Seq::empty());
    } else {
        let before = (n - 1) as nat;
        lemma_matches_len(t, subject, join, row, table, pred, before);
        let rows = table.take(before as int);
        let last = table[before as int];
        rows.lemma_filter_push(last, pred);
        assert(table.take(n as int) =~= rows.push(last));
        assert(linked(t, subject, join, row, before as int) == pred(last));
    }
}

/// What follows the combined rows that one row becomes in an outer join.
proof fn lemma_outer<A, B>(
    t: &Tables,
    subject: &Subject,
    join: Join,
    row: JoinRow,
    table: Seq<A>,
    pred: spec_fn(A) -> bool,
    next: spec_fn(JoinRow) -> Seq<B>,
    then: spec_fn(Option<A>) -> Seq<B>,
)
    requires
        table.len() == table_len(t, join),
        forall|i: int|
            0 <= i < table.len() ==> #[trigger] linked(t, subject, join, row, i) == pred(table[i]),
        forall|i: int|
            0 <= i < table.len() && #[trigger] linked(t, subject, join, row, i) ==> next(
                row.with_spec(join, Some(i as usize)),
            ) == then(Some(table[i])),
        next(row.with_spec(join, None)) == then(None),
    ensures
        extended(t, subject, join, true, row).flat_map(next) == or_none(
            table.filter(pred),
        ).flat_map(then),
{
    let found = matches_upto(t, subject, join, row, table.len());
    let chosen = table.filter(pred);
    lemma_matches_len(t, subject, join, row, table, pred, table.len());
    assert(table.take(table.len() as int) =~= table);
    if found.len() == 0 {
        let alone = seq![row.with_spec(join, None)];
        alone.lemma_flat_map_singleton(next);
        let none = seq![None::<A>];
        none.lemma_flat_map_singleton(then);
    } else {
        let some = |value: A| Some(value);
        let of_some = |value: A| then(Some(value));
        lemma_inner(t, subject, join, row, table, pred, next, of_some);
        assert(extended(t, subject, join, true, row) == extended(t, subject, join, false, row));
        lemma_map_flat(chosen, some, then);
        assert((|value: A| then(some(value))) =~= of_some);
    }
}

/// The collection of a link, where what goes with it lets a user change a cipher's place in it: a
/// membership with access to everything, an access of the user that is not read-only, a group
/// with access to everything, an access of a group that is not read-only, or, with `admin`, a
/// membership of an administrator or owner.
pub open spec fn named(
    admin: bool,
    link: CollectionCipher,
    member: Option<Membership>,
    access: Option<CollectionUser>,
    group: Option<Group>,
    group_access: Option<CollectionGroup>,
) -> Seq<CollectionId> {
    if (member is Some && member->0.access_all) || (access is Some && !access->0.read_only) || (
    group is Some && group->0.access_all) || (group_access is Some && !group_access->0.read_only)
        || (admin && member is Some && member->0.atype <= 1) {
        seq![link.collection_uuid]
    } else {
        Seq::empty()
    }
}

/// The collection of a link, once for every access of the group to it, if there is any.
pub open spec fn named_by_group(
    t: &Tables,
    admin: bool,
    link: CollectionCipher,
    member: Option<Membership>,
    access: Option<CollectionUser>,
    group: Option<Group>,
) -> Seq<CollectionId> {
    or_none(
        t.collections_groups@.filter(
            |held: CollectionGroup|
                group is Some && held.collections_uuid.0@ == link.collection_uuid.0@
                    && held.groups_uuid.0@ == group->0.uuid.0@,
        ),
    ).flat_map(|held: Option<CollectionGroup>| named(admin, link, member, access, group, held))
}

/// The collection of a link, for every group that the record leads to, if there is any.
pub open spec fn named_by_record(
    t: &Tables,
    admin: bool,
    link: CollectionCipher,
    member: Option<Membership>,
    access: Option<CollectionUser>,
    record: Option<GroupUser>,
) -> Seq<CollectionId> {
    or_none(
        t.groups@.filter(
            |group: Group| record is Some && group.uuid.0@ == record->0.groups_uuid.0@,
        ),
    ).flat_map(|group: Option<Group>| named_by_group(t, admin, link, member, access, group))
}

/// The collection of a link, for every record that puts the member into a group, if there is any.
pub open spec fn named_by_groups(
    t: &Tables,
    admin: bool,
    link: CollectionCipher,
    member: Option<Membership>,
    access: Option<CollectionUser>,
) -> Seq<CollectionId> {
    or_none(
        t.groups_users@.filter(
            |record: GroupUser|
                member is Some && record.users_organizations_uuid.0@ == member->0.uuid.0@,
        ),
    ).flat_map(
        |record: Option<GroupUser>| named_by_record(t, admin, link, member, access, record),
    )
}

/// The collection of a link, for every access of the user to it, if there is any.
pub open spec fn named_by_member(
    t: &Tables,
    user: Seq<char>,
    groups: bool,
    admin: bool,
    link: CollectionCipher,
    member: Option<Membership>,
) -> Seq<CollectionId> {
    or_none(
        t.users_collections@.filter(
            |access: CollectionUser|
                access.collection_uuid.0@ == link.collection_uuid.0@ && access.user_uuid.0@
                    == user,
        ),
    ).flat_map(
        |access: Option<CollectionUser>|
            if groups {
                named_by_groups(t, admin, link, member, access)
            } else {
                named(admin, link, member, access, None, None)
            },
    )
}

/// The collection of a link, for every membership of the user in the organization of the
/// collection; where groups are in use, also without a membership.
pub open spec fn named_by_collection(
    t: &Tables,
    user: Seq<char>,
    groups: bool,
    admin: bool,
    link: CollectionCipher,
    collection: Collection,
) -> Seq<CollectionId> {
    let members = t.users_organizations@.filter(
        |member: Membership|
            member.org_uuid.0@ == collection.org_uuid.0@ && member.user_uuid.0@ == user,
    );
    if groups {
        or_none(members).flat_map(
            |member: Option<Membership>| named_by_member(t, user, groups, admin, link, member),
        )
    } else {
        members.flat_map(
            |member: Membership| named_by_member(t, user, groups, admin, link, Some(member)),
        )
    }
}

/// The collection of a link, for every stored collection with its identifier.
pub open spec fn named_by_link(
    t: &Tables,
    user: Seq<char>,
    groups: bool,
    admin: bool,
    link: CollectionCipher,
) -> Seq<CollectionId> {
    t.collections@.filter(
        |collection: Collection| collection.uuid.0@ == link.collection_uuid.0@,
    ).flat_map(
        |collection: Collection| named_by_collection(t, user, groups, admin, link, collection),
    )
}

/// What a combined row of the search for a cipher's collections adds to the list.
spec fn picked(t: &Tables, user: UserId, groups: bool, admin: bool, row: JoinRow) -> Seq<
    CollectionId,
> {
    if row_assigns(t, user@, groups, admin, row) {
        seq![row_collection(t, row)]
    } else {
        Seq::empty()
    }
}

/// Whether the combined row has a link of the table and, at most, an access of the user.
spec fn is_users_row(t: &Tables, user: UserId, row: JoinRow) -> bool {
    &&& row.link is Some && row.link->0 < t.ciphers_collections@.len()
    &&& row.member matches Some(m) ==> m < t.users_organizations@.len()
    &&& row.user_collection matches Some(u) ==> u < t.users_collections@.len()
        && t.users_collections@[u as int].user_uuid@ == user@
}

/// The link in a combined row.
spec fn link_of(t: &Tables, row: JoinRow) -> CollectionCipher {
    t.ciphers_collections@[row.link->0 as int]
}

/// The membership in a combined row.
spec fn member_of(t: &Tables, row: JoinRow) -> Option<Membership> {
    match row.member {
        Some(m) => Some(t.users_organizations@[m as int]),
        None => None,
    }
}

/// The user's access in a combined row.
spec fn access_of(t: &Tables, row: JoinRow) -> Option<CollectionUser> {
    match row.user_collection {
        Some(u) => Some(t.users_collections@[u as int]),
        None => None,
    }
}

/// The record of a group in a combined row.
spec fn record_of(t: &Tables, row: JoinRow) -> Option<GroupUser> {
    match row.group_user {
        Some(r) => Some(t.groups_users@[r as int]),
        None => None,
    }
}

/// The group in a combined row.
spec fn group_of(t: &Tables, row: JoinRow) -> Option<Group> {
    match row.group {
        Some(g) => Some(t.groups@[g as int]),
        None => None,
    }
}

/// What is added to the list for a group's accesses.
spec fn after_group(t: &Tables, s: &Subject, user: UserId, admin: bool, row: JoinRow) -> Seq<
    CollectionId,
> {
    extended(t, s, Join::GroupCollections, true, row).flat_map(
        |row: JoinRow| picked(t, user, true, admin, row),
    )
}

/// What is added to the list for the group of a record.
spec fn after_record(t: &Tables, s: &Subject, user: UserId, admin: bool, row: JoinRow) -> Seq<
    CollectionId,
> {
    extended(t, s, Join::Groups, true, row).flat_map(
        |row: JoinRow| after_group(t, s, user, admin, row),
    )
}

/// What is added to the list for an access, or without one.
spec fn after_access(
    t: &Tables,
    s: &Subject,
    user: UserId,
    groups: bool,
    admin: bool,
    row: JoinRow,
) -> Seq<CollectionId> {
    if groups {
        extended(t, s, Join::MemberGroups, true, row).flat_map(
            |row: JoinRow| after_record(t, s, user, admin, row),
        )
    } else {
        picked(t, user, false, admin, row)
    }
}

/// What is added to the list for a membership, or without one.
spec fn after_member(
    t: &Tables,
    s: &Subject,
    user: UserId,
    groups: bool,
    admin: bool,
    row: JoinRow,
) -> Seq<CollectionId> {
    extended(t, s, Join::UserCollections, true, row).flat_map(
        |row: JoinRow| after_access(t, s, user, groups, admin, row),
    )
}

/// What is added to the list for a collection.
spec fn after_collection(
    t: &Tables,
    s: &Subject,
    user: UserId,
    groups: bool,
    admin: bool,
    row: JoinRow,
) -> Seq<CollectionId> {
    extended(t, s, Join::CollectionMembers, groups, row).flat_map(
        |row: JoinRow| after_member(t, s, user, groups, admin, row),
    )
}

/// What is added to the list for a link.
spec fn after_link(
    t: &Tables,
    s: &Subject,
    user: UserId,
    groups: bool,
    admin: bool,
    row: JoinRow,
) -> Seq<CollectionId> {
    extended(t, s, Join::Collections, false, row).flat_map(
        |row: JoinRow| after_collection(t, s, user, groups, admin, row),
    )
}

/// What a group's accesses add to the list.
proof fn lemma_named_by_group(t: &Tables, s: &Subject, user: UserId, admin: bool, row: JoinRow)
    requires
        is_users_row(t, user, row),
    ensures
        after_group(t, s, user, admin, row) == named_by_group(
            t,
            admin,
            link_of(t, row),
            member_of(t, row),
            access_of(t, row),
            group_of(t, row),
        ),
{
    let link = link_of(t, row);
    let group = group_of(t, row);
    let pred = |held: CollectionGroup|
        group is Some && held.collections_uuid.0@ == link.collection_uuid.0@
            && held.groups_uuid.0@ == group->0.uuid.0@;
    let next = |row: JoinRow| picked(t, user, true, admin, row);
    let then = |held: Option<CollectionGroup>|
        named(admin, link, member_of(t, row), access_of(t, row), group, held);
    assert(t.collections_groups.len() == t.collections_groups@.len());
    lemma_outer(
        t,
        s,
        Join::GroupCollections,
        row,
        t.collections_groups@,
        pred,
        next,
        then,
    );
}

/// What the group of a record adds to the list.
proof fn lemma_named_by_record(t: &Tables, s: &Subject, user: UserId, admin: bool, row: JoinRow)
    requires
        is_users_row(t, user, row),
    ensures
        after_record(t, s, user, admin, row) == named_by_record(
            t,
            admin,
            link_of(t, row),
            member_of(t, row),
            access_of(t, row),
            record_of(t, row),
        ),
{
    let record = record_of(t, row);
    let pred = |group: Group| record is Some && group.uuid.0@ == record->0.groups_uuid.0@;
    let next = |row: JoinRow| after_group(t, s, user, admin, row);
    let then = |group: Option<Group>|
        named_by_group(
            t,
            admin,
            link_of(t, row),
            member_of(t, row),
            access_of(t, row),
            group,
        );
    assert(t.groups.len() == t.groups@.len());
    assert forall|i: int|
        0 <= i < t.groups@.len() && #[trigger] linked(t, s, Join::Groups, row, i) implies next(
        row.with_spec(Join::Groups, Some(i as usize)),
    ) == then(Some(t.groups@[i])) by {
        let more = row.with_spec(Join::Groups, Some(i as usize));
        lemma_named_by_group(t, s, user, admin, more);
    }
    lemma_named_by_group(t, s, user, admin, row.with_spec(Join::Groups, None));
    lemma_outer(t, s, Join::Groups, row, t.groups@, pred, next, then);
}

/// What an access of the user, or none, adds to the list.
proof fn lemma_named_by_access(
    t: &Tables,
    s: &Subject,
    user: UserId,
    groups: bool,
    admin: bool,
    row: JoinRow,
)
    requires
        is_users_row(t, user, row),
        row.group is None && row.collection_group is None,
    ensures
        after_access(t, s, user, groups, admin, row) == if groups {
            named_by_groups(t, admin, link_of(t, row), member_of(t, row), access_of(t, row))
        } else {
            named(admin, link_of(t, row), member_of(t, row), access_of(t, row), None, None)
        },
{
    if groups {
        let member = member_of(t, row);
        let pred = |record: GroupUser|
            member is Some && record.users_organizations_uuid.0@ == member->0.uuid.0@;
        let next = |row: JoinRow| after_record(t, s, user, admin, row);
        let then = |record: Option<GroupUser>|
            named_by_record(t, admin, link_of(t, row), member, access_of(t, row), record);
        assert(t.groups_users.len() == t.groups_users@.len());
        assert forall|i: int|
            0 <= i < t.groups_users@.len() && #[trigger] linked(
                t,
                s,
                Join::MemberGroups,
                row,
                i,
            ) implies next(row.with_spec(Join::MemberGroups, Some(i as usize))) == then(
            Some(t.groups_users@[i]),
        ) by {
            let more = row.with_spec(Join::MemberGroups, Some(i as usize));
            lemma_named_by_record(t, s, user, admin, more);
        }
        lemma_named_by_record(t, s, user, admin, row.with_spec(Join::MemberGroups, None));
        lemma_outer(t, s, Join::MemberGroups, row, t.groups_users@, pred, next, then);
    }
}

/// What a membership of the user, or none, adds to the list.
proof fn lemma_named_by_member(
    t: &Tables,
    s: &Subject,
    user: UserId,
    groups: bool,
    admin: bool,
    row: JoinRow,
)
    requires
        is_users_row(t, user, row),
        s.user == user,
        row.user_collection is None && row.group is None && row.collection_group is None,
    ensures
        after_member(t, s, user, groups, admin, row) == named_by_member(
            t,
            user.0@,
            groups,
            admin,
            link_of(t, row),
            member_of(t, row),
        ),
{
    let link = link_of(t, row);
    let member = member_of(t, row);
    let pred = |access: CollectionUser|
        access.collection_uuid.0@ == link.collection_uuid.0@ && access.user_uuid.0@ == user.0@;
    let next = |row: JoinRow| after_access(t, s, user, groups, admin, row);
    let then = |access: Option<CollectionUser>|
        if groups {
            named_by_groups(t, admin, link, member, access)
        } else {
            named(admin, link, member, access, None, None)
        };
    assert(t.users_collections.len() == t.users_collections@.len());
    assert forall|i: int|
        0 <= i < t.users_collections@.len() && #[trigger] linked(
            t,
            s,
            Join::UserCollections,
            row,
            i,
        ) implies next(row.with_spec(Join::UserCollections, Some(i as usize))) == then(
        Some(t.users_collections@[i]),
    ) by {
        let more = row.with_spec(Join::UserCollections, Some(i as usize));
        lemma_named_by_access(t, s, user, groups, admin, more);
    }
    lemma_named_by_access(
        t,
        s,
        user,
        groups,
        admin,
        row.with_spec(Join::UserCollections, None),
    );
    lemma_outer(t, s, Join::UserCollections, row, t.users_collections@, pred, next, then);
}

/// What a collection adds to the list.
proof fn lemma_named_by_collection(
    t: &Tables,
    s: &Subject,
    user: UserId,
    groups: bool,
    admin: bool,
    row: JoinRow,
)
    requires
        is_users_row(t, user, row),
        s.user == user,
        row.collection is Some && row.collection->0 < t.collections@.len(),
        row.user_collection is None && row.group is None && row.collection_group is None,
    ensures
        after_collection(t, s, user, groups, admin, row) == named_by_collection(
            t,
            user.0@,
            groups,
            admin,
            link_of(t, row),
            t.collections@[row.collection->0 as int],
        ),
{
    let link = link_of(t, row);
    let collection = t.collections@[row.collection->0 as int];
    let pred = |member: Membership|
        member.org_uuid.0@ == collection.org_uuid.0@ && member.user_uuid.0@ == user.0@;
    let next = |row: JoinRow| after_member(t, s, user, groups, admin, row);
    assert(t.users_organizations.len() == t.users_organizations@.len());
    assert forall|i: int|
        0 <= i < t.users_organizations@.len() && #[trigger] linked(
            t,
            s,
            Join::CollectionMembers,
            row,
            i,
        ) implies next(row.with_spec(Join::CollectionMembers, Some(i as usize)))
        == named_by_member(
        t,
        user.0@,
        groups,
        admin,
        link,
        Some(t.users_organizations@[i]),
    ) by {
        let more = row.with_spec(Join::CollectionMembers, Some(i as usize));
        lemma_named_by_member(t, s, user, groups, admin, more);
    }
    if groups {
        let then = |member: Option<Membership>|
            named_by_member(t, user.0@, groups, admin, link, member);
        lemma_named_by_member(
            t,
            s,
            user,
            groups,
            admin,
            row.with_spec(Join::CollectionMembers, None),
        );
        lemma_outer(
            t,
            s,
            Join::CollectionMembers,
            row,
            t.users_organizations@,
            pred,
            next,
            then,
        );
    } else {
        let then = |member: Membership|
            named_by_member(t, user.0@, groups, admin, link, Some(member));
        lemma_inner(
            t,
            s,
            Join::CollectionMembers,
            row,
            t.users_organizations@,
            pred,
            next,
            then,
        );
    }
}

/// What a link adds to the list.
proof fn lemma_named_by_link(
    t: &Tables,
    s: &Subject,
    user: UserId,
    groups: bool,
    admin: bool,
    l: int,
)
    requires
        0 <= l < t.ciphers_collections@.len(),
        s.user == user,
    ensures
        after_link(
            t,
            s,
            user,
            groups,
            admin,
            JoinRow::empty_spec().with_spec(Join::CipherLinks, Some(l as usize)),
        ) == named_by_link(t, user.0@, groups, admin, t.ciphers_collections@[l]),
{
    assert(t.ciphers_collections.len() == t.ciphers_collections@.len());
    assert(t.collections.len() == t.collections@.len());
    let row = JoinRow::empty_spec().with_spec(Join::CipherLinks, Some(l as usize));
    let link = t.ciphers_collections@[l];
    let pred = |collection: Collection| collection.uuid.0@ == link.collection_uuid.0@;
    let next = |row: JoinRow| after_collection(t, s, user, groups, admin, row);
    let then = |collection: Collection|
        named_by_collection(t, user.0@, groups, admin, link, collection);
    assert forall|i: int|
        0 <= i < t.collections@.len() && #[trigger] linked(
            t,
            s,
            Join::Collections,
            row,
            i,
        ) implies next(row.with_spec(Join::Collections, Some(i as usize))) == then(
        t.collections@[i],
    ) by {
        let more = row.with_spec(Join::Collections, Some(i as usize));
        lemma_named_by_collection(t, s, user, groups, admin, more);
    }
    lemma_inner(t, s, Join::Collections, row, t.collections@, pred, next, then);
}

/// What the combined rows of the search for a cipher's collections add to the list, all told.
proof fn lemma_all_picked(t: &Tables, user: UserId, groups: bool, admin: bool, cipher: Cipher)
    ensures
        assignable(t, user, groups, admin, cipher) == extended(
            t,
            &subject_of(user, cipher),
            Join::CipherLinks,
            false,
            JoinRow::empty_spec(),
        ).flat_map(
            |row: JoinRow| after_link(t, &subject_of(user, cipher), user, groups, admin, row),
        ),
{
    let s = &subject_of(user, cipher);
    let start = seq![JoinRow::empty_spec()];
    let links = joined(t, s, Join::CipherLinks, false, start);
    let collections = joined(t, s, Join::Collections, false, links);
    let members = joined(t, s, Join::CollectionMembers, groups, collections);
    let accesses = joined(t, s, Join::UserCollections, true, members);
    let records = joined(t, s, Join::MemberGroups, true, accesses);
    let in_groups = joined(t, s, Join::Groups, true, records);
    let rows = collection_rows(t, s, groups);
    let pred = |row: JoinRow| row_assigns(t, user@, groups, admin, row);
    let pick = |row: JoinRow| row_collection(t, row);
    let all = |row: JoinRow| picked(t, user, groups, admin, row);
    let of_group = |row: JoinRow| after_group(t, s, user, admin, row);
    let of_record = |row: JoinRow| after_record(t, s, user, admin, row);
    let of_access = |row: JoinRow| after_access(t, s, user, groups, admin, row);
    let of_member = |row: JoinRow| after_member(t, s, user, groups, admin, row);
    let of_collection = |row: JoinRow| after_collection(t, s, user, groups, admin, row);
    let of_link = |row: JoinRow| after_link(t, s, user, groups, admin, row);
    lemma_choice_is_flat(rows, pred, pick);
    assert((|row: JoinRow|
        if pred(row) {
            seq![pick(row)]
        } else {
            Seq::<CollectionId>::empty()
        }) =~= all);
    if groups {
        lemma_joined_then(t, s, Join::GroupCollections, true, in_groups, all);
        assert((|row: JoinRow|
            extended(t, s, Join::GroupCollections, true, row).flat_map(all)) =~= of_group);
        lemma_joined_then(t, s, Join::Groups, true, records, of_group);
        assert((|row: JoinRow| extended(t, s, Join::Groups, true, row).flat_map(of_group))
            =~= of_record);
        lemma_joined_then(t, s, Join::MemberGroups, true, accesses, of_record);
        assert((|row: JoinRow| extended(t, s, Join::MemberGroups, true, row).flat_map(of_record))
            =~= of_access);
    } else {
        assert(all =~= of_access);
    }
    lemma_joined_then(t, s, Join::UserCollections, true, members, of_access);
    assert((|row: JoinRow| extended(t, s, Join::UserCollections, true, row).flat_map(of_access))
        =~= of_member);
    lemma_joined_then(t, s, Join::CollectionMembers, groups, collections, of_member);
    assert((|row: JoinRow|
        extended(t, s, Join::CollectionMembers, groups, row).flat_map(of_member))
        =~= of_collection);
    lemma_joined_then(t, s, Join::Collections, false, links, of_collection);
    assert((|row: JoinRow| extended(t, s, Join::Collections, false, row).flat_map(of_collection))
        =~= of_link);
    lemma_joined_then(t, s, Join::CipherLinks, false, start, of_link);
    start.lemma_flat_map_singleton(
        |row: JoinRow| extended(t, s, Join::CipherLinks, false, row).flat_map(of_link),
    );
}

/// The collections of a cipher in which a user may change it are listed link by link, once for
/// every way in which the records let the user do so.
pub proof fn law_list_of_assignable(
    t: &Tables,
    user: UserId,
    groups: bool,
    admin: bool,
    cipher: Cipher,
)
    ensures
        assignable(t, user, groups, admin, cipher) == t.ciphers_collections@.filter(
            |link: CollectionCipher| link.cipher_uuid.0@ == cipher.uuid.0@,
        ).flat_map(|link: CollectionCipher| named_by_link(t, user.0@, groups, admin, link)),
{
    let s = &subject_of(user, cipher);
    let empty = JoinRow::empty_spec();
    let pred = |link: CollectionCipher| link.cipher_uuid.0@ == cipher.uuid.0@;
    let next = |row: JoinRow| after_link(t, s, user, groups, admin, row);
    let then = |link: CollectionCipher| named_by_link(t, user.0@, groups, admin, link);
    assert(t.ciphers_collections.len() == t.ciphers_collections@.len());
    lemma_all_picked(t, user, groups, admin, cipher);
    assert forall|l: int|
        0 <= l < t.ciphers_collections@.len() && #[trigger] linked(
            t,
            s,
            Join::CipherLinks,
            empty,
            l,
        ) implies next(empty.with_spec(Join::CipherLinks, Some(l as usize))) == then(
        t.ciphers_collections@[l],
    ) by {
        lemma_named_by_link(t, s, user, groups, admin, l);
    }
    lemma_inner(t, s, Join::CipherLinks, empty, t.ciphers_collections@, pred, next, then);
}

} // verus!
