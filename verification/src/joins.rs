//! Joins over the tables: the rows that a query combines, one table after the other.

use crate::ids::{CipherId, OrganizationId, UserId};
use crate::tables::{Tables, STATUS_CONFIRMED};
use vstd::prelude::*;

verus! {

/// A combined row: the position of the row that each table contributes. A table that has not
/// been joined yet, or that an outer join found no row in, contributes none.
#[derive(Clone, Copy, Debug)]
pub struct JoinRow {
    /// In `ciphers_collections`.
    pub link: Option<usize>,
    /// In `collections`.
    pub collection: Option<usize>,
    /// In `users_organizations`.
    pub member: Option<usize>,
    /// In `users_collections`.
    pub user_collection: Option<usize>,
    /// In `groups_users`.
    pub group_user: Option<usize>,
    /// In `groups`.
    pub group: Option<usize>,
    /// In `collections_groups`.
    pub collection_group: Option<usize>,
}

/// What a query is about: a user, and mostly one cipher with its organization.
#[derive(Debug)]
pub struct Subject {
    pub user: UserId,
    pub cipher: Option<CipherId>,
    pub organization: Option<OrganizationId>,
}

/// A table to join, with the condition on its rows.
#[derive(Clone, Copy, Debug, PartialEq, Eq, Structural)]
pub enum Join {
    /// `ciphers_collections`: of the cipher.
    CipherLinks,
    /// `collections`: the one that the link leads to.
    Collections,
    /// `users_organizations`: the user's confirmed membership in the cipher's organization.
    ConfirmedMembers,
    /// `users_organizations`: the user's membership in the collection's organization.
    CollectionMembers,
    /// `users_organizations`: the membership that the group holds.
    GroupMembers,
    /// `users_collections`: the member's access to the linked collection.
    MemberCollections,
    /// `users_collections`: the user's access to the linked collection.
    UserCollections,
    /// `groups_users`: of the member.
    MemberGroups,
    /// `groups_users`: of the group that has access to the collection.
    CollectionGroupUsers,
    /// `groups`: the one that the member is in.
    Groups,
    /// `collections_groups`: the group's access to the linked collection.
    GroupCollections,
    /// `collections_groups`: any group's access to the linked collection.
    LinkedGroups,
}

impl JoinRow {
    /// The row to which no table has contributed.
    pub open spec fn empty_spec() -> JoinRow {
        JoinRow {
            link: None,
            collection: None,
            member: None,
            user_collection: None,
            group_user: None,
            group: None,
            collection_group: None,
        }
    }

    /// The row to which no table has contributed.
    pub fn empty() -> (row: JoinRow)
        ensures
            row == JoinRow::empty_spec(),
    {
        JoinRow {
            link: None,
            collection: None,
            member: None,
            user_collection: None,
            group_user: None,
            group: None,
            collection_group: None,
        }
    }

    /// The row with what the joined table contributes.
    pub open spec fn with_spec(self, join: Join, at: Option<usize>) -> JoinRow {
        match join {
            Join::CipherLinks => JoinRow { link: at, ..self },
            Join::Collections => JoinRow { collection: at, ..self },
            Join::ConfirmedMembers => JoinRow { member: at, ..self },
            Join::CollectionMembers => JoinRow { member: at, ..self },
            Join::GroupMembers => JoinRow { member: at, ..self },
            Join::MemberCollections => JoinRow { user_collection: at, ..self },
            Join::UserCollections => JoinRow { user_collection: at, ..self },
            Join::MemberGroups => JoinRow { group_user: at, ..self },
            Join::CollectionGroupUsers => JoinRow { group_user: at, ..self },
            Join::Groups => JoinRow { group: at, ..self },
            Join::GroupCollections => JoinRow { collection_group: at, ..self },
            Join::LinkedGroups => JoinRow { collection_group: at, ..self },
        }
    }

    /// The row with what the joined table contributes.
    fn with(self, join: Join, at: Option<usize>) -> (row: JoinRow)
        ensures
            row == self.with_spec(join, at),
    {
        match join {
            Join::CipherLinks => JoinRow { link: at, ..self },
            Join::Collections => JoinRow { collection: at, ..self },
            Join::ConfirmedMembers => JoinRow { member: at, ..self },
            Join::CollectionMembers => JoinRow { member: at, ..self },
            Join::GroupMembers => JoinRow { member: at, ..self },
            Join::MemberCollections => JoinRow { user_collection: at, ..self },
            Join::UserCollections => JoinRow { user_collection: at, ..self },
            Join::MemberGroups => JoinRow { group_user: at, ..self },
            Join::CollectionGroupUsers => JoinRow { group_user: at, ..self },
            Join::Groups => JoinRow { group: at, ..self },
            Join::GroupCollections => JoinRow { collection_group: at, ..self },
            Join::LinkedGroups => JoinRow { collection_group: at, ..self },
        }
    }

    /// Whether every position lies within its table.
    pub open spec fn fits(self, t: &Tables) -> bool {
        &&& self.link matches Some(i) ==> i < t.ciphers_collections@.len()
        &&& self.collection matches Some(i) ==> i < t.collections@.len()
        &&& self.member matches Some(i) ==> i < t.users_organizations@.len()
        &&& self.user_collection matches Some(i) ==> i < t.users_collections@.len()
        &&& self.group_user matches Some(i) ==> i < t.groups_users@.len()
        &&& self.group matches Some(i) ==> i < t.groups@.len()
        &&& self.collection_group matches Some(i) ==> i < t.collections_groups@.len()
    }
}

/// The number of rows of the table to join.
pub open spec fn table_len(t: &Tables, join: Join) -> nat {
    match join {
        Join::CipherLinks => t.ciphers_collections@.len(),
        Join::Collections => t.collections@.len(),
        Join::ConfirmedMembers => t.users_organizations@.len(),
        Join::CollectionMembers => t.users_organizations@.len(),
        Join::GroupMembers => t.users_organizations@.len(),
        Join::MemberCollections => t.users_collections@.len(),
        Join::UserCollections => t.users_collections@.len(),
        Join::MemberGroups => t.groups_users@.len(),
        Join::CollectionGroupUsers => t.groups_users@.len(),
        Join::Groups => t.groups@.len(),
        Join::GroupCollections => t.collections_groups@.len(),
        Join::LinkedGroups => t.collections_groups@.len(),
    }
}

/// The join condition: whether row `i` of the table goes with the combined row. What an absent
/// row would contribute equals nothing.
pub open spec fn linked(t: &Tables, subject: &Subject, join: Join, row: JoinRow, i: int) -> bool {
    match join {
        Join::CipherLinks => subject.cipher matches Some(cipher)
            && t.ciphers_collections@[i].cipher_uuid@ == cipher@,
        Join::Collections => row.link matches Some(l) && t.collections@[i].uuid@
            == t.ciphers_collections@[l as int].collection_uuid@,
        Join::ConfirmedMembers => {
            &&& subject.organization matches Some(org)
            &&& t.users_organizations@[i].org_uuid@ == org@
            &&& t.users_organizations@[i].user_uuid@ == subject.user@
            &&& t.users_organizations@[i].status == STATUS_CONFIRMED
        },
        Join::CollectionMembers => {
            &&& row.collection matches Some(c)
            &&& t.users_organizations@[i].org_uuid@ == t.collections@[c as int].org_uuid@
            &&& t.users_organizations@[i].user_uuid@ == subject.user@
        },
        Join::GroupMembers => row.group_user matches Some(g) && t.users_organizations@[i].uuid@
            == t.groups_users@[g as int].users_organizations_uuid@,
        Join::MemberCollections => {
            &&& row.link matches Some(l)
            &&& row.member matches Some(m)
            &&& t.users_collections@[i].collection_uuid@
                == t.ciphers_collections@[l as int].collection_uuid@
            &&& t.users_collections@[i].user_uuid@ == t.users_organizations@[m as int].user_uuid@
        },
        Join::UserCollections => {
            &&& row.link matches Some(l)
            &&& t.users_collections@[i].collection_uuid@
                == t.ciphers_collections@[l as int].collection_uuid@
            &&& t.users_collections@[i].user_uuid@ == subject.user@
        },
        Join::MemberGroups => row.member matches Some(m)
            && t.groups_users@[i].users_organizations_uuid@
            == t.users_organizations@[m as int].uuid@,
        Join::CollectionGroupUsers => row.collection_group matches Some(c)
            && t.groups_users@[i].groups_uuid@ == t.collections_groups@[c as int].groups_uuid@,
        Join::Groups => row.group_user matches Some(g) && t.groups@[i].uuid@
            == t.groups_users@[g as int].groups_uuid@,
        Join::GroupCollections => {
            &&& row.link matches Some(l)
            &&& row.group matches Some(g)
            &&& t.collections_groups@[i].collections_uuid@
                == t.ciphers_collections@[l as int].collection_uuid@
            &&& t.collections_groups@[i].groups_uuid@ == t.groups@[g as int].uuid@
        },
        Join::LinkedGroups => row.link matches Some(l)
            && t.collections_groups@[i].collections_uuid@
            == t.ciphers_collections@[l as int].collection_uuid@,
    }
}

/// The positions, among the first `n`, of the rows that go with the combined row.
pub open spec fn matches_upto(
    t: &Tables,
    subject: &Subject,
    join: Join,
    row: JoinRow,
    n: nat,
) -> Seq<usize>
    decreases n,
{
    if n == 0 {
        Seq::empty()
    } else {
        let front = matches_upto(t, subject, join, row, (n - 1) as nat);
        if linked(t, subject, join, row, n - 1) {
            front.push((n - 1) as usize)
        } else {
            front
        }
    }
}

/// The combined rows that one row becomes. In an outer join a row that nothing goes with stays,
/// with nothing contributed.
pub open spec fn extended(
    t: &Tables,
    subject: &Subject,
    join: Join,
    outer: bool,
    row: JoinRow,
) -> Seq<JoinRow> {
    let found = matches_upto(t, subject, join, row, table_len(t, join));
    if found.len() == 0 && outer {
        seq![row.with_spec(join, None)]
    } else {
        found.map_values(|i: usize| row.with_spec(join, Some(i)))
    }
}

/// The combined rows after one more table has been joined.
pub open spec fn joined(
    t: &Tables,
    subject: &Subject,
    join: Join,
    outer: bool,
    rows: Seq<JoinRow>,
) -> Seq<JoinRow> {
    rows.flat_map(|row: JoinRow| extended(t, subject, join, outer, row))
}

/// Whether all rows lie within the tables.
pub open spec fn all_fit(t: &Tables, rows: Seq<JoinRow>) -> bool {
    forall|i: int| 0 <= i < rows.len() ==> (#[trigger] rows[i]).fits(t)
}

/// The number of rows of the table to join.
fn table_size(t: &Tables, join: Join) -> (size: usize)
    ensures
        size == table_len(t, join),
{
    match join {
        Join::CipherLinks => t.ciphers_collections.len(),
        Join::Collections => t.collections.len(),
        Join::ConfirmedMembers => t.users_organizations.len(),
        Join::CollectionMembers => t.users_organizations.len(),
        Join::GroupMembers => t.users_organizations.len(),
        Join::MemberCollections => t.users_collections.len(),
        Join::UserCollections => t.users_collections.len(),
        Join::MemberGroups => t.groups_users.len(),
        Join::CollectionGroupUsers => t.groups_users.len(),
        Join::Groups => t.groups.len(),
        Join::GroupCollections => t.collections_groups.len(),
        Join::LinkedGroups => t.collections_groups.len(),
    }
}

/// The join condition.
fn is_linked(t: &Tables, subject: &Subject, join: Join, row: JoinRow, i: usize) -> (yes: bool)
    requires
        i < table_len(t, join),
        row.fits(t),
    ensures
        yes == linked(t, subject, join, row, i as int),
{
    match join {
        Join::CipherLinks => match &subject.cipher {
            Some(cipher) => t.ciphers_collections[i].cipher_uuid == *cipher,
            None => false,
        },
        Join::Collections => match row.link {
            Some(l) => t.collections[i].uuid == t.ciphers_collections[l].collection_uuid,
            None => false,
        },
        Join::ConfirmedMembers => match &subject.organization {
            Some(org) => t.users_organizations[i].org_uuid == *org
                && t.users_organizations[i].user_uuid == subject.user
                && t.users_organizations[i].status == STATUS_CONFIRMED,
            None => false,
        },
        Join::CollectionMembers => match row.collection {
            Some(c) => t.users_organizations[i].org_uuid == t.collections[c].org_uuid
                && t.users_organizations[i].user_uuid == subject.user,
            None => false,
        },
        Join::GroupMembers => match row.group_user {
            Some(g) => t.users_organizations[i].uuid
                == t.groups_users[g].users_organizations_uuid,
            None => false,
        },
        Join::MemberCollections => match (row.link, row.member) {
            (Some(l), Some(m)) => t.users_collections[i].collection_uuid
                == t.ciphers_collections[l].collection_uuid && t.users_collections[i].user_uuid
                == t.users_organizations[m].user_uuid,
            _ => false,
        },
        Join::UserCollections => match row.link {
            Some(l) => t.users_collections[i].collection_uuid
                == t.ciphers_collections[l].collection_uuid && t.users_collections[i].user_uuid
                == subject.user,
            None => false,
        },
        Join::MemberGroups => match row.member {
            Some(m) => t.groups_users[i].users_organizations_uuid
                == t.users_organizations[m].uuid,
            None => false,
        },
        Join::CollectionGroupUsers => match row.collection_group {
            Some(c) => t.groups_users[i].groups_uuid == t.collections_groups[c].groups_uuid,
            None => false,
        },
        Join::Groups => match row.group_user {
            Some(g) => t.groups[i].uuid == t.groups_users[g].groups_uuid,
            None => false,
        },
        Join::GroupCollections => match (row.link, row.group) {
            (Some(l), Some(g)) => t.collections_groups[i].collections_uuid
                == t.ciphers_collections[l].collection_uuid && t.collections_groups[i].groups_uuid
                == t.groups[g].uuid,
            _ => false,
        },
        Join::LinkedGroups => match row.link {
            Some(l) => t.collections_groups[i].collections_uuid
                == t.ciphers_collections[l].collection_uuid,
            None => false,
        },
    }
}

/// Joins one more table to one row.
fn extend_row(
    t: &Tables,
    subject: &Subject,
    join: Join,
    outer: bool,
    row: JoinRow,
) -> (rows: Vec<JoinRow>)
    requires
        row.fits(t),
    ensures
        rows@ == extended(t, subject, join, outer, row),
        all_fit(t, rows@),
{
    let size = table_size(t, join);
    let mut rows: Vec<JoinRow> = Vec::new();
    let mut i: usize = 0;
    let ghost place = |i: usize| row.with_spec(join, Some(i));
    assert(rows@ =~= matches_upto(t, subject, join, row, 0).map_values(place));
    while i < size
        invariant
            i <= size,
            size == table_len(t, join),
            row.fits(t),
            all_fit(t, rows@),
            place == (|i: usize| row.with_spec(join, Some(i))),
            rows@ == matches_upto(t, subject, join, row, i as nat).map_values(place),
        decreases size - i,
    {
        if is_linked(t, subject, join, row, i) {
            rows.push(row.with(join, Some(i)));
        }
        assert(rows@ =~= matches_upto(t, subject, join, row, (i + 1) as nat).map_values(place));
        i = i + 1;
    }
    if rows.len() == 0 && outer {
        rows.push(row.with(join, None));
        assert(rows@ =~= seq![row.with_spec(join, None)]);
    }
    rows
}

/// Joins one more table.
pub fn join_table(
    t: &Tables,
    subject: &Subject,
    join: Join,
    outer: bool,
    rows: &Vec<JoinRow>,
) -> (result: Vec<JoinRow>)
    requires
        all_fit(t, rows@),
    ensures
        result@ == joined(t, subject, join, outer, rows@),
        all_fit(t, result@),
{
    let mut result: Vec<JoinRow> = Vec::new();
    let mut i: usize = 0;
    let ghost f = |row: JoinRow| extended(t, subject, join, outer, row);
    assert(rows@.take(0) =~= Seq::empty());
    assert(result@ =~= Seq::<JoinRow>::empty().flat_map(f)) by {
        assert(Seq::<JoinRow>::empty().map_values(f) =~= Seq::empty());
    }
    while i < rows.len()
        invariant
            i <= rows@.len(),
            all_fit(t, rows@),
            all_fit(t, result@),
            f == (|row: JoinRow| extended(t, subject, join, outer, row)),
            result@ == rows@.take(i as int).flat_map(f),
        decreases rows@.len() - i,
    {
        let mut more = extend_row(t, subject, join, outer, rows[i]);
        proof {
            rows@.take(i as int).lemma_flat_map_push(f, rows@[i as int]);
            assert(rows@.take(i + 1) =~= rows@.take(i as int).push(rows@[i as int]));
        }
        result.append(&mut more);
        i = i + 1;
    }
    assert(rows@.take(rows@.len() as int) =~= rows@);
    result
}

/// A table's positions fit a machine word.
pub proof fn lemma_table_len(t: &Tables, join: Join)
    ensures
        table_len(t, join) <= usize::MAX,
{
    assert(t.ciphers_collections.len() == t.ciphers_collections@.len());
    assert(t.collections.len() == t.collections@.len());
    assert(t.users_organizations.len() == t.users_organizations@.len());
    assert(t.users_collections.len() == t.users_collections@.len());
    assert(t.groups_users.len() == t.groups_users@.len());
    assert(t.groups.len() == t.groups@.len());
    assert(t.collections_groups.len() == t.collections_groups@.len());
}

/// The positions found are those of the rows that meet the join condition.
proof fn lemma_matches(t: &Tables, subject: &Subject, join: Join, row: JoinRow, n: nat, p: usize)
    requires
        n <= usize::MAX,
    ensures
        matches_upto(t, subject, join, row, n).contains(p) <==> p < n && linked(
            t,
            subject,
            join,
            row,
            p as int,
        ),
    decreases n,
{
    if n > 0 {
        let front = matches_upto(t, subject, join, row, (n - 1) as nat);
        lemma_matches(t, subject, join, row, (n - 1) as nat, p);
        if linked(t, subject, join, row, n - 1) {
            let all = front.push((n - 1) as usize);
            assert(all.contains(p) <==> front.contains(p) || p == n - 1) by {
                assert(all[front.len() as int] == n - 1);
                if front.contains(p) {
                    let k = choose|k: int| 0 <= k < front.len() && front[k] == p;
                    assert(all[k] == p);
                }
            }
        }
    }
}

/// Every combined row comes from an earlier one: with a row that meets the condition, or, in an
/// outer join, with none where none does.
pub proof fn lemma_joined_back(
    t: &Tables,
    subject: &Subject,
    join: Join,
    outer: bool,
    rows: Seq<JoinRow>,
    row: JoinRow,
) -> (from: (JoinRow, Option<usize>))
    requires
        joined(t, subject, join, outer, rows).contains(row),
    ensures
        rows.contains(from.0),
        row == from.0.with_spec(join, from.1),
        from.1 matches Some(p) ==> p < table_len(t, join) && linked(
            t,
            subject,
            join,
            from.0,
            p as int,
        ),
        from.1 is None ==> outer,
        from.1 is None ==> forall|p: int|
            0 <= p < table_len(t, join) ==> !linked(t, subject, join, from.0, p),
    decreases rows.len(),
{
    let f = |row: JoinRow| extended(t, subject, join, outer, row);
    if rows.len() == 0 {
        assert(rows.map_values(f) =~= Seq::empty());
        assert(false);
    }
    let front = rows.drop_last();
    let last = rows.last();
    front.lemma_flat_map_push(f, last);
    assert(rows =~= front.push(last));
    let more = extended(t, subject, join, outer, last);
    let k = choose|k: int| 0 <= k < rows.flat_map(f).len() && rows.flat_map(f)[k] == row;
    if k < front.flat_map(f).len() {
        assert(front.flat_map(f)[k] == row);
        let from = lemma_joined_back(t, subject, join, outer, front, row);
        let at = choose|at: int| 0 <= at < front.len() && front[at] == from.0;
        assert(rows[at] == from.0);
        from
    } else {
        let j = k - front.flat_map(f).len();
        assert(more[j] == row);
        assert(rows[rows.len() - 1] == last);
        let n = table_len(t, join);
        lemma_table_len(t, join);
        let found = matches_upto(t, subject, join, last, n);
        if found.len() == 0 && outer {
            assert forall|p: int| 0 <= p < n implies !linked(t, subject, join, last, p) by {
                lemma_matches(t, subject, join, last, n, p as usize);
                if linked(t, subject, join, last, p) {
                    assert(found.contains(p as usize));
                }
            }
            (last, None)
        } else {
            assert(found.contains(found[j]));
            lemma_matches(t, subject, join, last, n, found[j]);
            (last, Some(found[j]))
        }
    }
}

/// What one row becomes is among the combined rows.
proof fn lemma_joined_contains(
    t: &Tables,
    subject: &Subject,
    join: Join,
    outer: bool,
    rows: Seq<JoinRow>,
    from: JoinRow,
    row: JoinRow,
)
    requires
        rows.contains(from),
        extended(t, subject, join, outer, from).contains(row),
    ensures
        joined(t, subject, join, outer, rows).contains(row),
    decreases rows.len(),
{
    let f = |row: JoinRow| extended(t, subject, join, outer, row);
    let front = rows.drop_last();
    let last = rows.last();
    front.lemma_flat_map_push(f, last);
    assert(rows =~= front.push(last));
    let all = rows.flat_map(f);
    let at = choose|at: int| 0 <= at < rows.len() && rows[at] == from;
    if at < front.len() {
        assert(front[at] == from);
        lemma_joined_contains(t, subject, join, outer, front, from, row);
        let k = choose|k: int| 0 <= k < front.flat_map(f).len() && front.flat_map(f)[k] == row;
        assert(all[k] == row);
    } else {
        let more = extended(t, subject, join, outer, last);
        let k = choose|k: int| 0 <= k < more.len() && more[k] == row;
        assert(all[front.flat_map(f).len() + k] == row);
    }
}

/// A row that meets the join condition is combined.
pub proof fn lemma_joined_forward(
    t: &Tables,
    subject: &Subject,
    join: Join,
    outer: bool,
    rows: Seq<JoinRow>,
    from: JoinRow,
    p: int,
)
    requires
        rows.contains(from),
        0 <= p < table_len(t, join),
        linked(t, subject, join, from, p),
    ensures
        joined(t, subject, join, outer, rows).contains(from.with_spec(join, Some(p as usize))),
{
    let n = table_len(t, join);
    lemma_table_len(t, join);
    let found = matches_upto(t, subject, join, from, n);
    lemma_matches(t, subject, join, from, n, p as usize);
    let k = choose|k: int| 0 <= k < found.len() && found[k] == p as usize;
    let more = extended(t, subject, join, outer, from);
    assert(more[k] == from.with_spec(join, Some(p as usize)));
    lemma_joined_contains(
        t,
        subject,
        join,
        outer,
        rows,
        from,
        from.with_spec(join, Some(p as usize)),
    );
}

/// An outer join keeps every row.
pub proof fn lemma_joined_outer(
    t: &Tables,
    subject: &Subject,
    join: Join,
    rows: Seq<JoinRow>,
    from: JoinRow,
) -> (at: Option<usize>)
    requires
        rows.contains(from),
    ensures
        joined(t, subject, join, true, rows).contains(from.with_spec(join, at)),
{
    let more = extended(t, subject, join, true, from);
    let found = matches_upto(t, subject, join, from, table_len(t, join));
    let at = if found.len() == 0 {
        None
    } else {
        Some(found[0])
    };
    assert(more[0] == from.with_spec(join, at));
    lemma_joined_contains(t, subject, join, true, rows, from, from.with_spec(join, at));
    at
}

} // verus!
