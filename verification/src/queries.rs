//! Queries on ciphers: which ciphers and collections a user reaches, and with which
//! restrictions.

use crate::cipher::Cipher;
use crate::ids::{CipherId, CollectionId, UserId};
use crate::joins::{all_fit, join_table, joined, lemma_joined_back, Join, JoinRow, Subject};
use crate::seqs::lemma_filter_holds;
use crate::tables::{CollectionCipher, Tables, TYPE_ADMIN};
use vstd::prelude::*;

verus! {

/// What a query on one cipher for one user is about.
pub open spec fn subject_of(user: UserId, cipher: Cipher) -> Subject {
    Subject { user, cipher: Some(cipher.uuid), organization: cipher.organization_uuid }
}

/// What a query on one cipher for one user is about.
fn make_subject(user: &UserId, cipher: &Cipher) -> (subject: Subject)
    ensures
        subject == subject_of(*user, *cipher),
{
    let organization = match &cipher.organization_uuid {
        Some(organization) => Some(organization.clone()),
        None => None,
    };
    Subject { user: user.clone(), cipher: Some(cipher.uuid.clone()), organization }
}

/// Whether the row's membership has access to everything in its organization.
pub open spec fn member_sees_all(t: &Tables, row: JoinRow) -> bool {
    row.member matches Some(m) && t.users_organizations@[m as int].access_all
}

/// Whether the row's membership is one of an administrator or owner.
pub open spec fn member_is_admin(t: &Tables, row: JoinRow) -> bool {
    row.member matches Some(m) && t.users_organizations@[m as int].atype <= TYPE_ADMIN
}

/// Whether the row's access to a collection is the user's.
pub open spec fn user_has_collection(t: &Tables, user: Seq<char>, row: JoinRow) -> bool {
    row.user_collection matches Some(u) && t.users_collections@[u as int].user_uuid@ == user
}

/// Whether the row's access to a collection is the user's and allows changes.
pub open spec fn user_edits_collection(t: &Tables, user: Seq<char>, row: JoinRow) -> bool {
    &&& user_has_collection(t, user, row)
    &&& !t.users_collections@[row.user_collection->0 as int].read_only
}

/// Whether the row's group has access to everything.
pub open spec fn group_sees_all(t: &Tables, row: JoinRow) -> bool {
    row.group matches Some(g) && t.groups@[g as int].access_all
}

/// Whether the row's group has access to the collection.
pub open spec fn group_has_collection(row: JoinRow) -> bool {
    row.collection_group is Some
}

/// Whether the row's group has access to the collection that allows changes.
pub open spec fn group_edits_collection(t: &Tables, row: JoinRow) -> bool {
    row.collection_group matches Some(c) && !t.collections_groups@[c as int].read_only
}

fn sees_all(t: &Tables, row: JoinRow) -> (yes: bool)
    requires
        row.fits(t),
    ensures
        yes == member_sees_all(t, row),
{
    match row.member {
        Some(m) => t.users_organizations[m].access_all,
        None => false,
    }
}

fn is_admin(t: &Tables, row: JoinRow) -> (yes: bool)
    requires
        row.fits(t),
    ensures
        yes == member_is_admin(t, row),
{
    match row.member {
        Some(m) => t.users_organizations[m].atype <= TYPE_ADMIN,
        None => false,
    }
}

fn has_collection(t: &Tables, user: &UserId, row: JoinRow) -> (yes: bool)
    requires
        row.fits(t),
    ensures
        yes == user_has_collection(t, user@, row),
{
    match row.user_collection {
        Some(u) => t.users_collections[u].user_uuid == *user,
        None => false,
    }
}

fn edits_collection(t: &Tables, user: &UserId, row: JoinRow) -> (yes: bool)
    requires
        row.fits(t),
    ensures
        yes == user_edits_collection(t, user@, row),
{
    match row.user_collection {
        Some(u) => t.users_collections[u].user_uuid == *user && !t.users_collections[u].read_only,
        None => false,
    }
}

fn group_all(t: &Tables, row: JoinRow) -> (yes: bool)
    requires
        row.fits(t),
    ensures
        yes == group_sees_all(t, row),
{
    match row.group {
        Some(g) => t.groups[g].access_all,
        None => false,
    }
}

fn group_edits(t: &Tables, row: JoinRow) -> (yes: bool)
    requires
        row.fits(t),
    ensures
        yes == group_edits_collection(t, row),
{
    match row.collection_group {
        Some(c) => !t.collections_groups[c].read_only,
        None => false,
    }
}

/// The combined rows behind the search for a user's ciphers: the cipher with its collections,
/// the user's confirmed membership in its organization, the member's access to the collections
/// and, where groups are in use, the member's groups and their access.
pub open spec fn access_rows(t: &Tables, subject: &Subject, groups: bool) -> Seq<JoinRow> {
    let start = seq![JoinRow::empty_spec()];
    let links = joined(t, subject, Join::CipherLinks, true, start);
    let members = joined(t, subject, Join::ConfirmedMembers, true, links);
    let collections = joined(t, subject, Join::MemberCollections, true, members);
    if groups {
        let group_users = joined(t, subject, Join::MemberGroups, true, collections);
        let in_groups = joined(t, subject, Join::Groups, true, group_users);
        joined(t, subject, Join::GroupCollections, true, in_groups)
    } else {
        collections
    }
}

/// Whether a combined row lets the user find the cipher.
pub open spec fn row_finds(
    t: &Tables,
    user: Seq<char>,
    visible_only: bool,
    groups: bool,
    cipher: Cipher,
    row: JoinRow,
) -> bool {
    ||| cipher.owned_by(user)
    ||| member_sees_all(t, row)
    ||| user_has_collection(t, user, row)
    ||| groups && group_sees_all(t, row)
    ||| groups && group_has_collection(row)
    ||| !visible_only && member_is_admin(t, row)
}

/// Whether the search for a user's ciphers finds the cipher.
pub open spec fn finds(
    t: &Tables,
    user: UserId,
    visible_only: bool,
    groups: bool,
    cipher: Cipher,
) -> bool {
    access_rows(t, &subject_of(user, cipher), groups).any(
        |row: JoinRow| row_finds(t, user@, visible_only, groups, cipher, row),
    )
}

/// The positions of a table of `n` rows.
pub open spec fn positions(n: nat) -> Seq<usize> {
    Seq::new(n, |i: int| i as usize)
}

/// A choice of positions keeps their order.
pub proof fn lemma_positions_rise(n: nat, pred: spec_fn(usize) -> bool, i: int, j: int)
    requires
        n <= usize::MAX,
        0 <= i < j < positions(n).filter(pred).len(),
    ensures
        positions(n).filter(pred)[i] < positions(n).filter(pred)[j] < n,
    decreases n,
{
    reveal(Seq::filter);
    if n > 0 {
        let front = positions((n - 1) as nat);
        let last = (n - 1) as usize;
        front.lemma_filter_push(last, pred);
        assert(positions(n) =~= front.push(last));
        let chosen = front.filter(pred);
        assert(chosen.contains(chosen[i]));
        lemma_filter_holds(front, pred, chosen[i]);
        if j < chosen.len() {
            lemma_positions_rise((n - 1) as nat, pred, i, j);
        }
    } else {
        assert(positions(n) =~= Seq::empty());
    }
}

/// Whether no row before the one at a position is equal to it in all columns.
pub open spec fn is_first_row(ciphers: Seq<Cipher>, i: int) -> bool {
    forall|j: int| 0 <= j < i ==> !(#[trigger] ciphers[j]).same_as(&ciphers[i])
}

/// Whether the search for a user's ciphers returns the row at a position: it finds the cipher,
/// and no equal row comes before.
pub open spec fn finds_row(
    t: &Tables,
    user: UserId,
    visible_only: bool,
    groups: bool,
    at: usize,
) -> bool {
    &&& finds(t, user, visible_only, groups, t.ciphers@[at as int])
    &&& is_first_row(t.ciphers@, at as int)
}

/// The distinct ciphers that the search for a user's ciphers finds.
pub open spec fn found_ciphers(
    t: &Tables,
    user: UserId,
    visible_only: bool,
    groups: bool,
) -> Seq<Cipher> {
    positions(t.ciphers@.len()).filter(
        |at: usize| finds_row(t, user, visible_only, groups, at),
    ).map_values(|at: usize| t.ciphers@[at as int])
}

/// The combined rows behind the search for a cipher's collections: its links with their
/// collections, the user's membership in the collection's organization, the user's access to
/// the collection and, where groups are in use, the member's groups and their access. Without
/// groups a link that the user has no membership for drops out.
pub open spec fn collection_rows(t: &Tables, subject: &Subject, groups: bool) -> Seq<JoinRow> {
    let start = seq![JoinRow::empty_spec()];
    let links = joined(t, subject, Join::CipherLinks, false, start);
    let collections = joined(t, subject, Join::Collections, false, links);
    let members = joined(t, subject, Join::CollectionMembers, groups, collections);
    let user_collections = joined(t, subject, Join::UserCollections, true, members);
    if groups {
        let group_users = joined(t, subject, Join::MemberGroups, true, user_collections);
        let in_groups = joined(t, subject, Join::Groups, true, group_users);
        joined(t, subject, Join::GroupCollections, true, in_groups)
    } else {
        user_collections
    }
}

/// Whether a combined row lets the user change the cipher's place in the collection. With
/// `admin`, administrators and owners of the organization may always.
pub open spec fn row_assigns(
    t: &Tables,
    user: Seq<char>,
    groups: bool,
    admin: bool,
    row: JoinRow,
) -> bool {
    ||| member_sees_all(t, row)
    ||| user_edits_collection(t, user, row)
    ||| groups && group_sees_all(t, row)
    ||| groups && group_edits_collection(t, row)
    ||| admin && member_is_admin(t, row)
}

/// The collection that a combined row is about.
pub open spec fn row_collection(t: &Tables, row: JoinRow) -> CollectionId {
    t.ciphers_collections@[row.link->0 as int].collection_uuid
}

/// The collections of a cipher in which the user may change it, once for every combined row
/// that says so.
pub open spec fn assignable(
    t: &Tables,
    user: UserId,
    groups: bool,
    admin: bool,
    cipher: Cipher,
) -> Seq<CollectionId> {
    collection_rows(t, &subject_of(user, cipher), groups).filter(
        |row: JoinRow| row_assigns(t, user@, groups, admin, row),
    ).map_values(|row: JoinRow| row_collection(t, row))
}

/// Whether all rows have a link.
pub open spec fn all_have_link(rows: Seq<JoinRow>) -> bool {
    forall|i: int| 0 <= i < rows.len() ==> (#[trigger] rows[i]).link is Some
}

/// The first row of a query, to which no table has contributed.
fn start_rows(t: &Tables) -> (rows: Vec<JoinRow>)
    ensures
        rows@ == seq![JoinRow::empty_spec()],
        all_fit(t, rows@),
{
    let mut rows: Vec<JoinRow> = Vec::new();
    rows.push(JoinRow::empty());
    assert(rows@ =~= seq![JoinRow::empty_spec()]);
    rows
}

/// The combined rows behind the search for a user's ciphers.
fn rows_for_access(t: &Tables, subject: &Subject, groups: bool) -> (rows: Vec<JoinRow>)
    ensures
        rows@ == access_rows(t, subject, groups),
        all_fit(t, rows@),
{
    let rows = start_rows(t);
    let rows = join_table(t, subject, Join::CipherLinks, true, &rows);
    let rows = join_table(t, subject, Join::ConfirmedMembers, true, &rows);
    let rows = join_table(t, subject, Join::MemberCollections, true, &rows);
    if groups {
        let rows = join_table(t, subject, Join::MemberGroups, true, &rows);
        let rows = join_table(t, subject, Join::Groups, true, &rows);
        join_table(t, subject, Join::GroupCollections, true, &rows)
    } else {
        rows
    }
}

/// The combined rows behind the search for a cipher's collections.
fn rows_for_collections(t: &Tables, subject: &Subject, groups: bool) -> (rows: Vec<JoinRow>)
    ensures
        rows@ == collection_rows(t, subject, groups),
        all_fit(t, rows@),
{
    let rows = start_rows(t);
    let rows = join_table(t, subject, Join::CipherLinks, false, &rows);
    let rows = join_table(t, subject, Join::Collections, false, &rows);
    let rows = join_table(t, subject, Join::CollectionMembers, groups, &rows);
    let rows = join_table(t, subject, Join::UserCollections, true, &rows);
    if groups {
        let rows = join_table(t, subject, Join::MemberGroups, true, &rows);
        let rows = join_table(t, subject, Join::Groups, true, &rows);
        join_table(t, subject, Join::GroupCollections, true, &rows)
    } else {
        rows
    }
}

/// Whether the search for a user's ciphers finds the cipher.
fn is_found(
    t: &Tables,
    user_uuid: &UserId,
    visible_only: bool,
    groups: bool,
    cipher: &Cipher,
) -> (found: bool)
    ensures
        found == finds(t, *user_uuid, visible_only, groups, *cipher),
{
    let subject = make_subject(user_uuid, cipher);
    let rows = rows_for_access(t, &subject, groups);
    let ghost pred = |row: JoinRow|
        row_finds(t, user_uuid@, visible_only, groups, *cipher, row);
    let owned = cipher.is_owned_by_user(user_uuid);
    let mut i: usize = 0;
    while i < rows.len()
        invariant
            i <= rows@.len(),
            all_fit(t, rows@),
            owned == cipher.owned_by(user_uuid@),
            rows@ == access_rows(t, &subject_of(*user_uuid, *cipher), groups),
            pred == (|row: JoinRow|
                row_finds(t, user_uuid@, visible_only, groups, *cipher, row)),
            forall|j: int| 0 <= j < i ==> !pred(#[trigger] rows@[j]),
        decreases rows@.len() - i,
    {
        let row = rows[i];
        if owned || sees_all(t, row) || has_collection(t, user_uuid, row) || (groups && group_all(
            t,
            row,
        )) || (groups && row.collection_group.is_some()) || (!visible_only && is_admin(t, row)) {
            assert(pred(rows@[i as int]));
            return true;
        }
        i = i + 1;
    }
    false
}

/// Whether no row before the one at a position is equal to it in all columns.
fn is_first(ciphers: &Vec<Cipher>, at: usize) -> (first: bool)
    requires
        at < ciphers@.len(),
    ensures
        first == is_first_row(ciphers@, at as int),
{
    let mut j: usize = 0;
    while j < at
        invariant
            j <= at < ciphers@.len(),
            forall|k: int| 0 <= k < j ==> !(#[trigger] ciphers@[k]).same_as(&ciphers@[at as int]),
        decreases at - j,
    {
        if ciphers[j].is_same_as(&ciphers[at]) {
            return false;
        }
        j = j + 1;
    }
    true
}

impl Cipher {
    /// Find all ciphers accessible or visible to the specified user. Of rows that are equal in
    /// all columns one is returned.
    ///
    /// "Accessible" means the user has read access to the cipher, either via direct ownership,
    /// collection or via group access.
    ///
    /// "Visible" usually means the same as accessible, except when an owner or administrator of
    /// an organization has access to only selected collections in it. With `visible_only`, the
    /// other ciphers of the organization are left out.
    pub fn find_by_user(
        user_uuid: &UserId,
        visible_only: bool,
        org_groups_enabled: bool,
        tables: &Tables,
    ) -> (ciphers: Vec<Cipher>)
        ensures
            ciphers@ == found_ciphers(tables, *user_uuid, visible_only, org_groups_enabled),
    {
        let ghost all = positions(tables.ciphers@.len());
        let ghost pred = |at: usize|
            finds_row(tables, *user_uuid, visible_only, org_groups_enabled, at);
        let ghost pick = |at: usize| tables.ciphers@[at as int];
        let mut ciphers: Vec<Cipher> = Vec::new();
        let mut i: usize = 0;
        proof {
            assert(all.take(0) =~= Seq::empty());
            reveal(Seq::filter);
            assert(ciphers@ =~= all.take(0).filter(pred).map_values(pick));
        }
        while i < tables.ciphers.len()
            invariant
                i <= tables.ciphers@.len(),
                all == positions(tables.ciphers@.len()),
                pred == (|at: usize|
                    finds_row(tables, *user_uuid, visible_only, org_groups_enabled, at)),
                pick == (|at: usize| tables.ciphers@[at as int]),
                ciphers@ == all.take(i as int).filter(pred).map_values(pick),
            decreases tables.ciphers@.len() - i,
        {
            let cipher = &tables.ciphers[i];
            if is_found(tables, user_uuid, visible_only, org_groups_enabled, cipher) && is_first(
                &tables.ciphers,
                i,
            ) {
                ciphers.push(cipher.clone());
            }
            proof {
                all.take(i as int).lemma_filter_push(i, pred);
                assert(all.take(i + 1) =~= all.take(i as int).push(i));
                assert(ciphers@ =~= all.take(i + 1).filter(pred).map_values(pick));
            }
            i = i + 1;
        }
        assert(all.take(all.len() as int) =~= all);
        ciphers
    }

    /// Find all ciphers visible to the specified user.
    pub fn find_by_user_visible(
        user_uuid: &UserId,
        org_groups_enabled: bool,
        tables: &Tables,
    ) -> (ciphers: Vec<Cipher>)
        ensures
            ciphers@ == found_ciphers(tables, *user_uuid, true, org_groups_enabled),
    {
        Cipher::find_by_user(user_uuid, true, org_groups_enabled, tables)
    }
}

/// Joining a further table leaves the links in place.
proof fn lemma_joined_keeps_link(
    t: &Tables,
    subject: &Subject,
    join: Join,
    outer: bool,
    rows: Seq<JoinRow>,
)
    requires
        join != Join::CipherLinks,
        all_have_link(rows),
    ensures
        all_have_link(joined(t, subject, join, outer, rows)),
{
    let all = joined(t, subject, join, outer, rows);
    assert forall|i: int| 0 <= i < all.len() implies (#[trigger] all[i]).link is Some by {
        assert(all.contains(all[i]));
        let from = lemma_joined_back(t, subject, join, outer, rows, all[i]);
        let k = choose|k: int| 0 <= k < rows.len() && rows[k] == from.0;
        assert(rows[k].link is Some);
    }
}

/// Every combined row behind the search for a cipher's collections has a link.
proof fn lemma_collection_rows_have_link(t: &Tables, subject: &Subject, groups: bool)
    ensures
        all_have_link(collection_rows(t, subject, groups)),
{
    let start = seq![JoinRow::empty_spec()];
    let links = joined(t, subject, Join::CipherLinks, false, start);
    assert forall|i: int| 0 <= i < links.len() implies (#[trigger] links[i]).link is Some by {
        assert(links.contains(links[i]));
        let from = lemma_joined_back(t, subject, Join::CipherLinks, false, start, links[i]);
    }
    let collections = joined(t, subject, Join::Collections, false, links);
    lemma_joined_keeps_link(t, subject, Join::Collections, false, links);
    let members = joined(t, subject, Join::CollectionMembers, groups, collections);
    lemma_joined_keeps_link(t, subject, Join::CollectionMembers, groups, collections);
    let user_collections = joined(t, subject, Join::UserCollections, true, members);
    lemma_joined_keeps_link(t, subject, Join::UserCollections, true, members);
    let group_users = joined(t, subject, Join::MemberGroups, true, user_collections);
    lemma_joined_keeps_link(t, subject, Join::MemberGroups, true, user_collections);
    let in_groups = joined(t, subject, Join::Groups, true, group_users);
    lemma_joined_keeps_link(t, subject, Join::Groups, true, group_users);
    lemma_joined_keeps_link(t, subject, Join::GroupCollections, true, in_groups);
}

/// The combined rows behind the search for all collections of a user: every link with its
/// collection, the user's membership in the collection's organization, the user's access to
/// the collection, and the member's groups and their access.
pub open spec fn user_link_rows(t: &Tables, subject: &Subject, link: usize) -> Seq<JoinRow> {
    let start = seq![JoinRow { link: Some(link), ..JoinRow::empty_spec() }];
    let collections = joined(t, subject, Join::Collections, false, start);
    let members = joined(t, subject, Join::CollectionMembers, false, collections);
    let user_collections = joined(t, subject, Join::UserCollections, true, members);
    let group_users = joined(t, subject, Join::MemberGroups, true, user_collections);
    let in_groups = joined(t, subject, Join::Groups, true, group_users);
    joined(t, subject, Join::GroupCollections, true, in_groups)
}

/// Whether a combined row shows the link to the user.
pub open spec fn row_shows(t: &Tables, user: Seq<char>, row: JoinRow) -> bool {
    ||| user_has_collection(t, user, row)
    ||| member_sees_all(t, row)
    ||| member_is_admin(t, row)
    ||| group_sees_all(t, row)
    ||| group_has_collection(row)
}

/// What a query on all ciphers of one user is about.
pub open spec fn user_subject(user: UserId) -> Subject {
    Subject { user, cipher: None, organization: None }
}

/// Whether the link at a position is shown to the user.
pub open spec fn shows_link(t: &Tables, user: UserId, link: usize) -> bool {
    user_link_rows(t, &user_subject(user), link).any(|row: JoinRow| row_shows(t, user@, row))
}

/// The cipher and the collection that the link at a position connects.
pub open spec fn link_at(t: &Tables, link: usize) -> (CipherId, CollectionId) {
    (
        t.ciphers_collections@[link as int].cipher_uuid,
        t.ciphers_collections@[link as int].collection_uuid,
    )
}

/// Whether two links connect the same cipher with the same collection.
pub open spec fn same_link(one: CollectionCipher, other: CollectionCipher) -> bool {
    one.cipher_uuid@ == other.cipher_uuid@ && one.collection_uuid@ == other.collection_uuid@
}

/// Whether no link before the one at a position connects the same.
pub open spec fn is_first_link(links: Seq<CollectionCipher>, i: int) -> bool {
    forall|j: int| 0 <= j < i ==> !same_link(#[trigger] links[j], links[i])
}

/// The distinct pairs of a cipher and a collection that are shown to the user.
pub open spec fn shown_pairs(t: &Tables, user: UserId) -> Seq<(CipherId, CollectionId)> {
    positions(t.ciphers_collections@.len()).filter(
        |link: usize|
            shows_link(t, user, link) && is_first_link(t.ciphers_collections@, link as int),
    ).map_values(|link: usize| link_at(t, link))
}

/// Whether no link before the one at a position connects the same.
fn is_new_link(links: &Vec<CollectionCipher>, at: usize) -> (first: bool)
    requires
        at < links@.len(),
    ensures
        first == is_first_link(links@, at as int),
{
    let mut j: usize = 0;
    while j < at
        invariant
            j <= at < links@.len(),
            forall|k: int| 0 <= k < j ==> !same_link(#[trigger] links@[k], links@[at as int]),
        decreases at - j,
    {
        if links[j].cipher_uuid == links[at].cipher_uuid && links[j].collection_uuid
            == links[at].collection_uuid {
            return false;
        }
        j = j + 1;
    }
    true
}

/// The collections in which the user may change the cipher.
fn assignable_collections(
    t: &Tables,
    user_uuid: &UserId,
    groups: bool,
    admin: bool,
    cipher: &Cipher,
) -> (collections: Vec<CollectionId>)
    ensures
        collections@ == assignable(t, *user_uuid, groups, admin, *cipher),
{
    let subject = make_subject(user_uuid, cipher);
    let rows = rows_for_collections(t, &subject, groups);
    let ghost pred = |row: JoinRow| row_assigns(t, user_uuid@, groups, admin, row);
    let ghost pick = |row: JoinRow| row_collection(t, row);
    proof {
        lemma_collection_rows_have_link(t, &subject, groups);
        assert(rows@.take(0) =~= Seq::empty());
        reveal(Seq::filter);
    }
    let mut collections: Vec<CollectionId> = Vec::new();
    let mut i: usize = 0;
    assert(collections@ =~= rows@.take(0).filter(pred).map_values(pick));
    while i < rows.len()
        invariant
            i <= rows@.len(),
            all_fit(t, rows@),
            all_have_link(rows@),
            pred == (|row: JoinRow| row_assigns(t, user_uuid@, groups, admin, row)),
            pick == (|row: JoinRow| row_collection(t, row)),
            collections@ == rows@.take(i as int).filter(pred).map_values(pick),
        decreases rows@.len() - i,
    {
        let row = rows[i];
        assert(rows@[i as int].link is Some);
        if sees_all(t, row) || edits_collection(t, user_uuid, row) || (groups && group_all(t, row))
            || (groups && group_edits(t, row)) || (admin && is_admin(t, row)) {
            match row.link {
                Some(l) => {
                    collections.push(t.ciphers_collections[l].collection_uuid.clone());
                },
                None => {},
            }
        }
        proof {
            rows@.take(i as int).lemma_filter_push(row, pred);
            assert(rows@.take(i + 1) =~= rows@.take(i as int).push(row));
            assert(collections@ =~= rows@.take(i + 1).filter(pred).map_values(pick));
        }
        i = i + 1;
    }
    assert(rows@.take(rows@.len() as int) =~= rows@);
    collections
}

/// Whether the link at a position is shown to the user.
fn is_link_shown(t: &Tables, user_uuid: &UserId, link: usize) -> (shown: bool)
    requires
        link < t.ciphers_collections@.len(),
    ensures
        shown == shows_link(t, *user_uuid, link),
{
    let subject = Subject { user: user_uuid.clone(), cipher: None, organization: None };
    let mut start: Vec<JoinRow> = Vec::new();
    start.push(JoinRow { link: Some(link), ..JoinRow::empty() });
    assert(start@ =~= seq![JoinRow { link: Some(link), ..JoinRow::empty_spec() }]);
    let rows = join_table(t, &subject, Join::Collections, false, &start);
    let rows = join_table(t, &subject, Join::CollectionMembers, false, &rows);
    let rows = join_table(t, &subject, Join::UserCollections, true, &rows);
    let rows = join_table(t, &subject, Join::MemberGroups, true, &rows);
    let rows = join_table(t, &subject, Join::Groups, true, &rows);
    let rows = join_table(t, &subject, Join::GroupCollections, true, &rows);
    let ghost pred = |row: JoinRow| row_shows(t, user_uuid@, row);
    let mut i: usize = 0;
    while i < rows.len()
        invariant
            i <= rows@.len(),
            all_fit(t, rows@),
            rows@ == user_link_rows(t, &user_subject(*user_uuid), link),
            pred == (|row: JoinRow| row_shows(t, user_uuid@, row)),
            forall|j: int| 0 <= j < i ==> !pred(#[trigger] rows@[j]),
        decreases rows@.len() - i,
    {
        let row = rows[i];
        if has_collection(t, user_uuid, row) || sees_all(t, row) || is_admin(t, row) || group_all(
            t,
            row,
        ) || row.collection_group.is_some() {
            assert(pred(rows@[i as int]));
            return true;
        }
        i = i + 1;
    }
    false
}

/// The combined rows behind the search for a user's own access to a cipher: the stored cipher
/// with its links and the user's access to the linked collections.
pub open spec fn user_flag_rows(t: &Tables, subject: &Subject, cipher: Cipher) -> Seq<JoinRow> {
    let start = stored_copies(t, cipher).map_values(|cipher: Cipher| JoinRow::empty_spec());
    let links = joined(t, subject, Join::CipherLinks, false, start);
    joined(t, subject, Join::UserCollections, false, links)
}

/// The combined rows behind the search for a user's access to a cipher through groups: the
/// stored cipher with its links, the groups with access to the linked collections, and the
/// members in them.
pub open spec fn group_flag_rows(t: &Tables, subject: &Subject, cipher: Cipher) -> Seq<JoinRow> {
    let start = stored_copies(t, cipher).map_values(|cipher: Cipher| JoinRow::empty_spec());
    let links = joined(t, subject, Join::CipherLinks, false, start);
    let groups = joined(t, subject, Join::LinkedGroups, false, links);
    let group_users = joined(t, subject, Join::CollectionGroupUsers, false, groups);
    joined(t, subject, Join::GroupMembers, false, group_users)
}

/// The stored ciphers with the identifier of `cipher`.
pub open spec fn stored_copies(t: &Tables, cipher: Cipher) -> Seq<Cipher> {
    t.ciphers@.filter(|stored: Cipher| stored.uuid@ == cipher.uuid@)
}

/// The restrictions of a user's access to a collection: read-only, hidden passwords, and
/// whether the user manages it.
pub open spec fn user_flags(t: &Tables, row: JoinRow) -> (bool, bool, bool) {
    let access = t.users_collections@[row.user_collection->0 as int];
    (access.read_only, access.hide_passwords, access.manage)
}

/// The restrictions of a group's access to a collection.
pub open spec fn group_flags(t: &Tables, row: JoinRow) -> (bool, bool, bool) {
    let access = t.collections_groups@[row.collection_group->0 as int];
    (access.read_only, access.hide_passwords, access.manage)
}

/// Whether the row's membership is the user's.
pub open spec fn member_is_user(t: &Tables, user: Seq<char>, row: JoinRow) -> bool {
    row.member matches Some(m) && t.users_organizations@[m as int].user_uuid@ == user
}

/// The restrictions of the user's own access to the cipher, one for every collection.
pub open spec fn user_access_flags(
    t: &Tables,
    user: UserId,
    cipher: Cipher,
) -> Seq<(bool, bool, bool)> {
    user_flag_rows(t, &subject_of(user, cipher), cipher).map_values(
        |row: JoinRow| user_flags(t, row),
    )
}

/// The restrictions of the user's access to the cipher through groups.
pub open spec fn group_access_flags(
    t: &Tables,
    user: UserId,
    groups: bool,
    cipher: Cipher,
) -> Seq<(bool, bool, bool)> {
    if groups {
        group_flag_rows(t, &subject_of(user, cipher), cipher).filter(
            |row: JoinRow| member_is_user(t, user@, row),
        ).map_values(|row: JoinRow| group_flags(t, row))
    } else {
        Seq::empty()
    }
}

/// One empty combined row for every stored copy of the cipher.
fn stored_rows(t: &Tables, cipher: &Cipher) -> (rows: Vec<JoinRow>)
    ensures
        rows@ == stored_copies(t, *cipher).map_values(
            |cipher: Cipher| JoinRow::empty_spec(),
        ),
        all_fit(t, rows@),
{
    let ghost pred = |stored: Cipher| stored.uuid@ == cipher.uuid@;
    let ghost blank = |cipher: Cipher| JoinRow::empty_spec();
    let mut rows: Vec<JoinRow> = Vec::new();
    let mut i: usize = 0;
    proof {
        assert(t.ciphers@.take(0) =~= Seq::empty());
        reveal(Seq::filter);
        assert(rows@ =~= t.ciphers@.take(0).filter(pred).map_values(blank));
    }
    while i < t.ciphers.len()
        invariant
            i <= t.ciphers@.len(),
            pred == (|stored: Cipher| stored.uuid@ == cipher.uuid@),
            blank == (|cipher: Cipher| JoinRow::empty_spec()),
            rows@ == t.ciphers@.take(i as int).filter(pred).map_values(blank),
            all_fit(t, rows@),
        decreases t.ciphers@.len() - i,
    {
        if t.ciphers[i].uuid == cipher.uuid {
            rows.push(JoinRow::empty());
        }
        proof {
            let stored = t.ciphers@[i as int];
            t.ciphers@.take(i as int).lemma_filter_push(stored, pred);
            assert(t.ciphers@.take(i + 1) =~= t.ciphers@.take(i as int).push(stored));
            assert(rows@ =~= t.ciphers@.take(i + 1).filter(pred).map_values(blank));
        }
        i = i + 1;
    }
    assert(t.ciphers@.take(t.ciphers@.len() as int) =~= t.ciphers@);
    rows
}

impl Cipher {
    /// The collections of this cipher in which the user may change it.
    pub fn get_collections(
        &self,
        user_uuid: UserId,
        org_groups_enabled: bool,
        tables: &Tables,
    ) -> (collections: Vec<CollectionId>)
        ensures
            collections@ == assignable(tables, user_uuid, org_groups_enabled, false, *self),
    {
        assignable_collections(tables, &user_uuid, org_groups_enabled, false, self)
    }

    /// The collections of this cipher in which the user may change it, be it only as an
    /// administrator or owner of the organization.
    pub fn get_admin_collections(
        &self,
        user_uuid: UserId,
        org_groups_enabled: bool,
        tables: &Tables,
    ) -> (collections: Vec<CollectionId>)
        ensures
            collections@ == assignable(tables, user_uuid, org_groups_enabled, true, *self),
    {
        assignable_collections(tables, &user_uuid, org_groups_enabled, true, self)
    }

    /// Return a Vec with (cipher_uuid, collection_uuid), every pair once.
    /// This is used during a full sync so we only need one query for all collections accessible.
    pub fn get_collections_with_cipher_by_user(
        user_uuid: UserId,
        tables: &Tables,
    ) -> (links: Vec<(CipherId, CollectionId)>)
        ensures
            links@ == shown_pairs(tables, user_uuid),
    {
        let ghost all = positions(tables.ciphers_collections@.len());
        let ghost pred = |link: usize|
            shows_link(tables, user_uuid, link) && is_first_link(
                tables.ciphers_collections@,
                link as int,
            );
        let ghost pick = |link: usize| link_at(tables, link);
        let mut links: Vec<(CipherId, CollectionId)> = Vec::new();
        let mut i: usize = 0;
        proof {
            assert(all.take(0) =~= Seq::empty());
            reveal(Seq::filter);
            assert(links@ =~= all.take(0).filter(pred).map_values(pick));
        }
        while i < tables.ciphers_collections.len()
            invariant
                i <= tables.ciphers_collections@.len(),
                all == positions(tables.ciphers_collections@.len()),
                pred == (|link: usize|
                    shows_link(tables, user_uuid, link) && is_first_link(
                        tables.ciphers_collections@,
                        link as int,
                    )),
                pick == (|link: usize| link_at(tables, link)),
                links@ == all.take(i as int).filter(pred).map_values(pick),
            decreases tables.ciphers_collections@.len() - i,
        {
            if is_link_shown(tables, &user_uuid, i) && is_new_link(
                &tables.ciphers_collections,
                i,
            ) {
                let link = &tables.ciphers_collections[i];
                links.push((link.cipher_uuid.clone(), link.collection_uuid.clone()));
            }
            proof {
                all.take(i as int).lemma_filter_push(i, pred);
                assert(all.take(i + 1) =~= all.take(i as int).push(i));
                assert(links@ =~= all.take(i + 1).filter(pred).map_values(pick));
            }
            i = i + 1;
        }
        assert(all.take(all.len() as int) =~= all);
        links
    }

    /// The restrictions of the user's own access to this cipher, one for every collection that
    /// the cipher is in and the user has access to.
    pub fn get_user_collections_access_flags(
        &self,
        user_uuid: &UserId,
        tables: &Tables,
    ) -> (flags: Vec<(bool, bool, bool)>)
        ensures
            flags@ == user_access_flags(tables, *user_uuid, *self),
    {
        let subject = make_subject(user_uuid, self);
        let start = stored_rows(tables, self);
        let links = join_table(tables, &subject, Join::CipherLinks, false, &start);
        let rows = join_table(tables, &subject, Join::UserCollections, false, &links);
        let ghost pick = |row: JoinRow| user_flags(tables, row);
        let mut flags: Vec<(bool, bool, bool)> = Vec::new();
        let mut i: usize = 0;
        while i < rows.len()
            invariant
                i <= rows@.len(),
                flags@.len() == i,
                all_fit(tables, rows@),
                rows@ == joined(tables, &subject, Join::UserCollections, false, links@),
                forall|j: int| 0 <= j < i ==> #[trigger] flags@[j] == user_flags(tables, rows@[j]),
            decreases rows@.len() - i,
        {
            proof {
                assert(rows@.contains(rows@[i as int]));
                let from = lemma_joined_back(
                    tables,
                    &subject,
                    Join::UserCollections,
                    false,
                    links@,
                    rows@[i as int],
                );
            }
            match rows[i].user_collection {
                Some(u) => {
                    let access = &tables.users_collections[u];
                    flags.push((access.read_only, access.hide_passwords, access.manage));
                },
                None => {
                    assert(false);
                },
            }
            i = i + 1;
        }
        assert(flags@ =~= rows@.map_values(pick));
        flags
    }
}

/// Every combined row behind the search for access through groups has a group's access.
proof fn lemma_group_flag_rows(t: &Tables, subject: &Subject, cipher: Cipher, row: JoinRow)
    requires
        group_flag_rows(t, subject, cipher).contains(row),
    ensures
        row.collection_group is Some,
{
    let start = stored_copies(t, cipher).map_values(|cipher: Cipher| JoinRow::empty_spec());
    let links = joined(t, subject, Join::CipherLinks, false, start);
    let groups = joined(t, subject, Join::LinkedGroups, false, links);
    let group_users = joined(t, subject, Join::CollectionGroupUsers, false, groups);
    let with_user = lemma_joined_back(t, subject, Join::GroupMembers, false, group_users, row);
    let with_group = lemma_joined_back(
        t,
        subject,
        Join::CollectionGroupUsers,
        false,
        groups,
        with_user.0,
    );
    let with_link = lemma_joined_back(
        t,
        subject,
        Join::LinkedGroups,
        false,
        links,
        with_group.0,
    );
}

impl Cipher {
    /// The restrictions of the user's access to this cipher through groups, one for every
    /// collection, group and membership that give it.
    pub fn get_group_collections_access_flags(
        &self,
        user_uuid: &UserId,
        org_groups_enabled: bool,
        tables: &Tables,
    ) -> (flags: Vec<(bool, bool, bool)>)
        ensures
            flags@ == group_access_flags(tables, *user_uuid, org_groups_enabled, *self),
    {
        let mut flags: Vec<(bool, bool, bool)> = Vec::new();
        if !org_groups_enabled {
            return flags;
        }
        let subject = make_subject(user_uuid, self);
        let start = stored_rows(tables, self);
        let rows = join_table(tables, &subject, Join::CipherLinks, false, &start);
        let rows = join_table(tables, &subject, Join::LinkedGroups, false, &rows);
        let rows = join_table(tables, &subject, Join::CollectionGroupUsers, false, &rows);
        let rows = join_table(tables, &subject, Join::GroupMembers, false, &rows);
        let ghost pred = |row: JoinRow| member_is_user(tables, user_uuid@, row);
        let ghost pick = |row: JoinRow| group_flags(tables, row);
        let mut i: usize = 0;
        proof {
            assert(rows@.take(0) =~= Seq::empty());
            reveal(Seq::filter);
            assert(flags@ =~= rows@.take(0).filter(pred).map_values(pick));
        }
        while i < rows.len()
            invariant
                i <= rows@.len(),
                all_fit(tables, rows@),
                rows@ == group_flag_rows(tables, &subject, *self),
                pred == (|row: JoinRow| member_is_user(tables, user_uuid@, row)),
                pick == (|row: JoinRow| group_flags(tables, row)),
                flags@ == rows@.take(i as int).filter(pred).map_values(pick),
            decreases rows@.len() - i,
        {
            let row = rows[i];
            proof {
                assert(rows@.contains(rows@[i as int]));
                lemma_group_flag_rows(tables, &subject, *self, rows@[i as int]);
            }
            let is_user = match row.member {
                Some(m) => tables.users_organizations[m].user_uuid == *user_uuid,
                None => false,
            };
            if is_user {
                match row.collection_group {
                    Some(c) => {
                        let access = &tables.collections_groups[c];
                        flags.push((access.read_only, access.hide_passwords, access.manage));
                    },
                    None => {
                        assert(false);
                    },
                }
            }
            proof {
                rows@.take(i as int).lemma_filter_push(row, pred);
                assert(rows@.take(i + 1) =~= rows@.take(i as int).push(row));
                assert(flags@ =~= rows@.take(i + 1).filter(pred).map_values(pick));
            }
            i = i + 1;
        }
        assert(rows@.take(rows@.len() as int) =~= rows@);
        flags
    }
}

} // verus!
