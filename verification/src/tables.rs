//! The records of the vault's store: plain rows, table by table.

use crate::cipher::Cipher;
use crate::ids::{
    AttachmentId, CipherId, CollectionId, FolderId, GroupId, MembershipId, OrganizationId, UserId,
};
use vstd::prelude::*;

verus! {

/// The status of a membership that the organization has confirmed.
pub const STATUS_CONFIRMED: i32 = 2;

/// The type of an organization's administrators; owners have a smaller one, all others a
/// larger one.
pub const TYPE_ADMIN: i32 = 1;

/// That a cipher is in a collection.
#[derive(Debug)]
pub struct CollectionCipher {
    pub cipher_uuid: CipherId,
    pub collection_uuid: CollectionId,
}

/// That a user belongs to an organization.
#[derive(Debug)]
pub struct Membership {
    pub uuid: MembershipId,
    pub user_uuid: UserId,
    pub org_uuid: OrganizationId,
    pub access_all: bool,
    pub status: i32,
    pub atype: i32,
}

/// That a user has access to a collection.
#[derive(Debug)]
pub struct CollectionUser {
    pub user_uuid: UserId,
    pub collection_uuid: CollectionId,
    pub read_only: bool,
    pub hide_passwords: bool,
    pub manage: bool,
}

/// That a member is in a group.
#[derive(Debug)]
pub struct GroupUser {
    pub groups_uuid: GroupId,
    pub users_organizations_uuid: MembershipId,
}

/// A group of members.
#[derive(Debug)]
pub struct Group {
    pub uuid: GroupId,
    pub access_all: bool,
}

/// That a group has access to a collection.
#[derive(Debug)]
pub struct CollectionGroup {
    pub collections_uuid: CollectionId,
    pub groups_uuid: GroupId,
    pub read_only: bool,
    pub hide_passwords: bool,
    pub manage: bool,
}

/// A collection of an organization.
#[derive(Debug)]
pub struct Collection {
    pub uuid: CollectionId,
    pub org_uuid: OrganizationId,
}

/// A folder of a user.
#[derive(Debug)]
pub struct Folder {
    pub uuid: FolderId,
    pub user_uuid: UserId,
}

/// That a cipher is in a folder.
#[derive(Debug)]
pub struct FolderCipher {
    pub cipher_uuid: CipherId,
    pub folder_uuid: FolderId,
}

/// That a cipher is a favorite of a user.
#[derive(Debug)]
pub struct Favorite {
    pub user_uuid: UserId,
    pub cipher_uuid: CipherId,
}

/// An attachment of a cipher.
#[derive(Debug)]
pub struct Attachment {
    pub id: AttachmentId,
    pub cipher_uuid: CipherId,
}

/// The tables that queries on ciphers read.
#[derive(Debug)]
pub struct Tables {
    pub ciphers: Vec<Cipher>,
    pub ciphers_collections: Vec<CollectionCipher>,
    pub users_organizations: Vec<Membership>,
    pub users_collections: Vec<CollectionUser>,
    pub groups_users: Vec<GroupUser>,
    pub groups: Vec<Group>,
    pub collections_groups: Vec<CollectionGroup>,
    pub collections: Vec<Collection>,
    pub folders: Vec<Folder>,
    pub folders_ciphers: Vec<FolderCipher>,
    pub favorites: Vec<Favorite>,
    pub attachments: Vec<Attachment>,
}

} // verus!
