//! The cipher: one entry of a vault.

use crate::dates::{now, Timestamp};
use crate::ids::{fresh_uuid, is_random_uuid, CipherId, OrganizationId, UserId};
use crate::text::text_view;
use vstd::prelude::*;

verus! {

/// An entry of a vault. It belongs to a user or to an organization, and is a login, a secure
/// note, a card, an identity or an SSH key (types 1 to 5).
#[derive(Debug)]
pub struct Cipher {
    pub uuid: CipherId,
    pub created_at: Timestamp,
    pub updated_at: Timestamp,
    pub user_uuid: Option<UserId>,
    pub organization_uuid: Option<OrganizationId>,
    pub key: Option<String>,
    pub atype: i32,
    pub name: String,
    pub notes: Option<String>,
    pub fields: Option<String>,
    pub data: String,
    pub password_history: Option<String>,
    pub deleted_at: Option<Timestamp>,
    pub reprompt: Option<i32>,
}

/// Whether a client asks for the master password before it shows a cipher.
#[derive(Clone, Copy, Debug, PartialEq, Eq, Structural)]
pub enum RepromptType {
    NoReprompt,
    Password,
}

impl RepromptType {
    /// The number that stands for the choice in a cipher and in JSON.
    pub open spec fn spec_code(self) -> i32 {
        match self {
            RepromptType::NoReprompt => 0,
            RepromptType::Password => 1,
        }
    }

    /// The number that stands for the choice in a cipher and in JSON.
    pub fn code(self) -> (code: i32)
        ensures
            code == self.spec_code(),
    {
        match self {
            RepromptType::NoReprompt => 0,
            RepromptType::Password => 1,
        }
    }
}

/// An equal text, where there is one.
pub(crate) fn copy_text(text: &Option<String>) -> (copy: Option<String>)
    ensures
        copy == *text,
{
    match text {
        Some(text) => Some(text.clone()),
        None => None,
    }
}

/// The identifier of an optional user.
pub open spec fn user_text(user: Option<UserId>) -> Option<Seq<char>> {
    match user {
        Some(user) => Some(user@),
        None => None,
    }
}

/// The identifier of an optional organization.
pub open spec fn organization_text(organization: Option<OrganizationId>) -> Option<Seq<char>> {
    match organization {
        Some(organization) => Some(organization@),
        None => None,
    }
}

/// Whether two optional texts are equal.
fn same_text(one: &Option<String>, other: &Option<String>) -> (same: bool)
    ensures
        same == (text_view(*one) == text_view(*other)),
{
    match (one, other) {
        (Some(one), Some(other)) => *one == *other,
        (None, None) => true,
        _ => false,
    }
}

/// Whether two optional points in time are equal.
fn same_time(one: Option<Timestamp>, other: Option<Timestamp>) -> (same: bool)
    ensures
        same == (one == other),
{
    match (one, other) {
        (Some(one), Some(other)) => one == other,
        (None, None) => true,
        _ => false,
    }
}

/// Whether two optional numbers are equal.
fn same_number(one: Option<i32>, other: Option<i32>) -> (same: bool)
    ensures
        same == (one == other),
{
    match (one, other) {
        (Some(one), Some(other)) => one == other,
        (None, None) => true,
        _ => false,
    }
}

impl Cipher {
    /// Whether all columns of two ciphers are equal.
    pub open spec fn same_as(&self, other: &Cipher) -> bool {
        &&& self.uuid@ == other.uuid@
        &&& self.created_at == other.created_at
        &&& self.updated_at == other.updated_at
        &&& user_text(self.user_uuid) == user_text(other.user_uuid)
        &&& organization_text(self.organization_uuid) == organization_text(
            other.organization_uuid,
        )
        &&& text_view(self.key) == text_view(other.key)
        &&& self.atype == other.atype
        &&& self.name@ == other.name@
        &&& text_view(self.notes) == text_view(other.notes)
        &&& text_view(self.fields) == text_view(other.fields)
        &&& self.data@ == other.data@
        &&& text_view(self.password_history) == text_view(other.password_history)
        &&& self.deleted_at == other.deleted_at
        &&& self.reprompt == other.reprompt
    }

    /// Whether all columns of two ciphers are equal.
    pub(crate) fn is_same_as(&self, other: &Cipher) -> (same: bool)
        ensures
            same == self.same_as(other),
    {
        let same_user = match (&self.user_uuid, &other.user_uuid) {
            (Some(one), Some(two)) => *one == *two,
            (None, None) => true,
            _ => false,
        };
        let same_organization = match (&self.organization_uuid, &other.organization_uuid) {
            (Some(one), Some(two)) => *one == *two,
            (None, None) => true,
            _ => false,
        };
        self.uuid == other.uuid && self.created_at == other.created_at && self.updated_at
            == other.updated_at && same_user && same_organization && same_text(
            &self.key,
            &other.key,
        ) && self.atype == other.atype && self.name == other.name && same_text(
            &self.notes,
            &other.notes,
        ) && same_text(&self.fields, &other.fields) && self.data == other.data && same_text(
            &self.password_history,
            &other.password_history,
        ) && same_time(self.deleted_at, other.deleted_at) && same_number(
            self.reprompt,
            other.reprompt,
        )
    }
}

impl Clone for Cipher {
    fn clone(&self) -> (cipher: Self)
        ensures
            cipher == *self,
    {
        let user_uuid = match &self.user_uuid {
            Some(user) => Some(user.clone()),
            None => None,
        };
        let organization_uuid = match &self.organization_uuid {
            Some(organization) => Some(organization.clone()),
            None => None,
        };
        Cipher {
            uuid: self.uuid.clone(),
            created_at: self.created_at,
            updated_at: self.updated_at,
            user_uuid,
            organization_uuid,
            key: copy_text(&self.key),
            atype: self.atype,
            name: self.name.clone(),
            notes: copy_text(&self.notes),
            fields: copy_text(&self.fields),
            data: self.data.clone(),
            password_history: copy_text(&self.password_history),
            deleted_at: self.deleted_at,
            reprompt: self.reprompt,
        }
    }
}

impl Cipher {
    /// Whether this is a new cipher of the given kind and name: created and last changed at
    /// `time`, with no owner and nothing in it.
    pub open spec fn is_blank(
        &self,
        uuid: Seq<char>,
        time: Timestamp,
        atype: i32,
        name: Seq<char>,
    ) -> bool {
        &&& self.uuid@ == uuid
        &&& self.created_at == time
        &&& self.updated_at == time
        &&& self.user_uuid is None
        &&& self.organization_uuid is None
        &&& self.key is None
        &&& self.atype == atype
        &&& self.name@ == name
        &&& self.notes is None
        &&& self.fields is None
        &&& self.data@.len() == 0
        &&& self.password_history is None
        &&& self.deleted_at is None
        &&& self.reprompt is None
    }

    /// A new cipher with the given identifier, created at the given time.
    pub fn new_at(uuid: CipherId, time: Timestamp, atype: i32, name: String) -> (cipher: Self)
        ensures
            cipher.is_blank(uuid@, time, atype, name@),
    {
        Cipher {
            uuid,
            created_at: time,
            updated_at: time,
            user_uuid: None,
            organization_uuid: None,
            key: None,
            atype,
            name,
            notes: None,
            fields: None,
            data: String::new(),
            password_history: None,
            deleted_at: None,
            reprompt: None,
        }
    }

    /// A new cipher with a random identifier, created now.
    pub fn new(atype: i32, name: String) -> (cipher: Self)
        ensures
            is_random_uuid(cipher.uuid@),
            cipher.created_at.is_reading(),
            cipher.is_blank(cipher.uuid@, cipher.created_at, atype, name@),
    {
        let time = now();
        Cipher::new_at(CipherId(fresh_uuid()), time, atype, name)
    }

    /// Whether the user owns the cipher directly.
    pub open spec fn owned_by(&self, user: Seq<char>) -> bool {
        self.user_uuid matches Some(owner) && owner@ == user
    }

    /// Whether the cipher belongs to the organization.
    pub open spec fn in_org(&self, org: Seq<char>) -> bool {
        self.organization_uuid matches Some(owner) && owner@ == org
    }

    /// Returns whether this cipher is directly owned by the user.
    pub fn is_owned_by_user(&self, user_uuid: &UserId) -> (owned: bool)
        ensures
            owned == self.owned_by(user_uuid@),
    {
        match &self.user_uuid {
            Some(owner) => *owner == *user_uuid,
            None => false,
        }
    }

    /// Returns whether this cipher belongs to the organization.
    pub(crate) fn is_in_org(&self, org_uuid: &OrganizationId) -> (belongs: bool)
        ensures
            belongs == self.in_org(org_uuid@),
    {
        match &self.organization_uuid {
            Some(owner) => *owner == *org_uuid,
            None => false,
        }
    }

    /// Whether every point in time of the cipher is one of the calendar.
    pub open spec fn has_valid_dates(&self) -> bool {
        &&& self.created_at.valid()
        &&& self.updated_at.valid()
        &&& self.deleted_at matches Some(deleted) ==> deleted.valid()
    }
}

} // verus!
