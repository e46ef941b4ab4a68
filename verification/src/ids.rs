//! Identifiers of the vault's records.

use vstd::prelude::*;

verus! {

/// The text form of a random (version 4) UUID: five groups of lower-case hexadecimal digits,
/// joined by hyphens, with the version digit in front of the third group and the variant in
/// front of the fourth.
pub open spec fn is_random_uuid(chars: Seq<char>) -> bool {
    &&& chars.len() == 36
    &&& forall|i: int|
        0 <= i < 36 ==> if i == 8 || i == 13 || i == 18 || i == 23 {
            #[trigger] chars[i] == '-'
        } else {
            '0' <= chars[i] <= '9' || 'a' <= chars[i] <= 'f'
        }
    &&& chars[14] == '4'
    &&& '8' <= chars[19] <= '9' || 'a' <= chars[19] <= 'b'
}

/// Makes a fresh identifier with `uuid::Uuid::new_v4`, in the text form of its `Display`.
/// Claimed of every outcome: the form, not the value, which is random.
#[verifier::external_body]
pub(crate) fn fresh_uuid() -> (text: String)
    ensures
        is_random_uuid(text@),
{
    uuid::Uuid::new_v4().to_string()
}

/// The identifier of a cipher.
#[derive(Debug, Eq, Hash)]
pub struct CipherId(pub String);

impl CipherId {
    /// The characters of the identifier.
    pub open spec fn view(&self) -> Seq<char> {
        self.0@
    }
}

impl Clone for CipherId {
    fn clone(&self) -> (id: Self)
        ensures
            id == *self,
    {
        CipherId(self.0.clone())
    }
}

impl PartialEq for CipherId {
    fn eq(&self, other: &Self) -> (same: bool) {
        self.0 == other.0
    }
}

impl vstd::std_specs::cmp::PartialEqSpecImpl for CipherId {
    open spec fn obeys_eq_spec() -> bool {
        true
    }

    open spec fn eq_spec(&self, other: &Self) -> bool {
        self@ == other@
    }
}

impl From<String> for CipherId {
    fn from(text: String) -> (id: Self) {
        CipherId(text)
    }
}

impl vstd::std_specs::convert::FromSpecImpl<String> for CipherId {
    open spec fn obeys_from_spec() -> bool {
        true
    }

    open spec fn from_spec(text: String) -> Self {
        CipherId(text)
    }
}

/// The identifier of a user.
#[derive(Debug, Eq, Hash)]
pub struct UserId(pub String);

impl UserId {
    /// The characters of the identifier.
    pub open spec fn view(&self) -> Seq<char> {
        self.0@
    }
}

impl Clone for UserId {
    fn clone(&self) -> (id: Self)
        ensures
            id == *self,
    {
        UserId(self.0.clone())
    }
}

impl PartialEq for UserId {
    fn eq(&self, other: &Self) -> (same: bool) {
        self.0 == other.0
    }
}

impl vstd::std_specs::cmp::PartialEqSpecImpl for UserId {
    open spec fn obeys_eq_spec() -> bool {
        true
    }

    open spec fn eq_spec(&self, other: &Self) -> bool {
        self@ == other@
    }
}

impl From<String> for UserId {
    fn from(text: String) -> (id: Self) {
        UserId(text)
    }
}

impl vstd::std_specs::convert::FromSpecImpl<String> for UserId {
    open spec fn obeys_from_spec() -> bool {
        true
    }

    open spec fn from_spec(text: String) -> Self {
        UserId(text)
    }
}

/// The identifier of an organization.
#[derive(Debug, Eq, Hash)]
pub struct OrganizationId(pub String);

impl OrganizationId {
    /// The characters of the identifier.
    pub open spec fn view(&self) -> Seq<char> {
        self.0@
    }
}

impl Clone for OrganizationId {
    fn clone(&self) -> (id: Self)
        ensures
            id == *self,
    {
        OrganizationId(self.0.clone())
    }
}

impl PartialEq for OrganizationId {
    fn eq(&self, other: &Self) -> (same: bool) {
        self.0 == other.0
    }
}

impl vstd::std_specs::cmp::PartialEqSpecImpl for OrganizationId {
    open spec fn obeys_eq_spec() -> bool {
        true
    }

    open spec fn eq_spec(&self, other: &Self) -> bool {
        self@ == other@
    }
}

impl From<String> for OrganizationId {
    fn from(text: String) -> (id: Self) {
        OrganizationId(text)
    }
}

impl vstd::std_specs::convert::FromSpecImpl<String> for OrganizationId {
    open spec fn obeys_from_spec() -> bool {
        true
    }

    open spec fn from_spec(text: String) -> Self {
        OrganizationId(text)
    }
}

/// The identifier of a folder.
#[derive(Debug, Eq, Hash)]
pub struct FolderId(pub String);

impl FolderId {
    /// The characters of the identifier.
    pub open spec fn view(&self) -> Seq<char> {
        self.0@
    }
}

impl Clone for FolderId {
    fn clone(&self) -> (id: Self)
        ensures
            id == *self,
    {
        FolderId(self.0.clone())
    }
}

impl PartialEq for FolderId {
    fn eq(&self, other: &Self) -> (same: bool) {
        self.0 == other.0
    }
}

impl vstd::std_specs::cmp::PartialEqSpecImpl for FolderId {
    open spec fn obeys_eq_spec() -> bool {
        true
    }

    open spec fn eq_spec(&self, other: &Self) -> bool {
        self@ == other@
    }
}

impl From<String> for FolderId {
    fn from(text: String) -> (id: Self) {
        FolderId(text)
    }
}

impl vstd::std_specs::convert::FromSpecImpl<String> for FolderId {
    open spec fn obeys_from_spec() -> bool {
        true
    }

    open spec fn from_spec(text: String) -> Self {
        FolderId(text)
    }
}

/// The identifier of a collection.
#[derive(Debug, Eq, Hash)]
pub struct CollectionId(pub String);

impl CollectionId {
    /// The characters of the identifier.
    pub open spec fn view(&self) -> Seq<char> {
        self.0@
    }
}

impl Clone for CollectionId {
    fn clone(&self) -> (id: Self)
        ensures
            id == *self,
    {
        CollectionId(self.0.clone())
    }
}

impl PartialEq for CollectionId {
    fn eq(&self, other: &Self) -> (same: bool) {
        self.0 == other.0
    }
}

impl vstd::std_specs::cmp::PartialEqSpecImpl for CollectionId {
    open spec fn obeys_eq_spec() -> bool {
        true
    }

    open spec fn eq_spec(&self, other: &Self) -> bool {
        self@ == other@
    }
}

impl From<String> for CollectionId {
    fn from(text: String) -> (id: Self) {
        CollectionId(text)
    }
}

impl vstd::std_specs::convert::FromSpecImpl<String> for CollectionId {
    open spec fn obeys_from_spec() -> bool {
        true
    }

    open spec fn from_spec(text: String) -> Self {
        CollectionId(text)
    }
}

/// The identifier of a group.
#[derive(Debug, Eq, Hash)]
pub struct GroupId(pub String);

impl GroupId {
    /// The characters of the identifier.
    pub open spec fn view(&self) -> Seq<char> {
        self.0@
    }
}

impl Clone for GroupId {
    fn clone(&self) -> (id: Self)
        ensures
            id == *self,
    {
        GroupId(self.0.clone())
    }
}

impl PartialEq for GroupId {
    fn eq(&self, other: &Self) -> (same: bool) {
        self.0 == other.0
    }
}

impl vstd::std_specs::cmp::PartialEqSpecImpl for GroupId {
    open spec fn obeys_eq_spec() -> bool {
        true
    }

    open spec fn eq_spec(&self, other: &Self) -> bool {
        self@ == other@
    }
}

impl From<String> for GroupId {
    fn from(text: String) -> (id: Self) {
        GroupId(text)
    }
}

impl vstd::std_specs::convert::FromSpecImpl<String> for GroupId {
    open spec fn obeys_from_spec() -> bool {
        true
    }

    open spec fn from_spec(text: String) -> Self {
        GroupId(text)
    }
}

/// The identifier of a user's membership in an organization.
#[derive(Debug, Eq, Hash)]
pub struct MembershipId(pub String);

impl MembershipId {
    /// The characters of the identifier.
    pub open spec fn view(&self) -> Seq<char> {
        self.0@
    }
}

impl Clone for MembershipId {
    fn clone(&self) -> (id: Self)
        ensures
            id == *self,
    {
        MembershipId(self.0.clone())
    }
}

impl PartialEq for MembershipId {
    fn eq(&self, other: &Self) -> (same: bool) {
        self.0 == other.0
    }
}

impl vstd::std_specs::cmp::PartialEqSpecImpl for MembershipId {
    open spec fn obeys_eq_spec() -> bool {
        true
    }

    open spec fn eq_spec(&self, other: &Self) -> bool {
        self@ == other@
    }
}

impl From<String> for MembershipId {
    fn from(text: String) -> (id: Self) {
        MembershipId(text)
    }
}

impl vstd::std_specs::convert::FromSpecImpl<String> for MembershipId {
    open spec fn obeys_from_spec() -> bool {
        true
    }

    open spec fn from_spec(text: String) -> Self {
        MembershipId(text)
    }
}

/// The identifier of an attachment.
#[derive(Debug, Eq, Hash)]
pub struct AttachmentId(pub String);

impl AttachmentId {
    /// The characters of the identifier.
    pub open spec fn view(&self) -> Seq<char> {
        self.0@
    }
}

impl Clone for AttachmentId {
    fn clone(&self) -> (id: Self)
        ensures
            id == *self,
    {
        AttachmentId(self.0.clone())
    }
}

impl PartialEq for AttachmentId {
    fn eq(&self, other: &Self) -> (same: bool) {
        self.0 == other.0
    }
}

impl vstd::std_specs::cmp::PartialEqSpecImpl for AttachmentId {
    open spec fn obeys_eq_spec() -> bool {
        true
    }

    open spec fn eq_spec(&self, other: &Self) -> bool {
        self@ == other@
    }
}

impl From<String> for AttachmentId {
    fn from(text: String) -> (id: Self) {
        AttachmentId(text)
    }
}

impl vstd::std_specs::convert::FromSpecImpl<String> for AttachmentId {
    open spec fn obeys_from_spec() -> bool {
        true
    }

    open spec fn from_spec(text: String) -> Self {
        AttachmentId(text)
    }
}

} // verus!
