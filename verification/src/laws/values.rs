//! Laws on the values that ciphers are made of: JSON, texts, points in time, identifiers.

use crate::cipher::{Cipher, RepromptType};
use crate::dates::{
    days_before_spec, rfc3339_micros, rfc3339_parsed, rfc3339_reformatted, valid_date, LocalTime,
    Timestamp,
};
use crate::ids::{
    AttachmentId, CipherId, CollectionId, FolderId, GroupId, MembershipId, OrganizationId, UserId,
};
use crate::json::{items_view, lemma_members_last, members_view, Json, JsonView};
use crate::sync::{lemma_entries_last, lists_cipher, lists_org, TextMap};
use crate::text::{
    all_digits, byte_of_text, decimal, digits_value, is_digit, text_view, unsigned_digits,
};
use vstd::prelude::*;
use vstd::std_specs::cmp::PartialEqSpec;
use vstd::std_specs::convert::FromSpec;

verus! {

/// Setting a member of an object replaces that member, and leaves every other as it was, whether
/// it was there or not.
pub proof fn law_setting_a_member(
    members: Map<Seq<char>, JsonView>,
    key: Seq<char>,
    value: JsonView,
    other: Seq<char>,
)
    ensures
        match JsonView::Object(members).with(key, value) {
            JsonView::Object(changed) => {
                &&& changed.contains_key(key) && changed[key] == value
                &&& other != key ==> changed.contains_key(other) == members.contains_key(other)
                &&& other != key && members.contains_key(other) ==> changed[other]
                    == members[other]
            },
            _ => false,
        },
        match JsonView::Null.with(key, value) {
            JsonView::Object(changed) => {
                &&& changed.contains_key(key) && changed[key] == value
                &&& other != key ==> !changed.contains_key(other)
            },
            _ => false,
        },
{
}

/// A member is found exactly in an object that has it, and a text exactly in a text value.
pub proof fn law_reading_a_member(json: JsonView, key: Seq<char>, value: JsonView, text: Seq<char>)
    ensures
        json.get(key) == Some(value) <==> {
            &&& json matches JsonView::Object(members)
            &&& members.contains_key(key)
            &&& members[key] == value
        },
        json.at(key) == value <==> json.get(key) == Some(value) || (json.get(key) is None
            && value == JsonView::Null),
        json.text() == Some(text) <==> json == JsonView::Text(text),
{
}

/// What a JSON value of the library stands for: scalars for themselves, a list for its items one
/// by one.
pub proof fn law_view_of_values(text: String, b: bool, items: Vec<Json>, i: int)
    ensures
        Json::Null.view() == JsonView::Null,
        Json::Bool(b).view() == JsonView::Bool(b),
        Json::Text(text).view() == JsonView::Text(text@),
        Json::Number(text).view() == JsonView::Number(text@),
        Json::Array(items).view() matches JsonView::Array(views) && views.len() == items@.len()
            && (0 <= i < items@.len() ==> views[i] == items@[i].view()),
{
    if 0 <= i < items@.len() {
        assert(items_view(items@)[i] == items@[i].view());
    }
}

/// What an object of the library stands for: it has exactly the keys of its members, and of
/// several members with one key the last counts.
pub proof fn law_view_of_objects(members: Vec<(String, Json)>, i: int, key: Seq<char>)
    requires
        0 <= i < members@.len(),
        forall|j: int| i < j < members@.len() ==> #[trigger] members@[j].0@ != members@[i].0@,
    ensures
        match Json::Object(members).view() {
            JsonView::Object(map) => {
                &&& map.contains_key(members@[i].0@)
                &&& map[members@[i].0@] == members@[i].1.view()
                &&& (forall|j: int| 0 <= j < members@.len() ==> #[trigger] members@[j].0@ != key)
                    ==> !map.contains_key(key)
            },
            _ => false,
        },
{
    lemma_members_last(members@, members@[i].0@, i);
    if forall|j: int| 0 <= j < members@.len() ==> #[trigger] members@[j].0@ != key {
        lemma_members_last(members@, key, -1);
    }
    assert(Json::Object(members).view() == JsonView::Object(members_view(members@)));
}

/// An object of the library has a member under a key exactly where one of its members has it.
pub proof fn law_keys_of_objects(members: Vec<(String, Json)>, key: Seq<char>)
    ensures
        match Json::Object(members).view() {
            JsonView::Object(map) => map.contains_key(key) <==> exists|j: int|
                0 <= j < members@.len() && #[trigger] members@[j].0@ == key,
            _ => false,
        },
{
    let last = lemma_last_member(members@, key, members@.len());
    lemma_members_last(members@, key, last);
    assert(Json::Object(members).view() == JsonView::Object(members_view(members@)));
}

/// The last of the first `n` members that has the key; -1 where none has it.
proof fn lemma_last_member(members: Seq<(String, Json)>, key: Seq<char>, n: nat) -> (last: int)
    requires
        n <= members.len(),
    ensures
        -1 <= last < n,
        forall|j: int| last < j < n ==> #[trigger] members[j].0@ != key,
        last >= 0 ==> members[last].0@ == key,
    decreases n,
{
    if n == 0 {
        -1
    } else if members[n - 1].0@ == key {
        n - 1
    } else {
        lemma_last_member(members, key, (n - 1) as nat)
    }
}

/// A text or a number of a JSON value is made of the characters that are given.
pub proof fn law_made_values(chars: Seq<char>, n: nat, text: String)
    ensures
        JsonView::of_text(Some(chars)) == JsonView::Text(chars),
        JsonView::of_text(None) == JsonView::Null,
        JsonView::of_nat(n) == JsonView::Number(decimal(n)),
        text_view(Some(text)) == Some(text@),
        text_view(None) is None,
{
}

/// The decimal form of a number ends in its last digit, behind the decimal form of the rest.
pub proof fn law_decimal_digits(n: nat)
    ensures
        n < 10 ==> decimal(n).len() == 1,
        decimal(n).last() as int == '0' as int + n % 10,
        n >= 10 ==> decimal(n).drop_last() == decimal(n / 10),
{
    if n >= 10 {
        assert(decimal(n).drop_last() =~= decimal(n / 10));
    }
}

/// What a run of digits is worth: ten times what stands in front, and the last digit.
pub proof fn law_digits_value(digits: Seq<char>, last: char)
    requires
        '0' <= last <= '9',
    ensures
        digits_value(Seq::empty()) == 0,
        digits_value(digits.push(last)) == digits_value(digits) * 10 + (last as int - '0' as int),
{
    assert(digits.push(last).drop_last() =~= digits);
}

/// A byte is read from nothing but decimal digits, with or without a plus sign in front, that
/// are worth at most 255; and then it is what they are worth.
pub proof fn law_byte_is_read(digits: Seq<char>)
    requires
        digits.len() > 0,
    ensures
        byte_of_text(Seq::empty()) is None,
        byte_of_text(seq!['+']) is None,
        (forall|i: int| 0 <= i < digits.len() ==> '0' <= #[trigger] digits[i] <= '9') ==> {
            let read = if digits_value(digits) <= 255 {
                Some(digits_value(digits) as u8)
            } else {
                None
            };
            byte_of_text(digits) == read && byte_of_text(seq!['+'] + digits) == read
        },
        (exists|i: int|
            (if digits[0] == '+' && digits.len() > 1 { 1int } else { 0 }) <= i < digits.len()
                && !('0' <= #[trigger] digits[i] <= '9')) ==> byte_of_text(digits) is None,
{
    let signed = seq!['+'] + digits;
    assert(signed.skip(1) =~= digits);
    let lone = seq!['+'];
    assert(!is_digit(lone[0]));
    if forall|i: int| 0 <= i < digits.len() ==> '0' <= #[trigger] digits[i] <= '9' {
        assert(all_digits(digits)) by {
            assert forall|i: int| 0 <= i < digits.len() implies is_digit(
                #[trigger] digits[i],
            ) by {}
        }
        assert(digits[0] != '+');
    }
    let start = if digits[0] == '+' && digits.len() > 1 { 1int } else { 0 };
    if exists|i: int| start <= i < digits.len() && !('0' <= #[trigger] digits[i] <= '9') {
        let i = choose|i: int| start <= i < digits.len() && !('0' <= #[trigger] digits[i] <= '9');
        let rest = unsigned_digits(digits);
        assert(rest[i - start] == digits[i]);
        assert(!is_digit(rest[i - start]));
    }
}

/// A point in time is before another by its seconds, and within one second by its nanoseconds.
pub proof fn law_order_of_time(one: Timestamp, other: Timestamp)
    ensures
        one.secs < other.secs ==> one.before(other) && !other.before(one),
        one.secs == other.secs ==> one.before(other) == (one.nanos < other.nanos),
        !one.before(one),
{
}

/// The calendar reaches from the year 262144 BCE to the year 262142 CE, in seconds of whole
/// nanoseconds; only the last second of a minute can be a leap second, of twice as many.
pub proof fn law_calendar(time: Timestamp, offset: i32)
    ensures
        time.valid() <==> -8334601228800 <= time.secs <= 8210266876799 && (time.nanos
            < 1_000_000_000 || (time.secs % 60 == 59 && time.nanos < 2_000_000_000)),
        time.is_reading() <==> time.valid() && time.secs >= 0 && time.nanos < 1_000_000_000,
        (LocalTime { time, offset }).valid() <==> time.valid() && -86400 < offset < 86400
            && -8334601228800 <= time.secs + offset <= 8210266876799,
{
}

/// Going back by days goes back by 86400 seconds each, and fails only beyond the calendar.
pub proof fn law_days_before(time: Timestamp, days: i64, earlier: Timestamp)
    ensures
        days_before_spec(time, days) == Some(earlier) <==> {
            &&& earlier.secs == time.secs - days * 86400
            &&& earlier.nanos == time.nanos
            &&& -8334601228800 <= earlier.secs <= 8210266876799
        },
{
}

/// A date that a client sent is shown as the point in time that was read from it, in its offset;
/// the start of 1970 is shown for one that cannot be read.
pub proof fn law_shown_date(text: Seq<char>)
    ensures
        valid_date(rfc3339_reformatted(text)) == match rfc3339_parsed(text) {
            Some(at) => rfc3339_micros(at.time.secs, at.time.nanos, at.offset),
            None => "1970-01-01T00:00:00.000000Z"@,
        },
{
}

/// Identifiers stand for the characters they are made of.
pub proof fn law_identifiers(text: String)
    ensures
        CipherId(text)@ == text@,
        UserId(text)@ == text@,
        OrganizationId(text)@ == text@,
        FolderId(text)@ == text@,
        CollectionId(text)@ == text@,
        GroupId(text)@ == text@,
        MembershipId(text)@ == text@,
        AttachmentId(text)@ == text@,
{
}

/// Identifiers are equal exactly where they are made of the same characters.
pub proof fn law_equal_identifiers(one: String, other: String)
    ensures
        CipherId(one).eq_spec(&CipherId(other)) <==> one@ == other@,
        UserId(one).eq_spec(&UserId(other)) <==> one@ == other@,
        OrganizationId(one).eq_spec(&OrganizationId(other)) <==> one@ == other@,
        FolderId(one).eq_spec(&FolderId(other)) <==> one@ == other@,
        CollectionId(one).eq_spec(&CollectionId(other)) <==> one@ == other@,
        GroupId(one).eq_spec(&GroupId(other)) <==> one@ == other@,
        MembershipId(one).eq_spec(&MembershipId(other)) <==> one@ == other@,
        AttachmentId(one).eq_spec(&AttachmentId(other)) <==> one@ == other@,
{
}

/// An identifier that is made from a text is made of its characters.
pub proof fn law_made_identifiers(text: String)
    ensures
        CipherId::from_spec(text).0@ == text@,
        UserId::from_spec(text).0@ == text@,
        OrganizationId::from_spec(text).0@ == text@,
        FolderId::from_spec(text).0@ == text@,
        CollectionId::from_spec(text).0@ == text@,
        GroupId::from_spec(text).0@ == text@,
        MembershipId::from_spec(text).0@ == text@,
        AttachmentId::from_spec(text).0@ == text@,
{
}

/// A cipher belongs to the user and to the organization that it names, and to nobody where it
/// names none.
pub proof fn law_ownership(cipher: Cipher, name: String)
    ensures
        cipher.user_uuid == Some(UserId(name)) ==> forall|user: Seq<char>| #[trigger]
            cipher.owned_by(user) == (user == name@),
        cipher.user_uuid is None ==> forall|user: Seq<char>| !#[trigger] cipher.owned_by(user),
        cipher.organization_uuid == Some(OrganizationId(name)) ==> forall|org: Seq<char>|
            #[trigger]
            cipher.in_org(org) == (org == name@),
        cipher.organization_uuid is None ==> forall|org: Seq<char>| !#[trigger] cipher.in_org(org),
{
}

/// A new cipher has the identifier, time, type and name that are given, and nothing else.
pub proof fn law_new_cipher(
    cipher: Cipher,
    uuid: Seq<char>,
    time: Timestamp,
    atype: i32,
    name: Seq<char>,
)
    ensures
        cipher.is_blank(uuid, time, atype, name) <==> {
            &&& cipher.uuid.0@ == uuid
            &&& cipher.created_at == time && cipher.updated_at == time
            &&& cipher.atype == atype && cipher.name@ == name
            &&& cipher.user_uuid is None && cipher.organization_uuid is None
            &&& cipher.key is None && cipher.notes is None && cipher.fields is None
            &&& cipher.data@ == Seq::<char>::empty()
            &&& cipher.password_history is None
            &&& cipher.deleted_at is None && cipher.reprompt is None
        },
{
    assert(cipher.data@.len() == 0 <==> cipher.data@ =~= Seq::<char>::empty());
}

/// No reprompt counts as 0, the master password as 1.
pub proof fn law_reprompt_codes(choice: RepromptType)
    ensures
        choice.spec_code() == if choice is Password {
            1int
        } else {
            0
        },
{
}

/// The dates of a cipher are those of the calendar exactly where each of them is.
pub proof fn law_valid_dates(cipher: Cipher, deleted: Timestamp)
    ensures
        cipher.deleted_at is None ==> cipher.has_valid_dates() == (cipher.created_at.valid()
            && cipher.updated_at.valid()),
        cipher.deleted_at == Some(deleted) ==> cipher.has_valid_dates() == (
        cipher.created_at.valid() && cipher.updated_at.valid() && deleted.valid()),
{
}

/// What a map holds for a key is the value of the last entry with that key; nothing where there
/// is no such entry.
pub proof fn law_lookup<V>(map: TextMap<V>, key: Seq<char>, i: int)
    ensures
        0 <= i < map.entries@.len() && map.entries@[i].0@ == key && (forall|j: int|
            i < j < map.entries@.len() ==> #[trigger] map.entries@[j].0@ != key) ==> map.lookup(
            key,
        ) == Some(map.entries@[i].1),
        (forall|j: int| 0 <= j < map.entries@.len() ==> #[trigger] map.entries@[j].0@ != key)
            ==> map.lookup(key) is None,
{
    if 0 <= i < map.entries@.len() && map.entries@[i].0@ == key && (forall|j: int|
        i < j < map.entries@.len() ==> #[trigger] map.entries@[j].0@ != key) {
        lemma_entries_last(map.entries@, key, i);
    }
    if forall|j: int| 0 <= j < map.entries@.len() ==> #[trigger] map.entries@[j].0@ != key {
        lemma_entries_last(map.entries@, key, -1);
    }
}

/// An identifier is listed exactly where one of the identifiers of the list has its characters.
pub proof fn law_lists(ciphers: Seq<CipherId>, orgs: Seq<OrganizationId>, name: Seq<char>)
    ensures
        lists_cipher(ciphers, name) <==> exists|i: int|
            0 <= i < ciphers.len() && (#[trigger] ciphers[i]).0@ == name,
        lists_org(orgs, name) <==> exists|i: int|
            0 <= i < orgs.len() && (#[trigger] orgs[i]).0@ == name,
{
    if lists_cipher(ciphers, name) {
        let i = choose|i: int| 0 <= i < ciphers.len() && (#[trigger] ciphers[i])@ == name;
        assert(ciphers[i].0@ == name);
    }
    if exists|i: int| 0 <= i < ciphers.len() && (#[trigger] ciphers[i]).0@ == name {
        let i = choose|i: int| 0 <= i < ciphers.len() && (#[trigger] ciphers[i]).0@ == name;
        assert(ciphers[i]@ == name);
    }
    if lists_org(orgs, name) {
        let i = choose|i: int| 0 <= i < orgs.len() && (#[trigger] orgs[i])@ == name;
        assert(orgs[i].0@ == name);
    }
    if exists|i: int| 0 <= i < orgs.len() && (#[trigger] orgs[i]).0@ == name {
        let i = choose|i: int| 0 <= i < orgs.len() && (#[trigger] orgs[i]).0@ == name;
        assert(orgs[i]@ == name);
    }
}

} // verus!
