//! What the client reads of a JSON value: the strings and the unsigned numbers
//! among the members of an object.

use vstd::prelude::*;

verus! {

/// A member of a JSON object: its name, its value where that is a string, and
/// its value where that is a number without sign or fraction.
pub struct JsonMember {
    pub name: String,
    pub text: Option<String>,
    pub number: Option<u64>,
}

/// A JSON value: its members where it is an object.
pub struct JsonValue {
    pub members: Option<Vec<JsonMember>>,
}

/// The mathematical view of a `JsonMember`.
#[verifier::ext_equal]
pub struct JsonMemberView {
    pub name: Seq<char>,
    pub text: Option<Seq<char>>,
    pub number: Option<u64>,
}

impl DeepView for JsonMember {
    type V = JsonMemberView;

    open spec fn deep_view(&self) -> JsonMemberView {
        JsonMemberView {
            name: self.name@,
            text: self.text.deep_view(),
            number: self.number,
        }
    }
}

impl View for JsonValue {
    type V = Option<Seq<JsonMemberView>>;

    open spec fn view(&self) -> Option<Seq<JsonMemberView>> {
        self.members.deep_view()
    }
}

/// The first of `members` that is called `name`.
pub open spec fn first_named(members: Seq<JsonMemberView>, name: Seq<char>) -> Option<
    JsonMemberView,
>
    decreases members.len(),
{
    if members.len() == 0 {
        None
    } else if members.first().name == name {
        Some(members.first())
    } else {
        first_named(members.drop_first(), name)
    }
}

/// The member of `value` that is called `name`.
pub open spec fn member_of(value: Option<Seq<JsonMemberView>>, name: Seq<char>) -> Option<
    JsonMemberView,
> {
    match value {
        Some(members) => first_named(members, name),
        None => None,
    }
}

/// The string that the member `name` of `value` holds.
pub open spec fn text_member(value: Option<Seq<JsonMemberView>>, name: Seq<char>) -> Option<
    Seq<char>,
> {
    match member_of(value, name) {
        Some(m) => m.text,
        None => None,
    }
}

/// The unsigned number that the member `name` of `value` holds.
pub open spec fn number_member(value: Option<Seq<JsonMemberView>>, name: Seq<char>) -> Option<
    u64,
> {
    match member_of(value, name) {
        Some(m) => m.number,
        None => None,
    }
}

/// The JSON value that `serde_json::from_str` reads from a text, if it reads one.
pub uninterp spec fn json_of_text(text: Seq<char>) -> Option<Option<Seq<JsonMemberView>>>;

/// The JSON value that `serde_json::from_slice` reads from bytes, if it reads one.
pub uninterp spec fn json_of_bytes(bytes: Seq<u8>) -> Option<Option<Seq<JsonMemberView>>>;

/// `serde_json::from_str` into a `serde_json::Value`: a function of the text
/// alone. What comes out of the value is handed over as it is: the members of an
/// object (`as_object`), each with its string (`as_str`) and its unsigned number
/// (`as_u64`). An object has each name once, so the first member under a name is
/// the one that `Value::get` finds.
#[verifier::external_body]
pub(crate) fn parse_text(text: &str) -> (r: Option<JsonValue>)
    ensures
        r is Some == json_of_text(text@) is Some,
        r matches Some(v) ==> json_of_text(text@) == Some(v@),
{
    let value: serde_json::Value = serde_json::from_str(text).ok()?;
    let members = value.as_object().map(|object| object.iter().map(|(name, member)| JsonMember {
        name: name.clone(),
        text: member.as_str().map(|s| s.to_string()),
        number: member.as_u64(),
    }).collect());
    Some(JsonValue { members })
}

/// `serde_json::from_slice` into a `serde_json::Value`: a function of the bytes
/// alone. The value is handed over as `parse_text` does.
#[verifier::external_body]
pub(crate) fn parse_bytes(bytes: &[u8]) -> (r: Option<JsonValue>)
    ensures
        r is Some == json_of_bytes(bytes@) is Some,
        r matches Some(v) ==> json_of_bytes(bytes@) == Some(v@),
{
    let value: serde_json::Value = serde_json::from_slice(bytes).ok()?;
    let members = value.as_object().map(|object| object.iter().map(|(name, member)| JsonMember {
        name: name.clone(),
        text: member.as_str().map(|s| s.to_string()),
        number: member.as_u64(),
    }).collect());
    Some(JsonValue { members })
}

impl JsonValue {
    /// The member that is called `name`.
    fn member(&self, name: &String) -> (r: Option<&JsonMember>)
        ensures
            r.deep_view() == member_of(self@, name@),
    {
        match &self.members {
            None => None,
            Some(members) => {
                let ghost all = members.deep_view();
                assert(all.skip(0) == all);
                let mut i: usize = 0;
                while i < members.len()
                    invariant
                        i <= members.len(),
                        self@ == Some(all),
                        all == members.deep_view(),
                        first_named(all.skip(i as int), name@) == first_named(all, name@),
                    decreases members.len() - i,
                {
                    let ghost rest = all.skip(i as int);
                    assert(rest.first() == members@[i as int].deep_view());
                    assert(rest.drop_first() == all.skip(i + 1));
                    if members[i].name == *name {
                        return Some(&members[i]);
                    }
                    i = i + 1;
                }
                None
            },
        }
    }

    /// The string that the member `name` holds.
    pub fn text(&self, name: &str) -> (r: Option<String>)
        ensures
            r.deep_view() == text_member(self@, name@),
    {
        let name = name.to_string();
        match self.member(&name) {
            Some(m) => m.text.clone(),
            None => None,
        }
    }

    /// The unsigned number that the member `name` holds.
    pub fn number(&self, name: &str) -> (r: Option<u64>)
        ensures
            r == number_member(self@, name@),
    {
        let name = name.to_string();
        match self.member(&name) {
            Some(m) => m.number,
            None => None,
        }
    }
}

/// The member under a name is the first that has the name, with all that it holds.
pub proof fn law_member_found(members: Seq<JsonMemberView>, i: int, name: Seq<char>)
    requires
        0 <= i < members.len(),
        members[i].name == name,
        forall|j: int| 0 <= j < i ==> members[j].name != name,
    ensures
        member_of(Some(members), name) == Some(members[i]),
        text_member(Some(members), name) == members[i].text,
        number_member(Some(members), name) == members[i].number,
    decreases members.len(),
{
    if i > 0 {
        let rest = members.drop_first();
        assert(rest[i - 1] == members[i]);
        assert forall|j: int| 0 <= j < i - 1 implies rest[j].name != name by {
            assert(rest[j] == members[j + 1]);
        }
        law_member_found(rest, i - 1, name);
    }
}

/// Where no member has the name, there is none; and none where the value is no
/// object.
pub proof fn law_member_missing(members: Seq<JsonMemberView>, name: Seq<char>)
    requires
        forall|j: int| 0 <= j < members.len() ==> members[j].name != name,
    ensures
        text_member(Some(members), name) is None,
        number_member(Some(members), name) is None,
        text_member(None, name) is None,
        number_member(None, name) is None,
    decreases members.len(),
{
    if members.len() > 0 {
        let rest = members.drop_first();
        assert forall|j: int| 0 <= j < rest.len() implies rest[j].name != name by {
            assert(rest[j] == members[j + 1]);
        }
        law_member_missing(rest, name);
    }
}

/// The views of members and values leave nothing out.
pub proof fn law_views_whole(member: JsonMember, value: JsonValue)
    ensures
        member.deep_view().name == member.name@,
        member.deep_view().number == member.number,
        member.deep_view().text is Some <==> member.text is Some,
        member.text is Some ==> member.deep_view().text->0 == member.text->0@,
        value@ is Some <==> value.members is Some,
        value.members is Some ==> value@->0.len() == value.members->0@.len(),
        value.members is Some ==> forall|i: int|
            0 <= i < value.members->0@.len() ==> #[trigger] value@->0[i]
                == value.members->0@[i].deep_view(),
{
}

} // verus!
