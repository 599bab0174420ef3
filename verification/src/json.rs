//! JSON values, as the two services put them on the wire.

use vstd::prelude::*;

use crate::text::opt_view;

verus! {

/// A JSON value. An object keeps its members in the order in which they were written.
#[derive(Debug)]
pub enum Json {
    Null,
    Bool(bool),
    Int(i64),
    Text(String),
    List(Vec<Json>),
    Object(Vec<Member>),
}

/// A member of a JSON object.
#[derive(Debug)]
pub struct Member {
    pub name: String,
    pub value: Json,
}

/// What a JSON value says.
pub enum JsonView {
    Null,
    Bool(bool),
    Int(int),
    Text(Seq<char>),
    List(Seq<JsonView>),
    Object(Seq<MemberView>),
}

/// What a member of a JSON object says.
pub struct MemberView {
    pub name: Seq<char>,
    pub value: JsonView,
}

impl View for Json {
    type V = JsonView;

    open spec fn view(&self) -> JsonView
        decreases self,
    {
        match self {
            Json::Null => JsonView::Null,
            Json::Bool(b) => JsonView::Bool(*b),
            Json::Int(n) => JsonView::Int(*n as int),
            Json::Text(s) => JsonView::Text(s@),
            Json::List(items) => JsonView::List(
                Seq::new(
                    items@.len(),
                    |i: int|
                        if 0 <= i < items@.len() {
                            items@[i].view()
                        } else {
                            JsonView::Null
                        },
                ),
            ),
            Json::Object(members) => JsonView::Object(
                Seq::new(
                    members@.len(),
                    |i: int|
                        if 0 <= i < members@.len() {
                            MemberView { name: members@[i].name@, value: members@[i].value.view() }
                        } else {
                            MemberView { name: Seq::empty(), value: JsonView::Null }
                        },
                ),
            ),
        }
    }
}

/// A member that says `value` under `name`.
pub open spec fn member(name: Seq<char>, value: JsonView) -> MemberView {
    MemberView { name, value }
}

/// Whether a value is an object with a member of this name, and says nothing else under it.
pub open spec fn says(body: JsonView, name: Seq<char>, value: JsonView) -> bool {
    &&& body is Object
    &&& exists|i: int|
        0 <= i < body->Object_0.len() && (#[trigger] body->Object_0[i]).name == name
    &&& forall|i: int|
        0 <= i < body->Object_0.len() && (#[trigger] body->Object_0[i]).name == name
            ==> body->Object_0[i].value == value
}

/// Whether no two members of an object share a name.
pub open spec fn names_distinct(members: Seq<MemberView>) -> bool {
    forall|i: int, j: int|
        #![trigger members[i], members[j]]
        0 <= i < j < members.len() ==> members[i].name != members[j].name
}

pub(crate) proof fn lemma_says(members: Seq<MemberView>, k: int)
    requires
        names_distinct(members),
        0 <= k < members.len(),
    ensures
        says(JsonView::Object(members), members[k].name, members[k].value),
{
    let body = JsonView::Object(members);
    assert(body->Object_0[k].name == members[k].name);
    assert forall|i: int|
        0 <= i < members.len() && (#[trigger] body->Object_0[i]).name == members[k].name implies
    body->Object_0[i].value == members[k].value by {
        if i < k {
            assert(members[i].name != members[k].name);
        } else if k < i {
            assert(members[k].name != members[i].name);
        }
    }
}

/// What the members of an object say.
pub open spec fn members_view(members: Seq<Member>) -> Seq<MemberView> {
    members.map_values(|m: Member| member(m.name@, m.value@))
}

/// What a list of values says.
pub open spec fn items_view(items: Seq<Json>) -> Seq<JsonView> {
    items.map_values(|j: Json| j@)
}

/// What a text that may be missing says: the text, or null.
pub open spec fn text_or_null(s: Option<Seq<char>>) -> JsonView {
    match s {
        Some(t) => JsonView::Text(t),
        None => JsonView::Null,
    }
}

impl Json {
    /// A JSON string.
    pub fn text(s: &str) -> (j: Json)
        ensures
            j@ == JsonView::Text(s@),
    {
        Json::Text(s.to_owned())
    }

    /// A JSON string, or null.
    pub fn text_or_null(s: &Option<String>) -> (j: Json)
        ensures
            j@ == text_or_null(opt_view(*s)),
    {
        match s {
            Some(t) => Json::Text(t.clone()),
            None => Json::Null,
        }
    }

    /// A JSON array.
    pub fn list(items: Vec<Json>) -> (j: Json)
        ensures
            j@ == JsonView::List(items_view(items@)),
    {
        let j = Json::List(items);
        assert(j@->List_0 =~= items_view(items@));
        j
    }

    /// A JSON object.
    pub fn object(members: Vec<Member>) -> (j: Json)
        ensures
            j@ == JsonView::Object(members_view(members@)),
    {
        let j = Json::Object(members);
        assert(j@->Object_0 =~= members_view(members@));
        j
    }
}

/// Adds a member to an object that is being written.
pub fn put(members: &mut Vec<Member>, name: &str, value: Json)
    ensures
        members_view(final(members)@) == members_view(old(members)@).push(member(name@, value@)),
{
    members.push(Member { name: name.to_owned(), value });
    assert(members_view(members@) =~= members_view(old(members)@).push(member(name@, value@)));
}

/// The body of a refusal.
pub open spec fn error_body(code: Seq<char>, message: Seq<char>) -> JsonView {
    JsonView::Object(
        seq![
            member(
                "error"@,
                JsonView::Object(
                    seq![
                        member("code"@, JsonView::Text(code)),
                        member("message"@, JsonView::Text(message)),
                    ],
                ),
            ),
        ],
    )
}

/// The body of a refusal.
pub fn error_json(code: &str, message: &str) -> (j: Json)
    ensures
        j@ == error_body(code@, message@),
{
    let mut inner: Vec<Member> = Vec::new();
    put(&mut inner, "code", Json::text(code));
    put(&mut inner, "message", Json::text(message));
    let error = Json::object(inner);
    assert(error@->Object_0 =~= seq![
        member("code"@, JsonView::Text(code@)),
        member("message"@, JsonView::Text(message@)),
    ]);
    let mut outer: Vec<Member> = Vec::new();
    put(&mut outer, "error", error);
    let j = Json::object(outer);
    assert(j@->Object_0 =~= error_body(code@, message@)->Object_0);
    j
}

} // verus!
