//! JSON values, as far as messages read and write them.
use crate::text;
use vstd::prelude::*;

verus! {

/// A JSON value. An object is the list of its members.
#[derive(Debug)]
pub enum Json {
    Null,
    Bool(bool),
    /// A number that is an unsigned 64-bit integer.
    Uint(u64),
    /// Any other number: a negative one or a fraction.
    OtherNumber,
    Text(String),
    List(Vec<Json>),
    Object(Vec<Member>),
}

/// A member of a JSON object.
#[derive(Debug)]
pub struct Member {
    pub key: String,
    pub value: Json,
}

/// What a JSON value says.
pub enum JsonView {
    Null,
    Bool(bool),
    Uint(u64),
    OtherNumber,
    Text(Seq<char>),
    List(Seq<JsonView>),
    Object(Seq<(Seq<char>, JsonView)>),
}

/// What a JSON value says.
pub open spec fn json_view(json: Json) -> JsonView
    decreases json,
{
    match json {
        Json::Null => JsonView::Null,
        Json::Bool(b) => JsonView::Bool(b),
        Json::Uint(n) => JsonView::Uint(n),
        Json::OtherNumber => JsonView::OtherNumber,
        Json::Text(s) => JsonView::Text(s@),
        Json::List(items) => JsonView::List(
            Seq::new(
                items@.len(),
                |i: int|
                    if 0 <= i < items@.len() {
                        json_view(items@[i])
                    } else {
                        JsonView::Null
                    },
            ),
        ),
        Json::Object(members) => JsonView::Object(
            Seq::new(
                members@.len(),
                |i: int|
                    if 0 <= i < members@.len() {
                        (members@[i].key@, json_view(members@[i].value))
                    } else {
                        (Seq::empty(), JsonView::Null)
                    },
            ),
        ),
    }
}

impl View for Json {
    type V = JsonView;

    open spec fn view(&self) -> JsonView {
        json_view(*self)
    }
}

/// The value of the first member with the key.
pub open spec fn find_member(members: Seq<(Seq<char>, JsonView)>, key: Seq<char>) -> Option<JsonView>
    decreases members.len(),
{
    if members.len() == 0 {
        None
    } else if members[0].0 == key {
        Some(members[0].1)
    } else {
        find_member(members.skip(1), key)
    }
}

impl JsonView {
    /// The value of a member, if this is an object that has it.
    pub open spec fn get(self, key: Seq<char>) -> Option<JsonView> {
        match self {
            JsonView::Object(members) => find_member(members, key),
            _ => None,
        }
    }

    /// The text, if this is one.
    pub open spec fn as_text(self) -> Option<Seq<char>> {
        match self {
            JsonView::Text(s) => Some(s),
            _ => None,
        }
    }

    /// The number, if this is an unsigned integer.
    pub open spec fn as_uint(self) -> Option<u64> {
        match self {
            JsonView::Uint(n) => Some(n),
            _ => None,
        }
    }

    /// The truth value, if this is one.
    pub open spec fn as_bool(self) -> Option<bool> {
        match self {
            JsonView::Bool(b) => Some(b),
            _ => None,
        }
    }

    /// The texts among the items, in order; none if this is no list.
    pub open spec fn texts(self) -> Seq<Seq<char>> {
        match self {
            JsonView::List(items) => texts_of(items),
            _ => Seq::empty(),
        }
    }

    /// The unsigned integers among the items, in order; none if this is no list.
    pub open spec fn uints(self) -> Seq<u64> {
        match self {
            JsonView::List(items) => uints_of(items),
            _ => Seq::empty(),
        }
    }
}

/// The texts among the values, in order.
pub open spec fn texts_of(items: Seq<JsonView>) -> Seq<Seq<char>>
    decreases items.len(),
{
    if items.len() == 0 {
        Seq::empty()
    } else {
        let before = texts_of(items.drop_last());
        match items.last().as_text() {
            Some(s) => before.push(s),
            None => before,
        }
    }
}

/// The unsigned integers among the values, in order.
pub open spec fn uints_of(items: Seq<JsonView>) -> Seq<u64>
    decreases items.len(),
{
    if items.len() == 0 {
        Seq::empty()
    } else {
        let before = uints_of(items.drop_last());
        match items.last().as_uint() {
            Some(n) => before.push(n),
            None => before,
        }
    }
}

/// What a list of values says.
pub open spec fn views(items: Seq<Json>) -> Seq<JsonView> {
    Seq::new(items.len(), |i: int| items[i]@)
}

/// What a list of members says.
pub open spec fn member_views(members: Seq<Member>) -> Seq<(Seq<char>, JsonView)> {
    Seq::new(members.len(), |i: int| (members[i].key@, members[i].value@))
}

/// What a list of texts says.
pub open spec fn text_views(texts: Seq<String>) -> Seq<Seq<char>> {
    Seq::new(texts.len(), |i: int| texts[i]@)
}

impl Json {
    /// The value of a member, if this is an object that has it.
    pub fn get(&self, key: &str) -> (r: Option<&Json>)
        ensures
            match r {
                Some(v) => self@.get(key@) == Some(v@),
                None => self@.get(key@) is None,
            },
    {
        match self {
            Json::Object(members) => {
                let ghost all = member_views(members@);
                proof {
                    reveal_with_fuel(json_view, 2);
        assert(self@->Object_0 =~= all);
                    assert(all.skip(0) =~= all);
                }
                let mut i: usize = 0;
                while i < members.len()
                    invariant
                        i <= members@.len(),
                        all == member_views(members@),
                        self@ == JsonView::Object(all),
                        self@.get(key@) == find_member(all.skip(i as int), key@),
                    decreases members@.len() - i,
                {
                    proof {
                        assert(all.skip(i as int)[0] == all[i as int]);
                        assert(all.skip(i as int).skip(1) =~= all.skip(i + 1));
                    }
                    if text::same(members[i].key.as_str(), key) {
                        return Some(&members[i].value);
                    }
                    i = i + 1;
                }
                None
            },
            _ => None,
        }
    }

    /// The text, if this is one.
    pub fn as_str(&self) -> (r: Option<&str>)
        ensures
            match r {
                Some(s) => self@.as_text() == Some(s@),
                None => self@.as_text() is None,
            },
    {
        match self {
            Json::Text(s) => Some(s.as_str()),
            _ => None,
        }
    }

    /// The number, if this is an unsigned integer.
    pub fn as_u64(&self) -> (r: Option<u64>)
        ensures
            r == self@.as_uint(),
    {
        match self {
            Json::Uint(n) => Some(*n),
            _ => None,
        }
    }

    /// The truth value, if this is one.
    pub fn as_bool(&self) -> (r: Option<bool>)
        ensures
            r == self@.as_bool(),
    {
        match self {
            Json::Bool(b) => Some(*b),
            _ => None,
        }
    }

    /// The texts among the items, in order; none if this is no list.
    pub fn to_texts(&self) -> (r: Vec<String>)
        ensures
            text_views(r@) == self@.texts(),
    {
        let mut out: Vec<String> = Vec::new();
        match self {
            Json::List(items) => {
                let ghost all = views(items@);
                proof {
                    reveal_with_fuel(json_view, 2);
        assert(self@->List_0 =~= all);
                    assert(text_views(out@) =~= texts_of(all.take(0)));
                }
                let mut i: usize = 0;
                while i < items.len()
                    invariant
                        i <= items@.len(),
                        all == views(items@),
                        text_views(out@) == texts_of(all.take(i as int)),
                    decreases items@.len() - i,
                {
                    let ghost before = out@;
                    proof {
                        assert(all.take(i + 1).drop_last() =~= all.take(i as int));
                        assert(all.take(i + 1).last() == items@[i as int]@);
                    }
                    match items[i].as_str() {
                        Some(s) => {
                            out.push(s.to_owned());
                            proof {
                                assert(text_views(out@) =~= text_views(before).push(s@));
                            }
                        },
                        None => {},
                    }
                    i = i + 1;
                }
                proof {
                    assert(all.take(i as int) =~= all);
                }
                out
            },
            _ => {
                proof {
                    assert(text_views(out@) =~= Seq::empty());
                }
                out
            },
        }
    }

    /// The unsigned integers among the items, in order; none if this is no list.
    pub fn to_u64s(&self) -> (r: Vec<u64>)
        ensures
            r@ == self@.uints(),
    {
        let mut out: Vec<u64> = Vec::new();
        match self {
            Json::List(items) => {
                let ghost all = views(items@);
                proof {
                    reveal_with_fuel(json_view, 2);
        assert(self@->List_0 =~= all);
                    assert(out@ =~= uints_of(all.take(0)));
                }
                let mut i: usize = 0;
                while i < items.len()
                    invariant
                        i <= items@.len(),
                        all == views(items@),
                        out@ == uints_of(all.take(i as int)),
                    decreases items@.len() - i,
                {
                    proof {
                        assert(all.take(i + 1).drop_last() =~= all.take(i as int));
                        assert(all.take(i + 1).last() == items@[i as int]@);
                    }
                    match items[i].as_u64() {
                        Some(n) => {
                            out.push(n);
                        },
                        None => {},
                    }
                    i = i + 1;
                }
                proof {
                    assert(all.take(i as int) =~= all);
                }
                out
            },
            _ => out,
        }
    }
}

/// A text.
pub fn text_value(s: &str) -> (r: Json)
    ensures
        r@ == JsonView::Text(s@),
{
    Json::Text(s.to_owned())
}

/// A list.
pub fn list(items: Vec<Json>) -> (r: Json)
    ensures
        r@ == JsonView::List(views(items@)),
{
    let r = Json::List(items);
    proof {
        reveal_with_fuel(json_view, 2);
        assert(r@->List_0 =~= views(items@));
    }
    r
}

/// A member of an object.
pub fn member(key: &str, value: Json) -> (r: Member)
    ensures
        r.key@ == key@,
        r.value == value,
{
    Member { key: key.to_owned(), value }
}

/// An object.
pub fn object(members: Vec<Member>) -> (r: Json)
    ensures
        r@ == JsonView::Object(member_views(members@)),
{
    let r = Json::Object(members);
    proof {
        reveal_with_fuel(json_view, 2);
        assert(r@->Object_0 =~= member_views(members@));
    }
    r
}

/// An object with the one member `payload`.
pub open spec fn payload_view(body: JsonView) -> JsonView {
    JsonView::Object(seq![("payload"@, body)])
}

/// An object with the one member `payload`.
pub fn payload(body: Json) -> (r: Json)
    ensures
        r@ == payload_view(body@),
{
    let members: Vec<Member> = vec![member("payload", body)];
    proof {
        assert(member_views(members@) =~= seq![("payload"@, body@)]);
    }
    object(members)
}

/// A member is found where it stands, unless an earlier one has its key.
pub proof fn lemma_found(members: Seq<(Seq<char>, JsonView)>, at: int)
    requires
        0 <= at < members.len(),
        forall|i: int| 0 <= i < at ==> (#[trigger] members[i]).0 != members[at].0,
    ensures
        find_member(members, members[at].0) == Some(members[at].1),
    decreases members.len(),
{
    if at > 0 {
        assert(members[0].0 != members[at].0);
        lemma_found(members.skip(1), at - 1);
    }
}

/// A key that no member has is not found.
pub proof fn lemma_not_found(members: Seq<(Seq<char>, JsonView)>, key: Seq<char>)
    requires
        forall|i: int| 0 <= i < members.len() ==> (#[trigger] members[i]).0 != key,
    ensures
        find_member(members, key) is None,
    decreases members.len(),
{
    if members.len() > 0 {
        assert(members[0].0 != key);
        lemma_not_found(members.skip(1), key);
    }
}

/// What a value says is what it holds: a text its characters, a list its items in
/// order, an object its keys and values in order.
pub proof fn law_values_say_what_they_hold(
    b: bool,
    n: u64,
    s: String,
    items: Vec<Json>,
    members: Vec<Member>,
)
    ensures
        json_view(Json::Null) == JsonView::Null,
        json_view(Json::Bool(b)) == JsonView::Bool(b),
        json_view(Json::Uint(n)) == JsonView::Uint(n),
        json_view(Json::OtherNumber) == JsonView::OtherNumber,
        json_view(Json::Text(s)) == JsonView::Text(s@),
        json_view(Json::List(items)) matches JsonView::List(said) && said.len() == items@.len()
            && forall|i: int| 0 <= i < said.len() ==> #[trigger] said[i] == json_view(items@[i]),
        json_view(Json::Object(members)) matches JsonView::Object(said) && said.len()
            == members@.len() && forall|i: int|
            0 <= i < said.len() ==> (#[trigger] said[i]).0 == members@[i].key@ && said[i].1
                == json_view(members@[i].value),
{
    reveal_with_fuel(json_view, 2);
}

/// A member is found by its key: the first with the key is the one, and where none
/// has the key, or the value is no object, there is none.
pub proof fn law_members(members: Seq<(Seq<char>, JsonView)>, key: Seq<char>, at: int)
    ensures
        0 <= at < members.len() && members[at].0 == key && (forall|i: int|
            0 <= i < at ==> (#[trigger] members[i]).0 != key) ==> JsonView::Object(members).get(
            key,
        ) == Some(members[at].1),
        (forall|i: int| 0 <= i < members.len() ==> (#[trigger] members[i]).0 != key)
            ==> JsonView::Object(members).get(key) is None,
        JsonView::Null.get(key) is None,
        JsonView::List(Seq::empty()).get(key) is None,
{
    if 0 <= at < members.len() && members[at].0 == key && (forall|i: int|
        0 <= i < at ==> (#[trigger] members[i]).0 != key) {
        lemma_found(members, at);
    }
    if forall|i: int| 0 <= i < members.len() ==> (#[trigger] members[i]).0 != key {
        lemma_not_found(members, key);
    }
}

/// Values are read as what they are, and as nothing else.
pub proof fn law_values_are_read(s: Seq<char>, n: u64, b: bool, other: JsonView)
    ensures
        JsonView::Text(s).as_text() == Some(s),
        JsonView::Uint(n).as_uint() == Some(n),
        JsonView::Bool(b).as_bool() == Some(b),
        other !is Text ==> other.as_text() is None,
        other !is Uint ==> other.as_uint() is None,
        other !is Bool ==> other.as_bool() is None,
        other !is List ==> other.texts() == Seq::<Seq<char>>::empty() && other.uints() == Seq::<
            u64,
        >::empty(),
        other !is Object ==> forall|key: Seq<char>| (#[trigger] other.get(key)) is None,
{
}

/// The texts of a list are its items that are texts, in order and unchanged; so
/// are its numbers.
pub proof fn law_items_are_picked(
    items: Seq<JsonView>,
    s: Seq<char>,
    n: u64,
    other: JsonView,
)
    ensures
        JsonView::List(Seq::empty()).texts() == Seq::<Seq<char>>::empty(),
        JsonView::List(Seq::empty()).uints() == Seq::<u64>::empty(),
        JsonView::List(items.push(JsonView::Text(s))).texts() == JsonView::List(items).texts().push(
            s,
        ),
        JsonView::List(items.push(JsonView::Uint(n))).uints() == JsonView::List(items).uints().push(
            n,
        ),
        other !is Text ==> JsonView::List(items.push(other)).texts() == JsonView::List(
            items,
        ).texts(),
        other !is Uint ==> JsonView::List(items.push(other)).uints() == JsonView::List(
            items,
        ).uints(),
{
    assert(items.push(JsonView::Text(s)).drop_last() =~= items);
    assert(items.push(JsonView::Uint(n)).drop_last() =~= items);
    assert(items.push(other).drop_last() =~= items);
}

/// What lists of values, members and texts say is what each of them says, in order.
pub proof fn law_lists_say_what_they_hold(
    items: Seq<Json>,
    members: Seq<Member>,
    texts: Seq<String>,
    body: JsonView,
)
    ensures
        views(items).len() == items.len(),
        forall|i: int| 0 <= i < items.len() ==> #[trigger] views(items)[i] == items[i]@,
        member_views(members).len() == members.len(),
        forall|i: int|
            0 <= i < members.len() ==> (#[trigger] member_views(members)[i]).0 == members[i].key@
                && member_views(members)[i].1 == members[i].value@,
        text_views(texts).len() == texts.len(),
        forall|i: int| 0 <= i < texts.len() ==> #[trigger] text_views(texts)[i] == texts[i]@,
        payload_view(body) == JsonView::Object(seq![("payload"@, body)]),
{
}

} // verus!
