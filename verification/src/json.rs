//! JSON documents, as far as the exchanges with the servers read and write them.

use crate::ordering;
use crate::text::same_text;
use vstd::prelude::*;

verus! {

/// A JSON document.
///
/// A number with a fraction or an exponent is kept by the bits of its 64-bit floating-point
/// value.
#[derive(Debug)]
pub enum Json {
    Null,
    Bool(bool),
    Int(i64),
    UInt(u64),
    Real(u64),
    Text(String),
    List(Vec<Json>),
    Object(Vec<(String, Json)>),
}

/// What a JSON document says.
pub enum JsonView {
    Null,
    Bool(bool),
    Number(int),
    Real(u64),
    Text(Seq<char>),
    List(Seq<JsonView>),
    Object(Seq<(Seq<char>, JsonView)>),
}

pub open spec fn json_view(j: Json) -> JsonView
    decreases j,
{
    match j {
        Json::Null => JsonView::Null,
        Json::Bool(b) => JsonView::Bool(b),
        Json::Int(n) => JsonView::Number(n as int),
        Json::UInt(n) => JsonView::Number(n as int),
        Json::Real(bits) => JsonView::Real(bits),
        Json::Text(s) => JsonView::Text(s@),
        Json::List(v) => JsonView::List(
            Seq::new(
                v@.len(),
                |i: int|
                    if 0 <= i < v@.len() {
                        json_view(v@[i])
                    } else {
                        JsonView::Null
                    },
            ),
        ),
        Json::Object(m) => JsonView::Object(
            Seq::new(
                m@.len(),
                |i: int|
                    if 0 <= i < m@.len() {
                        (m@[i].0@, json_view(m@[i].1))
                    } else {
                        (Seq::empty(), JsonView::Null)
                    },
            ),
        ),
    }
}

impl View for Json {
    type V = JsonView;

    open spec fn view(&self) -> JsonView {
        json_view(*self)
    }
}

/// The value of the first entry under `key`.
pub open spec fn lookup(entries: Seq<(Seq<char>, JsonView)>, key: Seq<char>) -> Option<JsonView>
    decreases entries.len(),
{
    if entries.len() == 0 {
        None
    } else if entries[0].0 == key {
        Some(entries[0].1)
    } else {
        lookup(entries.drop_first(), key)
    }
}

impl JsonView {
    /// The member of an object under `key`.
    pub open spec fn member(self, key: Seq<char>) -> Option<JsonView> {
        match self {
            JsonView::Object(entries) => lookup(entries, key),
            _ => None,
        }
    }

    /// The element of a list at `index`.
    pub open spec fn element(self, index: int) -> Option<JsonView> {
        match self {
            JsonView::List(items) => if 0 <= index < items.len() {
                Some(items[index])
            } else {
                None
            },
            _ => None,
        }
    }

    pub open spec fn elements(self) -> Option<Seq<JsonView>> {
        match self {
            JsonView::List(items) => Some(items),
            _ => None,
        }
    }

    pub open spec fn text(self) -> Option<Seq<char>> {
        match self {
            JsonView::Text(s) => Some(s),
            _ => None,
        }
    }

    /// The value of an integer that fits in 64 bits with its sign.
    pub open spec fn integer(self) -> Option<int> {
        match self {
            JsonView::Number(n) if i64::MIN <= n <= i64::MAX => Some(n),
            _ => None,
        }
    }

    /// The text of the member under `key`.
    pub open spec fn member_text(self, key: Seq<char>) -> Option<Seq<char>> {
        match self.member(key) {
            Some(j) => j.text(),
            None => None,
        }
    }
}

impl Json {
    pub fn text(s: &str) -> (r: Json)
        ensures
            r@ == JsonView::Text(s@),
    {
        Json::Text(s.to_owned())
    }

    /// The text, or null where there is none.
    pub fn text_or_null(s: &Option<String>) -> (r: Json)
        ensures
            r@ == match *s {
                Some(t) => JsonView::Text(t@),
                None => JsonView::Null,
            },
    {
        match s {
            Some(t) => Json::Text(t.clone()),
            None => Json::Null,
        }
    }

    pub fn list(items: Vec<Json>) -> (r: Json)
        ensures
            r@ == JsonView::List(Seq::new(items@.len(), |i: int| items@[i]@)),
    {
        let r = Json::List(items);
        assert(r@->List_0 =~= Seq::new(items@.len(), |i: int| items@[i]@));
        r
    }

    /// The object without members.
    pub fn object() -> (r: Json)
        ensures
            r@ == JsonView::Object(Seq::empty()),
    {
        let entries: Vec<(String, Json)> = Vec::new();
        let r = Json::Object(entries);
        assert(r@->Object_0 =~= Seq::<(Seq<char>, JsonView)>::empty());
        r
    }

    /// The object with one more member at its end.
    pub fn with(self, key: &str, value: Json) -> (r: Json)
        requires
            self@ is Object,
        ensures
            r@ == JsonView::Object(self@->Object_0.push((key@, value@))),
    {
        match self {
            Json::Object(entries) => {
                let ghost before = self@->Object_0;
                let mut entries = entries;
                entries.push((key.to_owned(), value));
                let r = Json::Object(entries);
                assert(r@->Object_0 =~= before.push((key@, value@)));
                r
            },
            other => other,
        }
    }

    /// The member of an object under `key`.
    pub fn get(&self, key: &str) -> (r: Option<&Json>)
        ensures
            match r {
                Some(j) => self@.member(key@) == Some(j@),
                None => self@.member(key@) is None,
            },
    {
        match self {
            Json::Object(m) => {
                let ghost entries = self@->Object_0;
                let mut i: usize = 0;
                assert(entries.skip(0) == entries);
                while i < m.len()
                    invariant
                        i <= m@.len(),
                        entries.len() == m@.len(),
                        self@ == JsonView::Object(entries),
                        forall|k: int|
                            0 <= k < m@.len() ==> #[trigger] entries[k] == (m@[k].0@, m@[k].1@),
                        lookup(entries.skip(i as int), key@) == self@.member(key@),
                    decreases m@.len() - i,
                {
                    assert(entries.skip(i as int)[0] == entries[i as int]);
                    assert(entries.skip(i as int).drop_first() == entries.skip(i + 1));
                    if same_text(m[i].0.as_str(), key) {
                        return Some(&m[i].1);
                    }
                    i = i + 1;
                }
                None
            },
            _ => None,
        }
    }

    /// The element of a list at `index`.
    pub fn at(&self, index: usize) -> (r: Option<&Json>)
        ensures
            match r {
                Some(j) => self@.element(index as int) == Some(j@),
                None => self@.element(index as int) is None,
            },
    {
        match self {
            Json::List(v) => if index < v.len() {
                Some(&v[index])
            } else {
                None
            },
            _ => None,
        }
    }

    /// The text of a string document.
    pub fn as_str(&self) -> (r: Option<&str>)
        ensures
            match r {
                Some(s) => self@.text() == Some(s@),
                None => self@.text() is None,
            },
    {
        match self {
            Json::Text(s) => Some(s.as_str()),
            _ => None,
        }
    }

    /// The elements of a list.
    pub fn as_list(&self) -> (r: Option<&Vec<Json>>)
        ensures
            match r {
                Some(v) => self@.elements() == Some(ordering::views(v@)),
                None => self@.elements() is None,
            },
    {
        match self {
            Json::List(v) => {
                assert(self@.elements()->0 =~= ordering::views(v@));
                Some(v)
            },
            _ => None,
        }
    }

    /// The value of an integer that fits in 64 bits with its sign.
    pub fn as_i64(&self) -> (r: Option<i64>)
        ensures
            match r {
                Some(n) => self@.integer() == Some(n as int),
                None => self@.integer() is None,
            },
    {
        match self {
            Json::Int(n) => Some(*n),
            Json::UInt(n) => if *n <= 0x7fff_ffff_ffff_ffff {
                Some(*n as i64)
            } else {
                None
            },
            _ => None,
        }
    }

    /// The text of the member under `key`.
    pub fn get_str(&self, key: &str) -> (r: Option<&str>)
        ensures
            match r {
                Some(s) => self@.member_text(key@) == Some(s@),
                None => self@.member_text(key@) is None,
            },
    {
        match self.get(key) {
            Some(j) => j.as_str(),
            None => None,
        }
    }
}

/// An object's member is its first entry of that name.
pub proof fn law_first_entry_is_the_member(entries: Seq<(Seq<char>, JsonView)>, i: int)
    requires
        0 <= i < entries.len(),
        forall|j: int| 0 <= j < i ==> (#[trigger] entries[j]).0 != entries[i].0,
    ensures
        JsonView::Object(entries).member(entries[i].0) == Some(entries[i].1),
    decreases entries.len(),
{
    if i > 0 {
        assert(entries[0].0 != entries[i].0);
        let rest = entries.drop_first();
        assert forall|j: int| 0 <= j < i - 1 implies (#[trigger] rest[j]).0 != rest[i - 1].0 by {
            assert(entries[j + 1].0 != entries[i].0);
        }
        law_first_entry_is_the_member(rest, i - 1);
    }
}

/// An object has no member of a name that none of its entries has.
pub proof fn law_no_entry_no_member(entries: Seq<(Seq<char>, JsonView)>, key: Seq<char>)
    requires
        forall|j: int| 0 <= j < entries.len() ==> (#[trigger] entries[j]).0 != key,
    ensures
        JsonView::Object(entries).member(key) is None,
    decreases entries.len(),
{
    if entries.len() > 0 {
        assert(entries[0].0 != key);
        let rest = entries.drop_first();
        assert forall|j: int| 0 <= j < rest.len() implies (#[trigger] rest[j]).0 != key by {
            assert(entries[j + 1].0 != key);
        }
        law_no_entry_no_member(rest, key);
    }
}

/// An entry that is added is the member of its name where there was none, and changes no
/// other member.
pub proof fn law_added_entry_is_a_member(
    entries: Seq<(Seq<char>, JsonView)>,
    key: Seq<char>,
    value: JsonView,
    other: Seq<char>,
)
    ensures
        JsonView::Object(entries).member(key) is None ==> JsonView::Object(
            entries.push((key, value)),
        ).member(key) == Some(value),
        other != key ==> JsonView::Object(entries.push((key, value))).member(other)
            == JsonView::Object(entries).member(other),
        JsonView::Object(entries).member(key) is Some ==> JsonView::Object(
            entries.push((key, value)),
        ).member(key) == JsonView::Object(entries).member(key),
        JsonView::Object(Seq::empty()).member(key) is None,
    decreases entries.len(),
{
    let more = entries.push((key, value));
    if entries.len() == 0 {
        assert(more.drop_first() =~= Seq::empty());
        assert(lookup(more.drop_first(), other) is None);
    } else {
        assert(more.drop_first() =~= entries.drop_first().push((key, value)));
        law_added_entry_is_a_member(entries.drop_first(), key, value, other);
    }
}

/// Only an object has members, only a list elements, only a text is read as text, and only
/// an integer of 64 bits as an integer.
pub proof fn law_values_are_read_as_they_are(j: JsonView, key: Seq<char>, index: int)
    ensures
        j.member(key) is Some ==> j is Object,
        j.element(index) is Some ==> j is List && 0 <= index < j->List_0.len() && j.element(index)
            == Some(j->List_0[index]),
        j is List && 0 <= index < j->List_0.len() ==> j.element(index) is Some,
        j.elements() is Some <==> j is List,
        j is List ==> j.elements() == Some(j->List_0),
        j.text() is Some <==> j is Text,
        j is Text ==> j.text() == Some(j->Text_0),
        j.integer() is Some <==> j is Number && -0x8000_0000_0000_0000 <= j->Number_0
            <= 0x7fff_ffff_ffff_ffff,
        j.integer() is Some ==> j.integer() == Some(j->Number_0),
        j.member(key) is None ==> j.member_text(key) is None,
        j.member(key) is Some ==> j.member_text(key) == j.member(key)->0.text(),
{
}

} // verus!
