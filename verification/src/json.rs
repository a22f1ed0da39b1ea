//! JSON documents as values of this crate, and the few things that are read out
//! of the store's answers and of release descriptions.

use vstd::prelude::*;
use crate::text::{decimal, decimal_of, str_eq, string_of};

verus! {

/// A JSON number by the way it was written.
#[derive(Debug, Clone, Copy, PartialEq, Eq, Structural)]
pub enum JsonNumber {
    /// A whole number that is not negative.
    Unsigned(u64),
    /// A negative whole number.
    Signed(i64),
    /// A number with a fraction or an exponent; its value is of no interest here.
    Real,
}

/// A JSON document.
#[derive(Debug)]
pub enum Json {
    Null,
    Bool(bool),
    Number(JsonNumber),
    Text(String),
    Array(Vec<Json>),
    Object(Vec<(String, Json)>),
}

/// The value of the first member of `members`, from `from` on, whose name is `key`.
pub open spec fn find_member(members: Seq<(String, Json)>, key: Seq<char>, from: int) -> Option<Json>
    decreases members.len() - from,
{
    if from < 0 || from >= members.len() {
        None
    } else if members[from].0@ == key {
        Some(members[from].1)
    } else {
        find_member(members, key, from + 1)
    }
}

/// The value of the first member of `members` whose name is `key`.
pub fn lookup<'a>(members: &'a Vec<(String, Json)>, key: &str) -> (found: Option<&'a Json>)
    ensures
        match found {
            Some(j) => find_member(members@, key@, 0) == Some(*j),
            None => find_member(members@, key@, 0) is None,
        },
{
    let mut i: usize = 0;
    while i < members.len()
        invariant
            i <= members.len(),
            find_member(members@, key@, 0) == find_member(members@, key@, i as int),
        decreases members.len() - i,
    {
        if str_eq(members[i].0.as_str(), key) {
            return Some(&members[i].1);
        }
        i += 1;
    }
    None
}

impl Json {
    /// The member `key` of an object; `None` for anything else and where the
    /// object has no such member.
    pub open spec fn member(self, key: Seq<char>) -> Option<Json> {
        match self {
            Json::Object(members) => find_member(members@, key, 0),
            _ => None,
        }
    }

    /// The value of a whole number that is not negative.
    pub open spec fn unsigned(self) -> Option<u64> {
        match self {
            Json::Number(JsonNumber::Unsigned(n)) => Some(n),
            _ => None,
        }
    }

    /// The text of a string.
    pub open spec fn text(self) -> Option<Seq<char>> {
        match self {
            Json::Text(s) => Some(s@),
            _ => None,
        }
    }

    /// The items of an array.
    pub open spec fn items(self) -> Option<Seq<Json>> {
        match self {
            Json::Array(v) => Some(v@),
            _ => None,
        }
    }

    /// What lies under `first`, then `second`, then `third`.
    pub open spec fn at(self, first: Seq<char>, second: Seq<char>, third: Seq<char>) -> Option<Json> {
        match self.member(first) {
            Some(a) => match a.member(second) {
                Some(b) => b.member(third),
                None => None,
            },
            None => None,
        }
    }

    /// The member `key` of an object.
    pub fn get(&self, key: &str) -> (found: Option<&Json>)
        ensures
            match found {
                Some(j) => self.member(key@) == Some(*j),
                None => self.member(key@) is None,
            },
    {
        match self {
            Json::Object(members) => lookup(members, key),
            _ => None,
        }
    }

    /// What lies under `first`, then `second`, then `third`.
    pub fn get_nested(&self, first: &str, second: &str, third: &str) -> (found: Option<&Json>)
        ensures
            match found {
                Some(j) => self.at(first@, second@, third@) == Some(*j),
                None => self.at(first@, second@, third@) is None,
            },
    {
        match self.get(first) {
            Some(a) => match a.get(second) {
                Some(b) => b.get(third),
                None => None,
            },
            None => None,
        }
    }
}

/// The decimal forms of those items of `items` that are whole numbers and not
/// negative, in order.
pub open spec fn unsigned_items(items: Seq<Json>) -> Seq<Seq<char>>
    decreases items.len(),
{
    if items.len() == 0 {
        Seq::empty()
    } else {
        match items.last().unsigned() {
            Some(n) => unsigned_items(items.drop_last()).push(decimal(n as nat)),
            None => unsigned_items(items.drop_last()),
        }
    }
}

/// The identifiers of the add-ons of the title `app_id`, as the store's answer
/// `details` lists them under the title's `data` and `dlc`. Items that are not
/// whole numbers are passed over, and an answer without such a list names none.
pub open spec fn listed_dlc_ids(details: Json, app_id: Seq<char>) -> Seq<Seq<char>> {
    match details.at(app_id, "data"@, "dlc"@) {
        Some(list) => match list.items() {
            Some(items) => unsigned_items(items),
            None => Seq::empty(),
        },
        None => Seq::empty(),
    }
}

/// The name of the add-on `dlc_id`, as the store's answer `details` gives it
/// under the add-on's `data` and `name`; `Unknown DLC` where it gives none.
pub open spec fn listed_dlc_name(details: Json, dlc_id: Seq<char>) -> Seq<char> {
    match details.at(dlc_id, "data"@, "name"@) {
        Some(name) => match name.text() {
            Some(s) => s,
            None => "Unknown DLC"@,
        },
        None => "Unknown DLC"@,
    }
}

/// The identifiers of the add-ons of the title `app_id` in the store's answer.
pub fn dlc_ids(details: &Json, app_id: &str) -> (ids: Vec<String>)
    ensures
        crate::text::strings(ids@) == listed_dlc_ids(*details, app_id@),
{
    let mut ids: Vec<String> = Vec::new();
    match details.get_nested(app_id, "data", "dlc") {
        Some(list) => match list {
            Json::Array(items) => {
                let mut i: usize = 0;
                assert(items@.take(0) == Seq::<Json>::empty());
                while i < items.len()
                    invariant
                        i <= items.len(),
                        crate::text::strings(ids@) == unsigned_items(items@.take(i as int)),
                    decreases items.len() - i,
                {
                    let ghost before = crate::text::strings(ids@);
                    proof {
                        assert(items@.take(i + 1).drop_last() == items@.take(i as int));
                        assert(items@.take(i + 1).last() == items@[i as int]);
                    }
                    match &items[i] {
                        Json::Number(JsonNumber::Unsigned(n)) => {
                            let text = string_of(&decimal_of(*n));
                            ids.push(text);
                            assert(crate::text::strings(ids@) =~= before.push(decimal(*n as nat)));
                        },
                        _ => {},
                    }
                    i += 1;
                }
                assert(items@.take(items.len() as int) == items@);
            },
            _ => {},
        },
        None => {},
    }
    ids
}

/// The name of the add-on `dlc_id` in the store's answer.
pub fn dlc_name(details: &Json, dlc_id: &str) -> (name: String)
    ensures
        name@ == listed_dlc_name(*details, dlc_id@),
{
    match details.get_nested(dlc_id, "data", "name") {
        Some(found) => match found {
            Json::Text(s) => s.clone(),
            _ => "Unknown DLC".to_owned(),
        },
        None => "Unknown DLC".to_owned(),
    }
}

/// The version that a release description names under `tag_name`, if it names one.
pub fn release_tag(release: &Json) -> (tag: Option<String>)
    ensures
        match tag {
            Some(t) => release.member("tag_name"@) is Some && release.member("tag_name"@)->0.text()
                == Some(t@),
            None => release.member("tag_name"@) is None || release.member("tag_name"@)->0.text()
                is None,
        },
{
    match release.get("tag_name") {
        Some(found) => match found {
            Json::Text(s) => Some(s.clone()),
            _ => None,
        },
        None => None,
    }
}

} // verus!
