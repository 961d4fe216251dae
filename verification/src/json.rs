//! The parts of a JSON document that messages are read from.

use crate::decimal::{decimal_parse, of_parts, Decimal};
use crate::text::same_text;
use vstd::prelude::*;

verus! {

/// A member of a JSON object: its value as each of the types it may be read as, and as JSON.
#[derive(Debug, PartialEq, Eq)]
pub struct JsonField {
    pub name: String,
    pub text: Option<String>,
    pub unsigned: Option<u64>,
    pub signed: Option<i64>,
    pub flag: Option<bool>,
    pub raw: String,
}

/// A JSON document: its members where it is an object, and its items, as JSON, where it is an
/// array.
#[derive(Debug, PartialEq, Eq)]
pub struct Json {
    pub fields: Vec<JsonField>,
    pub items: Option<Vec<String>>,
}

/// A member of a JSON object, in the way contracts write it.
pub struct FieldView {
    pub name: Seq<char>,
    pub text: Option<Seq<char>>,
    pub unsigned: Option<u64>,
    pub signed: Option<i64>,
    pub flag: Option<bool>,
    pub raw: Seq<char>,
}

/// A JSON document, in the way contracts write it.
pub struct JsonView {
    pub fields: Seq<FieldView>,
    pub items: Option<Seq<Seq<char>>>,
}

impl View for JsonField {
    type V = FieldView;

    open spec fn view(&self) -> FieldView {
        FieldView {
            name: self.name@,
            text: match self.text {
                Some(text) => Some(text@),
                None => None,
            },
            unsigned: self.unsigned,
            signed: self.signed,
            flag: self.flag,
            raw: self.raw@,
        }
    }
}

impl View for Json {
    type V = JsonView;

    open spec fn view(&self) -> JsonView {
        JsonView {
            fields: self.fields@.map_values(|field: JsonField| field@),
            items: match self.items {
                Some(items) => Some(items@.map_values(|item: String| item@)),
                None => None,
            },
        }
    }
}

/// A document, where there is one, in the way contracts write it.
pub open spec fn document_view(document: Option<Json>) -> Option<JsonView> {
    match document {
        Some(document) => Some(document@),
        None => None,
    }
}

/// What `serde_json::from_str` makes of a text; `None` where it is not JSON.
pub uninterp spec fn json_document(text: Seq<char>) -> Option<JsonView>;

/// `serde_json::from_str` into a `serde_json::Value`, of which the members and the items are
/// handed out.
#[verifier::external_body]
fn read_document(text: &str) -> (result: Option<Json>)
    ensures
        document_view(result) == json_document(text@),
{
    let value = serde_json::from_str::<serde_json::Value>(text).ok()?;
    let fields = value.as_object().into_iter().flatten().map(|(name, field)| JsonField {
        name: name.clone(),
        text: field.as_str().map(str::to_owned),
        unsigned: field.as_u64(),
        signed: field.as_i64(),
        flag: field.as_bool(),
        raw: field.to_string(),
    });
    let items = value.as_array().map(|items| items.iter().map(|item| item.to_string()).collect());
    Some(Json { fields: fields.collect(), items })
}

/// The first of the members that has the name, from the position on.
pub open spec fn member_from(fields: Seq<FieldView>, name: Seq<char>, position: int) -> Option<
    FieldView,
>
    decreases fields.len() - position,
{
    if position < 0 || position >= fields.len() {
        None
    } else if fields[position].name == name {
        Some(fields[position])
    } else {
        member_from(fields, name, position + 1)
    }
}

impl JsonView {
    /// The member with the name, if there is one.
    pub open spec fn member(self, name: Seq<char>) -> Option<FieldView> {
        member_from(self.fields, name, 0)
    }

    /// The text under the name, if there is one.
    pub open spec fn text(self, name: Seq<char>) -> Option<Seq<char>> {
        match self.member(name) {
            Some(field) => field.text,
            None => None,
        }
    }

    /// The number under the name, if it is a natural one.
    pub open spec fn unsigned(self, name: Seq<char>) -> Option<u64> {
        match self.member(name) {
            Some(field) => field.unsigned,
            None => None,
        }
    }

    /// The number under the name, if it is a whole one.
    pub open spec fn signed(self, name: Seq<char>) -> Option<i64> {
        match self.member(name) {
            Some(field) => field.signed,
            None => None,
        }
    }

    /// The truth value under the name, if there is one.
    pub open spec fn flag(self, name: Seq<char>) -> Option<bool> {
        match self.member(name) {
            Some(field) => field.flag,
            None => None,
        }
    }

    /// The decimal number that the text under the name spells, if it spells one.
    pub open spec fn decimal(self, name: Seq<char>) -> Option<Decimal> {
        match self.text(name) {
            Some(text) => of_parts(decimal_parse(text)),
            None => None,
        }
    }

    /// The items, as JSON, of the array under the name, if there is one.
    pub open spec fn list(self, name: Seq<char>) -> Option<Seq<Seq<char>>> {
        match self.member(name) {
            Some(field) => match json_document(field.raw) {
                Some(document) => document.items,
                None => None,
            },
            None => None,
        }
    }
}

/// A text, where there is one, in the way contracts write it.
pub open spec fn str_view(text: Option<&str>) -> Option<Seq<char>> {
    match text {
        Some(text) => Some(text@),
        None => None,
    }
}

impl Json {
    /// The document that the text is, if it is JSON.
    pub fn parse(text: &str) -> (result: Option<Json>)
        ensures
            document_view(result) == json_document(text@),
    {
        read_document(text)
    }

    /// The member with the name, if there is one.
    pub fn get(&self, name: &str) -> (result: Option<&JsonField>)
        ensures
            (match result {
                Some(field) => Some(field@),
                None => None,
            }) == self@.member(name@),
    {
        let mut next: usize = 0;
        while next < self.fields.len()
            invariant
                next <= self.fields.len(),
                self@.member(name@) == member_from(self@.fields, name@, next as int),
            decreases self.fields.len() - next,
        {
            let field = &self.fields[next];
            assert(self@.fields[next as int] == field@);
            if same_text(field.name.as_str(), name) {
                return Some(field);
            }
            next = next + 1;
        }
        None
    }

    /// The text under the name, if there is one.
    pub fn get_text(&self, name: &str) -> (result: Option<&str>)
        ensures
            str_view(result) == self@.text(name@),
    {
        match self.get(name) {
            Some(field) => match &field.text {
                Some(text) => Some(text.as_str()),
                None => None,
            },
            None => None,
        }
    }

    /// The number under the name, if it is a natural one.
    pub fn get_unsigned(&self, name: &str) -> (result: Option<u64>)
        ensures
            result == self@.unsigned(name@),
    {
        match self.get(name) {
            Some(field) => field.unsigned,
            None => None,
        }
    }

    /// The number under the name, if it is a whole one.
    pub fn get_signed(&self, name: &str) -> (result: Option<i64>)
        ensures
            result == self@.signed(name@),
    {
        match self.get(name) {
            Some(field) => field.signed,
            None => None,
        }
    }

    /// The truth value under the name, if there is one.
    pub fn get_flag(&self, name: &str) -> (result: Option<bool>)
        ensures
            result == self@.flag(name@),
    {
        match self.get(name) {
            Some(field) => field.flag,
            None => None,
        }
    }

    /// The decimal number that the text under the name spells, if it spells one.
    pub fn get_decimal(&self, name: &str) -> (result: Option<Decimal>)
        ensures
            result == self@.decimal(name@),
    {
        match self.get_text(name) {
            Some(text) => Decimal::parse(text),
            None => None,
        }
    }

    /// The items, as JSON, of the array under the name, if there is one.
    pub fn get_list(&self, name: &str) -> (result: Option<Vec<String>>)
        ensures
            (match result {
                Some(items) => Some(items@.map_values(|item: String| item@)),
                None => None,
            }) == self@.list(name@),
    {
        match self.get(name) {
            Some(field) => match Json::parse(field.raw.as_str()) {
                Some(document) => document.items,
                None => None,
            },
            None => None,
        }
    }
}

} // verus!
