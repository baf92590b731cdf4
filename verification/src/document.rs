//! JSON documents as the forum returns them.

use vstd::prelude::*;

verus! {

/// One `key: value` pair of a JSON object.
#[derive(Debug, PartialEq, Eq)]
pub struct Member {
    pub key: String,
    pub value: Json,
}

/// A JSON document.  Numbers are kept as their decimal text.
#[derive(Debug, PartialEq, Eq)]
pub enum Json {
    Null,
    Bool(bool),
    Number(String),
    Text(String),
    Array(Vec<Json>),
    Object(Vec<Member>),
}

/// `serde_json::Error`: why the parser rejected a text.  It is carried and
/// never read.
#[verifier::external_type_specification]
#[verifier::external_body]
pub struct ExJsonError(serde_json::Error);

/// `serde_json::Value`: a document as the parser builds it.  It is handed
/// on to be copied into a [`Json`] and never read otherwise.
#[verifier::external_type_specification]
#[verifier::external_body]
pub struct ExJsonValue(serde_json::Value);

/// The document that `serde_json::from_str` reads from `text`, or `None`
/// where it rejects the text.
pub uninterp spec fn parsed_document(text: Seq<char>) -> Option<Json>;

/// The value of the first member of `members` named `key`.
pub open spec fn find(members: Seq<Member>, key: Seq<char>) -> Option<Json>
    decreases members.len(),
{
    if members.len() == 0 {
        None
    } else if members[0].key@ == key {
        Some(members[0].value)
    } else {
        find(members.drop_first(), key)
    }
}

impl Json {
    /// The member `key` of an object; `Null` where `self` is no object or
    /// has no such member.
    pub open spec fn member(self, key: Seq<char>) -> Json {
        match self {
            Json::Object(members) => match find(members@, key) {
                Some(value) => value,
                None => Json::Null,
            },
            _ => Json::Null,
        }
    }

    /// Looks up the member `key`; a missing member reads as `Null`.
    pub fn get<'a>(&'a self, key: &str) -> (value: &'a Json)
        ensures
            *value == self.member(key@),
    {
        let wanted = key.to_owned();
        match self {
            Json::Object(members) => {
                let mut i: usize = 0;
                assert(members@.skip(0) == members@);
                while i < members.len()
                    invariant
                        i <= members.len(),
                        wanted@ == key@,
                        *self == Json::Object(*members),
                        find(members@, key@) == find(members@.skip(i as int), key@),
                    decreases members.len() - i,
                {
                    assert(members@.skip(i as int).drop_first() == members@.skip(i as int + 1));
                    assert(members@.skip(i as int)[0] == members@[i as int]);
                    if members[i].key == wanted {
                        return &members[i].value;
                    }
                    i += 1;
                }
                &Json::Null
            },
            _ => &Json::Null,
        }
    }
}

/// A member that `find` returns sits inside `members`.
pub proof fn lemma_find_is_member(members: Seq<Member>, key: Seq<char>)
    ensures
        find(members, key) matches Some(value) ==> exists|i: int|
            0 <= i < members.len() && #[trigger] members[i].value == value,
    decreases members.len(),
{
    if members.len() > 0 && members[0].key@ != key {
        lemma_find_is_member(members.drop_first(), key);
        if find(members, key) is Some {
            let i = choose|i: int|
                0 <= i < members.drop_first().len() && #[trigger] members.drop_first()[i].value
                    == find(members, key)->0;
            assert(members[i + 1].value == find(members, key)->0);
        }
    }
}

/// A member of a document is smaller than the document, or `Null`.
pub proof fn lemma_member_decreases(doc: Json, key: Seq<char>)
    ensures
        doc.member(key) is Null || decreases_to!(doc => doc.member(key)),
{
    if let Json::Object(members) = doc {
        lemma_find_is_member(members@, key);
        if find(members@, key) is Some {
            let i = choose|i: int|
                0 <= i < members@.len() && #[trigger] members@[i].value == find(members@, key)->0;
            assert(decreases_to!(doc => members));
            assert(decreases_to!(members => members@));
            assert(decreases_to!(members@ => members@[i]));
            assert(decreases_to!(members@[i] => members@[i].value));
        }
    }
}

/// Copies a `serde_json::Value` into a [`Json`], variant by variant.  A
/// number becomes the text that `serde_json::Number` displays; an object
/// becomes its members in the order in which `serde_json::Map` hands them
/// out.  Nothing is claimed of the copy here.
#[verifier::external_body]
fn document_of(value: serde_json::Value) -> Json {
    match value {
        serde_json::Value::Null => Json::Null,
        serde_json::Value::Bool(flag) => Json::Bool(flag),
        serde_json::Value::Number(number) => Json::Number(number.to_string()),
        serde_json::Value::String(text) => Json::Text(text),
        serde_json::Value::Array(items) => Json::Array(items.into_iter().map(document_of).collect()),
        serde_json::Value::Object(fields) => Json::Object(
            fields.into_iter().map(|(key, value)| Member { key, value: document_of(value) }).collect(),
        ),
    }
}

/// `serde_json::from_str` at the type `serde_json::Value`, its result copied
/// into a [`Json`].  The claim is that the outcome depends on the text
/// alone: where the parser accepts, the document is [`parsed_document`] of
/// the text; where it rejects, [`parsed_document`] is `None`.
#[verifier::external_body]
fn read_document(text: &str) -> (parsed: Result<Json, serde_json::Error>)
    ensures
        parsed is Ok ==> parsed_document(text@) == Some(parsed->Ok_0),
        parsed is Err ==> parsed_document(text@) is None,
{
    serde_json::from_str::<serde_json::Value>(text).map(document_of)
}

/// Parses a JSON text; `None` where the text is no JSON document.
pub fn parse(text: &str) -> (doc: Option<Json>)
    ensures
        doc == parsed_document(text@),
{
    match read_document(text) {
        Ok(doc) => Some(doc),
        Err(_) => None,
    }
}

} // verus!
