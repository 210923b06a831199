//! JSON documents as a tree of the library's own, and the reading of such a
//! tree from text.
use crate::table::{last_position, last_value};
use vstd::prelude::*;

verus! {

/// A JSON value. A number holds its decimal text. An object holds its
/// members in order; a key stands for the value of the last member that
/// carries it.
#[derive(Debug, PartialEq, Eq)]
pub enum Json {
    Null,
    Bool(bool),
    Number(String),
    Text(String),
    List(Vec<Json>),
    Object(Vec<(String, Json)>),
}

/// Why a document could not be loaded.
#[derive(Clone, Copy, Debug, PartialEq, Eq)]
pub enum LoadError {
    /// The text is not JSON.
    Syntax,
    /// The document, or one of its rules, is not an object.
    NotAnObject,
    /// A rule has a property that no style rule has.
    UnknownField,
    /// A property holds a value of the wrong kind.
    WrongType,
}

/// `serde_json::Value`, carried from the parser to the copy into a tree.
/// Nothing is known of what is inside but through [`json_of`].
#[verifier::external_type_specification]
#[verifier::external_body]
pub struct ExJsonValue(serde_json::Value);

/// `serde_json::Error`, the parser's error. It is carried through and
/// mapped to [`LoadError::Syntax`]; nothing is claimed of it.
#[verifier::external_type_specification]
#[verifier::external_body]
pub struct ExJsonError(serde_json::Error);

/// The tree that a `serde_json::Value` holds: its variants one for one, a
/// number as the text that `serde_json` prints for it, an object's members
/// in the order in which its map hands them out.
pub uninterp spec fn json_of(value: serde_json::Value) -> Json;

/// The tree that `serde_json` reads from a text, or `None` where it reports
/// an error.
pub uninterp spec fn parsed_json(text: Seq<char>) -> Option<Json>;

/// The text that `String::from_utf8_lossy` makes of bytes.
pub uninterp spec fn utf8_lossy(bytes: Seq<u8>) -> Seq<char>;

/// `serde_json::from_str` at the type `serde_json::Value`. It returns an
/// error, and does not panic, on text that is not JSON or that nests too
/// deep; what it returns depends on the text alone.
#[verifier::external_body]
fn value_from_str(text: &str) -> (r: Result<serde_json::Value, serde_json::Error>)
    ensures
        match r {
            Ok(value) => parsed_json(text@) == Some(json_of(value)),
            Err(_) => parsed_json(text@) is None,
        },
{
    serde_json::from_str::<serde_json::Value>(text)
}

/// Copies a `serde_json::Value` into a tree, variant by variant. A number
/// is copied as the text of its `Display`.
#[verifier::external_body]
fn tree_of_value(value: &serde_json::Value) -> (r: Json)
    ensures
        r == json_of(*value),
{
    match value {
        serde_json::Value::Null => Json::Null,
        serde_json::Value::Bool(b) => Json::Bool(*b),
        serde_json::Value::Number(n) => Json::Number(n.to_string()),
        serde_json::Value::String(s) => Json::Text(s.clone()),
        serde_json::Value::Array(items) => Json::List(items.iter().map(tree_of_value).collect()),
        serde_json::Value::Object(map) => Json::Object(
            map.iter().map(|(k, v)| (k.clone(), tree_of_value(v))).collect(),
        ),
    }
}

/// `String::from_utf8_lossy`: the text of the bytes, with a replacement
/// character in place of each sequence that is not UTF-8.
#[verifier::external_body]
fn text_of_bytes(bytes: &[u8]) -> (r: String)
    ensures
        r@ == utf8_lossy(bytes@),
{
    String::from_utf8_lossy(bytes).into_owned()
}

/// Reads a JSON text.
pub fn parse_json(text: &str) -> (r: Result<Json, LoadError>)
    ensures
        r == match parsed_json(text@) {
            Some(tree) => Ok::<Json, LoadError>(tree),
            None => Err(LoadError::Syntax),
        },
{
    match value_from_str(text) {
        Ok(value) => Ok(tree_of_value(&value)),
        Err(_) => Err(LoadError::Syntax),
    }
}

/// Reads a JSON document from bytes. Bytes that are not UTF-8 are read as
/// replacement characters.
pub fn parse_json_bytes(bytes: &[u8]) -> (r: Result<Json, LoadError>)
    ensures
        r == match parsed_json(utf8_lossy(bytes@)) {
            Some(tree) => Ok::<Json, LoadError>(tree),
            None => Err(LoadError::Syntax),
        },
{
    let text = text_of_bytes(bytes);
    parse_json(text.as_str())
}

impl Json {
    /// The characters of a string value.
    pub open spec fn text(self) -> Option<Seq<char>> {
        match self {
            Json::Text(t) => Some(t@),
            _ => None,
        }
    }

    /// The value of an object's member.
    pub open spec fn member(self, key: Seq<char>) -> Option<Json> {
        match self {
            Json::Object(entries) => last_value(entries@, key),
            _ => None,
        }
    }

    /// The characters of an object's member that is a string.
    pub open spec fn member_text(self, key: Seq<char>) -> Option<Seq<char>> {
        match self.member(key) {
            Some(value) => value.text(),
            None => None,
        }
    }

    /// The characters of a string value.
    pub fn as_str(&self) -> (r: Option<&str>)
        ensures
            match r {
                Some(t) => self.text() == Some(t@),
                None => self.text() is None,
            },
    {
        match self {
            Json::Text(t) => Some(t.as_str()),
            _ => None,
        }
    }

    /// The value of an object's member, if this is an object that has it.
    pub fn get(&self, key: &str) -> (r: Option<&Json>)
        ensures
            match r {
                Some(value) => self.member(key@) == Some(*value),
                None => self.member(key@) is None,
            },
    {
        match self {
            Json::Object(entries) => match last_position(entries, key) {
                Some(i) => Some(&entries[i].1),
                None => None,
            },
            _ => None,
        }
    }

    /// The characters of an object's member, if it has it and it is a string.
    pub fn get_str(&self, key: &str) -> (r: Option<&str>)
        ensures
            match r {
                Some(t) => self.member_text(key@) == Some(t@),
                None => self.member_text(key@) is None,
            },
    {
        match self.get(key) {
            Some(value) => value.as_str(),
            None => None,
        }
    }
}

/// A string as a JSON string literal, quotes and escapes included, as
/// `serde_json` prints it.
pub uninterp spec fn json_quoted(s: Seq<char>) -> Seq<char>;

/// The `Display` of `serde_json::Value::String`: the string as a JSON
/// string literal.
#[verifier::external_body]
fn quote(s: &str) -> (r: String)
    ensures
        r@ == json_quoted(s@),
{
    serde_json::Value::String(s.to_owned()).to_string()
}

/// The compact JSON text of a tree: no white space, members and items
/// separated by commas, a number as its text.
pub open spec fn compact(j: Json) -> Seq<char>
    decreases j,
{
    match j {
        Json::Null => "null"@,
        Json::Bool(b) => if b {
            "true"@
        } else {
            "false"@
        },
        Json::Number(t) => t@,
        Json::Text(t) => json_quoted(t@),
        Json::List(items) => "["@ + compact_items(items@) + "]"@,
        Json::Object(entries) => "{"@ + compact_members(entries@) + "}"@,
    }
}

/// The compact texts of the items of a list, with commas between them.
pub open spec fn compact_items(items: Seq<Json>) -> Seq<char>
    decreases items,
{
    if items.len() == 0 {
        Seq::empty()
    } else if items.len() == 1 {
        compact(items.last())
    } else {
        compact_items(items.drop_last()) + ","@ + compact(items.last())
    }
}

/// The compact texts of the members of an object, with commas between
/// them.
pub open spec fn compact_members(entries: Seq<(String, Json)>) -> Seq<char>
    decreases entries,
{
    if entries.len() == 0 {
        Seq::empty()
    } else if entries.len() == 1 {
        json_quoted(entries.last().0@) + ":"@ + compact(entries.last().1)
    } else {
        compact_members(entries.drop_last()) + ","@ + json_quoted(entries.last().0@) + ":"@
            + compact(entries.last().1)
    }
}

impl Json {
    /// Appends the compact JSON text of the tree to `out`.
    pub fn write_compact(&self, out: &mut String)
        ensures
            final(out)@ == old(out)@ + compact(*self),
        decreases *self,
    {
        match self {
            Json::Null => out.append("null"),
            Json::Bool(b) => if *b {
                out.append("true")
            } else {
                out.append("false")
            },
            Json::Number(t) => out.append(t.as_str()),
            Json::Text(t) => {
                let q = quote(t.as_str());
                out.append(q.as_str())
            },
            Json::List(items) => {
                out.append("[");
                let mut i: usize = 0;
                proof {
                    assert(items@.take(0) == Seq::<Json>::empty());
                }
                while i < items.len()
                    invariant
                        0 <= i <= items.len(),
                        *self == Json::List(*items),
                        out@ == old(out)@ + "["@ + compact_items(items@.take(i as int)),
                    decreases items.len() - i,
                {
                    proof {
                        assert(items@.take(i + 1).drop_last() == items@.take(i as int));
                        assert(items@.take(i + 1).last() == items@[i as int]);
                        assert(decreases_to!(*self => self->List_0));
                        assert(decreases_to!(self->List_0 => self->List_0[i as int]));
                    }
                    if i > 0 {
                        out.append(",");
                    }
                    items[i].write_compact(out);
                    i += 1;
                }
                proof {
                    assert(items@.take(i as int) == items@);
                }
                out.append("]")
            },
            Json::Object(entries) => {
                out.append("{");
                let mut i: usize = 0;
                proof {
                    assert(entries@.take(0) == Seq::<(String, Json)>::empty());
                }
                while i < entries.len()
                    invariant
                        0 <= i <= entries.len(),
                        *self == Json::Object(*entries),
                        out@ == old(out)@ + "{"@ + compact_members(entries@.take(i as int)),
                    decreases entries.len() - i,
                {
                    proof {
                        assert(entries@.take(i + 1).drop_last() == entries@.take(i as int));
                        assert(entries@.take(i + 1).last() == entries@[i as int]);
                        assert(decreases_to!(*self => self->Object_0));
                        assert(decreases_to!(self->Object_0 => self->Object_0[i as int]));
                        assert(decreases_to!(self->Object_0[i as int] => self->Object_0[i as int].1));
                    }
                    if i > 0 {
                        out.append(",");
                    }
                    let q = quote(entries[i].0.as_str());
                    out.append(q.as_str());
                    out.append(":");
                    entries[i].1.write_compact(out);
                    i += 1;
                }
                proof {
                    assert(entries@.take(i as int) == entries@);
                }
                out.append("}")
            },
        }
    }

    /// The compact JSON text of the tree.
    pub fn to_text(&self) -> (r: String)
        ensures
            r@ == compact(*self),
    {
        let mut out = String::new();
        self.write_compact(&mut out);
        out
    }
}

/// A member of an object is smaller than the object.
pub proof fn lemma_member_decreases(value: Json, key: Seq<char>)
    ensures
        value.member(key) matches Some(inner) ==> decreases_to!(value => inner),
{
    if let Json::Object(entries) = value {
        lemma_last_value_decreases(entries@, key);
        assert(decreases_to!(value => value->Object_0));
        assert(decreases_to!(value->Object_0 => value->Object_0@));
    }
}

/// A value found in a list of entries is smaller than the list.
pub proof fn lemma_last_value_decreases(entries: Seq<(String, Json)>, key: Seq<char>)
    ensures
        last_value(entries, key) matches Some(inner) ==> decreases_to!(entries => inner),
    decreases entries.len(),
{
    if entries.len() > 0 {
        if entries.last().0@ == key {
            assert(decreases_to!(entries => entries[entries.len() - 1]));
            assert(decreases_to!(entries[entries.len() - 1] => entries[entries.len() - 1].1));
        } else {
            lemma_last_value_decreases(entries.drop_last(), key);
            assert(entries.drop_last() == entries.subrange(0, entries.len() - 1));
            assert(decreases_to!(entries => entries.subrange(0, entries.len() - 1)));
        }
    }
}

} // verus!
