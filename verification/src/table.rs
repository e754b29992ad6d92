//! The layout of the persistent store: a primary table keyed by short code,
//! and an index table keyed by digest. The functions here say what a save
//! writes and what a lookup asks for, read the items that come back, and tell
//! why a save was not made; sending is the caller's part.

use crate::hexstr::{hex_encode, hex_lower};
use crate::url_store::StoreError;
use vstd::prelude::*;

verus! {

/// The primary table.
pub const TABLE_NAME: &'static str = "shorten.url";

/// The index table.
pub const INDEX_NAME: &'static str = "shorten.url.digest-index";

/// The attribute that holds the short code: the key of the primary table.
pub const SHORT_URL: &'static str = "short_url";

/// The attribute that holds the digest in hexadecimal: the key of the index
/// table.
pub const DIGEST: &'static str = "digest";

/// The attribute that holds the long URL.
pub const LONG_URL: &'static str = "long_url";

/// The attribute that holds the time of creation, in milliseconds since the
/// epoch.
pub const CREATED_AT: &'static str = "created_at";

/// The condition under which a record is written to the primary table: that
/// no record holds the short code yet.
pub const IF_ABSENT: &'static str = "attribute_not_exists(short_url)";

/// The code with which the table answers for a write whose condition did not
/// hold.
pub const CONDITION_FAILED: &'static str = "ConditionalCheckFailed";

/// A value of the table.
#[derive(Debug, PartialEq, Eq)]
pub enum AttributeValue {
    /// A text.
    S(String),
    /// A number.
    N(u128),
    /// A value of a kind that the layout does not use.
    Other,
}

/// A value of the table as contracts see it.
pub enum ValueView {
    S(Seq<char>),
    N(u128),
    Other,
}

impl View for AttributeValue {
    type V = ValueView;

    open spec fn view(&self) -> ValueView {
        match self {
            AttributeValue::S(text) => ValueView::S(text@),
            AttributeValue::N(number) => ValueView::N(*number),
            AttributeValue::Other => ValueView::Other,
        }
    }
}

/// A named value of an item.
#[derive(Debug, PartialEq, Eq)]
pub struct Attribute {
    pub name: String,
    pub value: AttributeValue,
}

impl View for Attribute {
    type V = (Seq<char>, ValueView);

    open spec fn view(&self) -> (Seq<char>, ValueView) {
        (self.name@, self.value@)
    }
}

/// The write of an item to a table, on a condition or without one.
#[derive(Debug, PartialEq, Eq)]
pub struct Put {
    pub table_name: String,
    pub item: Vec<Attribute>,
    pub condition: Option<String>,
}

/// An item as contracts see it: its attributes in order, each by name and
/// value.
pub type ItemView = Seq<(Seq<char>, ValueView)>;

/// The view of an item.
pub open spec fn item_view(item: Seq<Attribute>) -> ItemView {
    item.map_values(|a: Attribute| a@)
}

/// The text under a name: that of the first attribute of the name, if it is a
/// text.
pub open spec fn text_under(item: ItemView, name: Seq<char>) -> Option<Seq<char>>
    decreases item.len(),
{
    if item.len() == 0 {
        None
    } else if item[0].0 == name {
        match item[0].1 {
            ValueView::S(text) => Some(text),
            _ => None,
        }
    } else {
        text_under(item.drop_first(), name)
    }
}

/// The digest and the long URL that an item of the primary table holds.
pub open spec fn record_in(item: ItemView) -> Option<(Seq<char>, Seq<char>)> {
    match (text_under(item, DIGEST@), text_under(item, LONG_URL@)) {
        (Some(digest_hex), Some(long_url)) => Some((digest_hex, long_url)),
        _ => None,
    }
}

/// The item of the primary table for a record.
pub open spec fn record_item_view(
    short_url: Seq<char>,
    digest: Seq<u8>,
    long_url: Seq<char>,
    created_at: u128,
) -> ItemView {
    seq![
        (SHORT_URL@, ValueView::S(short_url)),
        (DIGEST@, ValueView::S(hex_lower(digest))),
        (LONG_URL@, ValueView::S(long_url)),
        (CREATED_AT@, ValueView::N(created_at)),
    ]
}

/// The item of the index table for a record.
pub open spec fn index_item_view(short_url: Seq<char>, digest: Seq<u8>) -> ItemView {
    seq![
        (DIGEST@, ValueView::S(hex_lower(digest))),
        (SHORT_URL@, ValueView::S(short_url)),
    ]
}

/// A text attribute.
pub fn text_attribute(name: &str, text: String) -> (attribute: Attribute)
    ensures
        attribute@ == (name@, ValueView::S(text@)),
{
    Attribute { name: name.to_owned(), value: AttributeValue::S(text) }
}

/// The key of a record in the primary table.
pub fn record_key(short_url: &str) -> (key: Attribute)
    ensures
        key@ == (SHORT_URL@, ValueView::S(short_url@)),
{
    text_attribute(SHORT_URL, short_url.to_owned())
}

/// The key of a digest in the index table.
pub fn index_key(digest: &Vec<u8>) -> (key: Attribute)
    ensures
        key@ == (DIGEST@, ValueView::S(hex_lower(digest@))),
{
    text_attribute(DIGEST, hex_encode(digest))
}

/// The item that a save writes to the primary table. Read back, it gives the
/// digest and the long URL.
pub fn record_item(short_url: &str, digest: &Vec<u8>, long_url: &str, created_at: u128) -> (item:
    Vec<Attribute>)
    ensures
        item_view(item@) == record_item_view(short_url@, digest@, long_url@, created_at),
        record_in(item_view(item@)) == Some((hex_lower(digest@), long_url@)),
{
    let mut item: Vec<Attribute> = Vec::new();
    item.push(record_key(short_url));
    item.push(index_key(digest));
    item.push(text_attribute(LONG_URL, long_url.to_owned()));
    item.push(Attribute { name: CREATED_AT.to_owned(), value: AttributeValue::N(created_at) });
    proof {
        assert(item_view(item@) =~= record_item_view(short_url@, digest@, long_url@, created_at));
        lemma_record_item_read_back(short_url@, digest@, long_url@, created_at);
    }
    item
}

/// The item that a save writes to the index table. Read back, it gives the
/// short code.
pub fn index_item(short_url: &str, digest: &Vec<u8>) -> (item: Vec<Attribute>)
    ensures
        item_view(item@) == index_item_view(short_url@, digest@),
        text_under(item_view(item@), SHORT_URL@) == Some(short_url@),
{
    let mut item: Vec<Attribute> = Vec::new();
    item.push(index_key(digest));
    item.push(record_key(short_url));
    proof {
        assert(item_view(item@) =~= index_item_view(short_url@, digest@));
        lemma_index_item_read_back(short_url@, digest@);
    }
    item
}

/// The two writes of a save, which are to be made together or not at all: the
/// record to the primary table, on the condition that no record holds the
/// short code; and its entry to the index table.
pub fn save_puts(short_url: &str, digest: &Vec<u8>, long_url: &str, created_at: u128) -> (puts: (
    Put,
    Put,
))
    ensures
        puts.0.table_name@ == TABLE_NAME@,
        item_view(puts.0.item@) == record_item_view(short_url@, digest@, long_url@, created_at),
        puts.0.condition matches Some(condition) && condition@ == IF_ABSENT@,
        puts.1.table_name@ == INDEX_NAME@,
        item_view(puts.1.item@) == index_item_view(short_url@, digest@),
        puts.1.condition is None,
{
    let record = Put {
        table_name: TABLE_NAME.to_owned(),
        item: record_item(short_url, digest, long_url, created_at),
        condition: Some(IF_ABSENT.to_owned()),
    };
    let index = Put {
        table_name: INDEX_NAME.to_owned(),
        item: index_item(short_url, digest),
        condition: None,
    };
    (record, index)
}

/// Why a save was not made, from the codes with which the table answered for
/// its writes, in the order of the writes, and none where it did not answer
/// for them: a conflict where the condition of the first write, the record's,
/// did not hold; else the backend was not available.
pub fn save_failure(codes: &Vec<Option<String>>) -> (error: StoreError)
    ensures
        error == if codes@.len() > 0 && (codes@[0] matches Some(code) && code@
            == CONDITION_FAILED@) {
            StoreError::StoreConflict
        } else {
            StoreError::StoreUnavailable
        },
{
    if codes.len() > 0 {
        match &codes[0] {
            Some(code) => {
                if *code == CONDITION_FAILED.to_owned() {
                    return StoreError::StoreConflict;
                }
            },
            None => {},
        }
    }
    StoreError::StoreUnavailable
}

/// The text under a name in an item.
pub fn text_of(item: &Vec<Attribute>, name: &str) -> (text: Option<String>)
    ensures
        match text {
            Some(t) => text_under(item_view(item@), name@) == Some(t@),
            None => text_under(item_view(item@), name@) is None,
        },
{
    let wanted = name.to_owned();
    let mut i: usize = 0;
    assert(item_view(item@).skip(0) =~= item_view(item@));
    while i < item.len()
        invariant
            i <= item@.len(),
            wanted@ == name@,
            text_under(item_view(item@), name@) == text_under(
                item_view(item@).skip(i as int),
                name@,
            ),
        decreases item@.len() - i,
    {
        let ghost rest = item_view(item@).skip(i as int);
        assert(rest[0] == item@[i as int]@);
        assert(rest.drop_first() =~= item_view(item@).skip(i + 1));
        if item[i].name == wanted {
            return match &item[i].value {
                AttributeValue::S(t) => Some(t.clone()),
                _ => None,
            };
        }
        i = i + 1;
    }
    None
}

/// The digest and the long URL of an item read from the primary table, where
/// it holds both as texts.
pub fn record_of(item: &Vec<Attribute>) -> (record: Option<(String, String)>)
    ensures
        match record {
            Some(r) => record_in(item_view(item@)) == Some((r.0@, r.1@)),
            None => record_in(item_view(item@)) is None,
        },
{
    match text_of(item, DIGEST) {
        Some(digest_hex) => match text_of(item, LONG_URL) {
            Some(long_url) => Some((digest_hex, long_url)),
            None => None,
        },
        None => None,
    }
}

/// The short code of an item read from the index table, where it holds one as
/// a text.
pub fn short_url_of(item: &Vec<Attribute>) -> (short_url: Option<String>)
    ensures
        match short_url {
            Some(s) => text_under(item_view(item@), SHORT_URL@) == Some(s@),
            None => text_under(item_view(item@), SHORT_URL@) is None,
        },
{
    text_of(item, SHORT_URL)
}

/// The names of the three text attributes differ from each other.
proof fn lemma_names_differ()
    ensures
        SHORT_URL@ != DIGEST@,
        SHORT_URL@ != LONG_URL@,
        DIGEST@ != LONG_URL@,
{
    reveal_strlit("short_url");
    reveal_strlit("digest");
    reveal_strlit("long_url");
    assert(SHORT_URL@.len() == 9);
    assert(DIGEST@.len() == 6);
    assert(LONG_URL@.len() == 8);
}

/// An item of the primary table that is read back gives the digest and the
/// long URL that it was made of.
pub proof fn lemma_record_item_read_back(
    short_url: Seq<char>,
    digest: Seq<u8>,
    long_url: Seq<char>,
    created_at: u128,
)
    ensures
        record_in(record_item_view(short_url, digest, long_url, created_at)) == Some(
            (hex_lower(digest), long_url),
        ),
{
    lemma_names_differ();
    let item = record_item_view(short_url, digest, long_url, created_at);
    reveal_with_fuel(text_under, 4);
    assert(item.drop_first()[0] == item[1]);
    assert(item.drop_first().drop_first()[0] == item[2]);
}

/// An item of the index table that is read back gives the short code that it
/// was made of.
pub proof fn lemma_index_item_read_back(short_url: Seq<char>, digest: Seq<u8>)
    ensures
        text_under(index_item_view(short_url, digest), SHORT_URL@) == Some(short_url),
{
    lemma_names_differ();
    let item = index_item_view(short_url, digest);
    reveal_with_fuel(text_under, 3);
    assert(item.drop_first()[0] == item[1]);
}

} // verus!
