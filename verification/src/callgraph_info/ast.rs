//! The tree that a call-graph dump parses to.

use vstd::prelude::*;
use vstd::string::StringExecFns;

verus! {

/// A tagged, brace-delimited record: `kind { items }`.
#[derive(Debug, PartialEq, Eq)]
pub struct Object {
    pub kind: String,
    pub items: Vec<Item>,
}

/// One child of an object.
#[derive(Debug, PartialEq, Eq)]
pub enum Item {
    Object(Object),
    Field(Field),
}

/// A `key: value` pair.
#[derive(Debug, PartialEq, Eq)]
pub struct Field {
    pub key: String,
    pub value: String,
}

/// What an `Object` stands for.
pub struct ObjectView {
    pub kind: Seq<char>,
    pub items: Seq<ItemView>,
}

/// What an `Item` stands for.
pub enum ItemView {
    Object(ObjectView),
    Field(FieldView),
}

/// What a `Field` stands for.
pub struct FieldView {
    pub key: Seq<char>,
    pub value: Seq<char>,
}

impl View for Field {
    type V = FieldView;

    open spec fn view(&self) -> FieldView {
        FieldView { key: self.key@, value: self.value@ }
    }
}

impl Object {
    pub open spec fn model(&self) -> ObjectView
        decreases self,
    {
        ObjectView {
            kind: self.kind@,
            items: Seq::new(
                self.items@.len(),
                |i: int|
                    if 0 <= i < self.items.len() {
                        self.items[i].model()
                    } else {
                        arbitrary()
                    },
            ),
        }
    }
}

impl Item {
    pub open spec fn model(&self) -> ItemView
        decreases self,
    {
        match self {
            Item::Object(o) => ItemView::Object(o.model()),
            Item::Field(f) => ItemView::Field(f@),
        }
    }
}

impl View for Object {
    type V = ObjectView;

    open spec fn view(&self) -> ObjectView {
        self.model()
    }
}

impl View for Item {
    type V = ItemView;

    open spec fn view(&self) -> ItemView {
        self.model()
    }
}

/// The views of a run of items.
pub open spec fn items_view(items: Seq<Item>) -> Seq<ItemView> {
    Seq::new(items.len(), |i: int| items[i]@)
}

/// The views of a run of fields.
pub open spec fn fields_view(fields: Seq<Field>) -> Seq<FieldView> {
    Seq::new(fields.len(), |i: int| fields[i]@)
}

/// The fields among `items` as a map from key to value. Nested objects are left
/// out. Where a key occurs more than once, its last value counts.
pub open spec fn object_map(items: Seq<ItemView>) -> Map<Seq<char>, Seq<char>>
    decreases items.len(),
{
    if items.len() == 0 {
        Map::empty()
    } else {
        let before = object_map(items.drop_last());
        match items.last() {
            ItemView::Field(field) => before.insert(field.key, field.value),
            ItemView::Object(_) => before,
        }
    }
}

/// A run of fields as a map from key to value, the last value of a key counting.
pub open spec fn field_map(fields: Seq<FieldView>) -> Map<Seq<char>, Seq<char>>
    decreases fields.len(),
{
    if fields.len() == 0 {
        Map::empty()
    } else {
        field_map(fields.drop_last()).insert(fields.last().key, fields.last().value)
    }
}

/// A key has the value of the last field that bears it.
pub proof fn lemma_field_map_found(fields: Seq<FieldView>, at: int)
    requires
        0 <= at < fields.len(),
        forall|j: int| at < j < fields.len() ==> (#[trigger] fields[j]).key != fields[at].key,
    ensures
        field_map(fields).contains_key(fields[at].key),
        field_map(fields)[fields[at].key] == fields[at].value,
    decreases fields.len(),
{
    if at < fields.len() - 1 {
        lemma_field_map_found(fields.drop_last(), at);
    }
}

/// A key that no field bears is not in the map.
pub proof fn lemma_field_map_absent(fields: Seq<FieldView>, key: Seq<char>)
    requires
        forall|j: int| 0 <= j < fields.len() ==> (#[trigger] fields[j]).key != key,
    ensures
        !field_map(fields).contains_key(key),
    decreases fields.len(),
{
    if fields.len() > 0 {
        lemma_field_map_absent(fields.drop_last(), key);
    }
}

/// The fields of one object, by key.
#[derive(Debug)]
pub struct ObjectMap {
    fields: Vec<Field>,
}

impl View for ObjectMap {
    type V = Map<Seq<char>, Seq<char>>;

    closed spec fn view(&self) -> Map<Seq<char>, Seq<char>> {
        field_map(fields_view(self.fields@))
    }
}

impl ObjectMap {
    /// The value of the field `key`.
    pub fn get(&self, key: &str) -> (out: Option<&String>)
        ensures
            match out {
                Some(value) => self@.contains_key(key@) && self@[key@] == value@,
                None => !self@.contains_key(key@),
            },
    {
        let wanted = String::from_str(key);
        let ghost fields = fields_view(self.fields@);
        let mut i: usize = self.fields.len();
        while i > 0
            invariant
                i <= self.fields.len(),
                wanted@ == key@,
                fields == fields_view(self.fields@),
                forall|j: int| i <= j < fields.len() ==> (#[trigger] fields[j]).key != key@,
            decreases i,
        {
            i -= 1;
            if self.fields[i].key == wanted {
                proof {
                    lemma_field_map_found(fields, i as int);
                }
                return Some(&self.fields[i].value);
            }
        }
        proof {
            lemma_field_map_absent(fields, key@);
        }
        None
    }
}

/// Projects the children of an object to its fields by key. Nested objects are
/// left out; of two fields with one key the later counts.
pub fn get_object_map(items: Vec<Item>) -> (out: ObjectMap)
    ensures
        out@ == object_map(items_view(items@)),
{
    let ghost given = items_view(items@);
    let mut fields: Vec<Field> = Vec::new();
    for item in it: items
        invariant
            given == items_view(it.seq()),
            field_map(fields_view(fields@)) == object_map(given.take(it.index())),
    {
        let ghost before = fields_view(fields@);
        assert(given.take(it.index() + 1).drop_last() =~= given.take(it.index()));
        match item {
            Item::Field(field) => {
                fields.push(field);
                assert(fields_view(fields@).drop_last() =~= before);
            },
            Item::Object(_) => {},
        }
    }
    assert(given.take(given.len() as int) =~= given);
    ObjectMap { fields }
}

} // verus!
