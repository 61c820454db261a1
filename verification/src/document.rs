//! The catalog document.
//!
//! The document is a `toml_edit` document, which keeps comments, spacing
//! and key order while single values are replaced. Verus cannot look into
//! it, so its contents are given a mathematical model, [`TomlNode`], and
//! each `toml_edit` call that the crate makes is stated over that model.

use vstd::prelude::*;

verus! {

/// What an item of a document holds, as far as the catalog is concerned.
pub enum TomlNode {
    /// Nothing: the item that stands for a missing entry.
    Absent,
    /// A string value.
    Text(Seq<char>),
    /// An inline table, `{ key = value, .. }`, by key.
    Inline(Map<Seq<char>, TomlNode>),
    /// A table with a header of its own or with dotted keys, by key.
    Table(Map<Seq<char>, TomlNode>),
    /// Any other value: a number, an array, an array of tables.
    Other,
}

impl TomlNode {
    /// Whether this is a table of either form.
    pub open spec fn is_table_like(self) -> bool {
        self is Inline || self is Table
    }

    /// The string that this node is, if it is one.
    pub open spec fn text(self) -> Option<Seq<char>> {
        match self {
            TomlNode::Text(s) => Some(s),
            _ => None,
        }
    }

    /// What stands under `key` in a table of either form; `Absent` where
    /// the key is missing or this is no table.
    pub open spec fn child(self, key: Seq<char>) -> TomlNode {
        match self {
            TomlNode::Inline(m) => if m.dom().contains(key) {
                m[key]
            } else {
                TomlNode::Absent
            },
            TomlNode::Table(m) => if m.dom().contains(key) {
                m[key]
            } else {
                TomlNode::Absent
            },
            _ => TomlNode::Absent,
        }
    }

    /// This table with `child` under `key`; with an `Absent` child the
    /// key is gone. Anything but a table stays as it is.
    pub open spec fn with_child(self, key: Seq<char>, child: TomlNode) -> TomlNode {
        match self {
            TomlNode::Inline(m) => TomlNode::Inline(
                if child is Absent {
                    m.remove(key)
                } else {
                    m.insert(key, child)
                },
            ),
            TomlNode::Table(m) => TomlNode::Table(
                if child is Absent {
                    m.remove(key)
                } else {
                    m.insert(key, child)
                },
            ),
            _ => self,
        }
    }

    /// The string under `key`, if there is one.
    pub open spec fn text_at(self, key: Seq<char>) -> Option<Seq<char>> {
        self.child(key).text()
    }
}

/// What was put under a key is what stands there, and the other keys are
/// as before.
pub proof fn lemma_with_child_reads(node: TomlNode, key: Seq<char>, child: TomlNode, other: Seq<char>)
    requires
        node.is_table_like(),
    ensures
        node.with_child(key, child).child(key) == child,
        other != key ==> node.with_child(key, child).child(other) == node.child(other),
        node.with_child(key, child) is Inline <==> node is Inline,
        node.with_child(key, child) is Table <==> node is Table,
{
}

/// Makes `toml_edit::Item` known: a value, a table, an array of tables or
/// nothing. Nothing is known of what is inside but through [`item_node`].
#[verifier::external_type_specification]
#[verifier::external_body]
pub struct ExItem(toml_edit::Item);

/// Makes `toml_edit::DocumentMut` known: a document that can be edited.
/// Nothing is known of what is inside but through [`document_node`].
#[verifier::external_type_specification]
#[verifier::external_body]
pub struct ExDocumentMut(toml_edit::DocumentMut);

/// Makes `toml_edit::Decor` known: the spacing and comments that stand
/// before and behind a value. It is carried from one value to another
/// and never looked into.
#[verifier::external_type_specification]
#[verifier::external_body]
pub struct ExDecor(toml_edit::Decor);

/// Makes `toml_edit::TomlError` known: the error of reading a document.
#[verifier::external_type_specification]
#[verifier::external_body]
pub struct ExTomlError(toml_edit::TomlError);

/// What an item holds. A table holds the entries that `get` finds: an
/// entry whose item is `Item::None` counts as missing.
pub uninterp spec fn item_node(item: toml_edit::Item) -> TomlNode;

/// The keys of a table with a header in the order in which `iter` walks
/// them; empty for every other item.
pub uninterp spec fn table_key_order(item: toml_edit::Item) -> Seq<Seq<char>>;

/// The decoration of an item that is a value, as `Value::decor` gives it;
/// nothing for an item that is no value.
pub uninterp spec fn item_decoration(item: toml_edit::Item) -> Option<toml_edit::Decor>;

/// What a document holds: the contents of its root table.
pub uninterp spec fn document_node(doc: toml_edit::DocumentMut) -> TomlNode;

/// What a text holds when read as a TOML document, or nothing where it
/// is not one.
pub uninterp spec fn parsed_toml(text: Seq<char>) -> Option<TomlNode>;

/// The text that a document is written as.
pub uninterp spec fn rendered_toml(doc: toml_edit::DocumentMut) -> Seq<char>;

/// `Item::as_str` gives the string of a string value and nothing for any
/// other item.
pub assume_specification[ toml_edit::Item::as_str ](item: &toml_edit::Item) -> (r: Option<&str>)
    ensures
        match r {
            Some(t) => item_node(*item) == TomlNode::Text(t@),
            None => !(item_node(*item) is Text),
        },
;

/// `Item::is_none` tells the item that stands for a missing entry.
pub assume_specification[ toml_edit::Item::is_none ](item: &toml_edit::Item) -> (r: bool)
    ensures
        r == (item_node(*item) is Absent),
;

/// `Item::is_table` tells a table with a header or dotted keys.
pub assume_specification[ toml_edit::Item::is_table ](item: &toml_edit::Item) -> (r: bool)
    ensures
        r == (item_node(*item) is Table),
;

/// `Item::is_inline_table` tells an inline table.
pub assume_specification[ toml_edit::Item::is_inline_table ](item: &toml_edit::Item) -> (r: bool)
    ensures
        r == (item_node(*item) is Inline),
;

/// `Item::get` with a string key: the entry of a table of either form,
/// and nothing where the key is missing, holds `Item::None`, or the item
/// is no table.
#[verifier::external_body]
pub(crate) fn item_child<'a>(item: &'a toml_edit::Item, key: &str) -> (r: Option<&'a toml_edit::Item>)
    ensures
        match r {
            Some(c) => item_node(*c) == item_node(*item).child(key@) && !(item_node(*c) is Absent),
            None => item_node(*item).child(key@) is Absent,
        },
{
    item.get(key)
}

/// `TableLike::get_mut` on a table of either form: a mutable borrow of
/// the entry under `key`. What the caller leaves in the entry is what the
/// table holds under `key` afterwards; nothing else changes, and nothing
/// at all where the caller leaves the entry as it was. The call itself
/// changes nothing: an entry that the caller does not touch leaves the
/// whole item the value that it was.
#[verifier::external_body]
pub(crate) fn item_child_mut<'a>(item: &'a mut toml_edit::Item, key: &str) -> (r: Option<
    &'a mut toml_edit::Item,
>)
    ensures
        match r {
            Some(c) => {
                &&& item_node(*c) == item_node(*old(item)).child(key@)
                &&& item_node(*old(item)).is_table_like()
                &&& item_node(*final(item)) == if item_node(*final(c)) == item_node(*c) {
                    item_node(*old(item))
                } else {
                    item_node(*old(item)).with_child(key@, item_node(*final(c)))
                }
                &&& *final(c) == *c ==> *final(item) == *old(item)
            },
            None => {
                &&& item_node(*old(item)).child(key@) is Absent
                &&& *final(item) == *old(item)
            },
        },
{
    item.as_table_like_mut()?.get_mut(key)
}

/// `Table::iter` on a table with a header: its keys, in the order of the
/// walk. Each key under which something stands comes once.
#[verifier::external_body]
pub(crate) fn table_keys(item: &toml_edit::Item) -> (r: Vec<String>)
    ensures
        crate::text::texts(r@) == table_key_order(*item),
        !(item_node(*item) is Table) ==> r@.len() == 0,
        (forall|i: int, j: int| 0 <= i < j < r@.len() ==> r@[i]@ != r@[j]@),
        (forall|k: Seq<char>|
            crate::text::texts(r@).contains(k) <==> (!(#[trigger] item_node(*item).child(k) is Absent)
                && item_node(*item) is Table)),
{
    match item.as_table() {
        Some(t) => t.iter().map(|(k, _)| k.to_string()).collect(),
        None => Vec::new(),
    }
}

/// `Value::decor` of an item that is a value, copied with its `Clone`;
/// nothing for an item that is no value. A string and an inline table
/// are values.
#[verifier::external_body]
pub(crate) fn item_decor(item: &toml_edit::Item) -> (r: Option<toml_edit::Decor>)
    ensures
        r == item_decoration(*item),
        item_node(*item) is Text || item_node(*item) is Inline ==> r is Some,
{
    item.as_value().map(|v| v.decor().clone())
}

/// `Value::decor_mut` of an item that is a value, assigned: the value has
/// the decoration afterwards and holds what it held. An item that is no
/// value is left alone.
#[verifier::external_body]
pub(crate) fn item_set_decor(item: &mut toml_edit::Item, decor: toml_edit::Decor)
    ensures
        item_node(*final(item)) == item_node(*old(item)),
        item_decoration(*old(item)) is Some ==> item_decoration(*final(item)) == Some(decor),
        item_decoration(*old(item)) is None ==> item_decoration(*final(item)) is None,
{
    if let Some(v) = item.as_value_mut() {
        *v.decor_mut() = decor;
    }
}

/// `toml_edit::value` with a string: an item that is that string, a
/// value with a decoration of its own.
#[verifier::external_body]
pub(crate) fn text_item(text: &str) -> (r: toml_edit::Item)
    ensures
        item_node(r) == TomlNode::Text(text@),
        item_decoration(r) is Some,
{
    toml_edit::value(text)
}

/// Makes the item the string `text`. Where a value stood there, the new
/// string takes over its decoration, the spacing and comments around it,
/// so that the text around the value stays as it was written.
pub(crate) fn item_set_text(item: &mut toml_edit::Item, text: &str)
    ensures
        item_node(*final(item)) == TomlNode::Text(text@),
        item_decoration(*final(item)) is Some,
        item_decoration(*old(item)) is Some || item_node(*old(item)) is Text || item_node(*old(item))
            is Inline ==> item_decoration(*final(item)) == item_decoration(*old(item)),
{
    let kept = item_decor(item);
    let mut fresh = text_item(text);
    match kept {
        Some(decor) => {
            item_set_decor(&mut fresh, decor);
        },
        None => {},
    }
    *item = fresh;
}

/// `TableLike::insert` on a table of either form: afterwards the table
/// holds `child` under `key`, in place of what stood there, and its other
/// entries as before. Any other item is left alone. An inline table takes
/// values only: `toml_edit` panics on an item that is nothing, and turns
/// a table with a header into an inline one.
#[verifier::external_body]
pub(crate) fn item_insert(item: &mut toml_edit::Item, key: &str, child: toml_edit::Item)
    requires
        item_node(*old(item)) is Inline ==> !(item_node(child) is Absent) && !(item_node(child)
            is Table),
    ensures
        item_node(*final(item)) == item_node(*old(item)).with_child(key@, item_node(child)),
{
    if let Some(t) = item.as_table_like_mut() {
        t.insert(key, child);
    }
}

/// `toml_edit::table`: an empty table with a header of its own.
#[verifier::external_body]
pub(crate) fn new_table() -> (r: toml_edit::Item)
    ensures
        item_node(r) == TomlNode::Table(Map::empty()),
{
    toml_edit::table()
}

/// `InlineTable::new`: an empty inline table.
#[verifier::external_body]
pub(crate) fn new_inline_table() -> (r: toml_edit::Item)
    ensures
        item_node(r) == TomlNode::Inline(Map::empty()),
{
    toml_edit::Item::Value(toml_edit::Value::InlineTable(toml_edit::InlineTable::new()))
}

/// `TableLike::fmt` on a table of either form: the spacing of its
/// entries is set anew, and what it holds stays as it is.
#[verifier::external_body]
pub(crate) fn item_format(item: &mut toml_edit::Item)
    ensures
        item_node(*final(item)) == item_node(*old(item)),
{
    if let Some(t) = item.as_table_like_mut() {
        t.fmt();
    }
}

/// What an entry holds that names something by `key` and takes its
/// version from the alias `alias`.
pub open spec fn reference_entry(key: Seq<char>, name: Seq<char>, alias: Seq<char>) -> TomlNode {
    TomlNode::Inline(
        Map::<Seq<char>, TomlNode>::empty().insert(key, TomlNode::Text(name)).insert(
            "version"@,
            TomlNode::Inline(Map::<Seq<char>, TomlNode>::empty().insert("ref"@, TomlNode::Text(alias))),
        ),
    )
}

/// Builds the inline table
/// `{ <key> = "<name>", version = { ref = "<alias>" } }`.
pub(crate) fn new_reference_entry(key: &str, name: &str, alias: &str) -> (r: toml_edit::Item)
    ensures
        item_node(r) == reference_entry(key@, name@, alias@),
{
    let mut reference = new_inline_table();
    item_insert(&mut reference, "ref", text_item(alias));
    item_format(&mut reference);
    let mut entry = new_inline_table();
    item_insert(&mut entry, key, text_item(name));
    item_insert(&mut entry, "version", reference);
    item_format(&mut entry);
    entry
}

/// `DocumentMut::as_item`: the root of the document.
pub assume_specification[ toml_edit::DocumentMut::as_item ](doc: &toml_edit::DocumentMut) -> (r:
    &toml_edit::Item)
    ensures
        item_node(*r) == document_node(*doc),
;

/// `DocumentMut::as_item_mut`: a mutable borrow of the root. What the
/// caller leaves in it is what the document holds afterwards, and a root
/// that the caller does not touch leaves the document the value that it
/// was.
pub assume_specification[ toml_edit::DocumentMut::as_item_mut ](
    doc: &mut toml_edit::DocumentMut,
) -> (r: &mut toml_edit::Item)
    ensures
        item_node(*r) == document_node(*old(doc)),
        document_node(*final(doc)) == item_node(*final(r)),
        *final(r) == *r ==> *final(doc) == *old(doc),
;

/// Copies a document with the `Clone` of `DocumentMut`, which copies
/// every part of it: the copy is the same value as the document.
#[verifier::external_body]
pub(crate) fn copy_document(doc: &toml_edit::DocumentMut) -> (r: toml_edit::DocumentMut)
    ensures
        r == *doc,
{
    doc.clone()
}

/// Parses a text with the `FromStr` of `DocumentMut`. A document that was
/// read has a table at its root.
#[verifier::external_body]
pub(crate) fn parse_toml(text: &str) -> (r: Result<toml_edit::DocumentMut, toml_edit::TomlError>)
    ensures
        match r {
            Ok(doc) => parsed_toml(text@) == Some(document_node(doc)) && document_node(doc) is Table,
            Err(_) => parsed_toml(text@) is None,
        },
{
    text.parse::<toml_edit::DocumentMut>()
}

/// The message of a parse error, from its `Display`.
#[verifier::external_body]
pub(crate) fn toml_error_message(error: &toml_edit::TomlError) -> (r: String) {
    error.to_string()
}

/// Writes the document out with its `Display`. The root has to be a
/// table: `toml_edit` panics on a document whose root was replaced by
/// something else.
#[verifier::external_body]
pub(crate) fn render_toml(doc: &toml_edit::DocumentMut) -> (r: String)
    requires
        document_node(*doc) is Table,
    ensures
        r@ == rendered_toml(*doc),
{
    doc.to_string()
}

} // verus!
