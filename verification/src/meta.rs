//! Annotations as plain data: what stands between the parentheses of an
//! attribute, already split into keys and values.

use crate::text::{chars_of, same_text, string_of};
use vstd::prelude::*;

verus! {

/// The views of the elements of a sequence.
pub open spec fn views<T: View>(v: Seq<T>) -> Seq<T::V> {
    Seq::new(v.len(), |i: int| v[i]@)
}

/// Adding an element at the end adds its view at the end.
pub proof fn lemma_views_push<T: View>(v: Seq<T>, x: T)
    ensures
        views(v.push(x)) == views(v).push(x@),
{
    assert(views(v.push(x)) =~= views(v).push(x@));
}

/// The views of a prefix are the prefix of the views.
pub proof fn lemma_views_take<T: View>(v: Seq<T>, n: int)
    requires
        0 <= n <= v.len(),
    ensures
        views(v.take(n)) == views(v).take(n),
{
    assert(views(v.take(n)) =~= views(v).take(n));
}

/// The view of an optional string.
pub open spec fn opt_text(o: Option<String>) -> Option<Seq<char>> {
    match o {
        Some(s) => Some(s@),
        None => None,
    }
}

/// The view of an optional reference to a string.
pub open spec fn opt_ref_text(o: Option<&String>) -> Option<Seq<char>> {
    match o {
        Some(s) => Some(s@),
        None => None,
    }
}

/// A copy of a string.
pub fn copy_text(s: &str) -> (r: String)
    ensures
        r@ == s@,
{
    string_of(&chars_of(s))
}

/// A copy of an optional string.
pub fn copy_opt_text(o: &Option<String>) -> (r: Option<String>)
    ensures
        opt_text(r) == opt_text(*o),
{
    match o {
        Some(s) => Some(copy_text(s.as_str())),
        None => None,
    }
}

/// What follows a key inside an annotation.
#[derive(Debug, PartialEq, Eq)]
pub enum MetaValue {
    /// Nothing: the key stands alone, as in `into`.
    Absent,
    /// `=` and a string literal, as in `method = "GET"`; holds the literal's
    /// value.
    Literal(String),
    /// `=` and anything else, as in `response = User`; holds the tokens as
    /// text.
    Tokens(String),
}

/// The model of a `MetaValue`.
pub enum MetaValueModel {
    Absent,
    Literal(Seq<char>),
    Tokens(Seq<char>),
}

impl View for MetaValue {
    type V = MetaValueModel;

    open spec fn view(&self) -> MetaValueModel {
        match self {
            MetaValue::Absent => MetaValueModel::Absent,
            MetaValue::Literal(s) => MetaValueModel::Literal(s@),
            MetaValue::Tokens(s) => MetaValueModel::Tokens(s@),
        }
    }
}

/// One entry of an annotation: a key and what follows it.
#[derive(Debug, PartialEq, Eq)]
pub struct MetaItem {
    pub key: String,
    pub value: MetaValue,
}

/// The model of a `MetaItem`.
pub struct MetaItemModel {
    pub key: Seq<char>,
    pub value: MetaValueModel,
}

impl View for MetaItem {
    type V = MetaItemModel;

    open spec fn view(&self) -> MetaItemModel {
        MetaItemModel { key: self.key@, value: self.value@ }
    }
}

/// One attribute: its name, and the entries between its parentheses.
#[derive(Debug, PartialEq, Eq)]
pub struct Attribute {
    pub path: String,
    pub items: Vec<MetaItem>,
}

/// The model of an `Attribute`.
pub struct AttributeModel {
    pub path: Seq<char>,
    pub items: Seq<MetaItemModel>,
}

impl View for Attribute {
    type V = AttributeModel;

    open spec fn view(&self) -> AttributeModel {
        AttributeModel { path: self.path@, items: views(self.items@) }
    }
}

impl MetaValue {
    /// A copy of this value.
    pub fn duplicate(&self) -> (r: MetaValue)
        ensures
            r@ == self@,
    {
        match self {
            MetaValue::Absent => MetaValue::Absent,
            MetaValue::Literal(s) => MetaValue::Literal(copy_text(s.as_str())),
            MetaValue::Tokens(s) => MetaValue::Tokens(copy_text(s.as_str())),
        }
    }
}

impl MetaItem {
    /// An entry that is a key alone.
    pub fn flag(key: &str) -> (r: MetaItem)
        ensures
            r@ == (MetaItemModel { key: key@, value: MetaValueModel::Absent }),
    {
        MetaItem { key: copy_text(key), value: MetaValue::Absent }
    }

    /// An entry `key = "literal"`.
    pub fn literal(key: &str, literal: &str) -> (r: MetaItem)
        ensures
            r@ == (MetaItemModel { key: key@, value: MetaValueModel::Literal(literal@) }),
    {
        MetaItem { key: copy_text(key), value: MetaValue::Literal(copy_text(literal)) }
    }

    /// An entry `key = tokens`, where the tokens are no string literal.
    pub fn tokens(key: &str, tokens: &str) -> (r: MetaItem)
        ensures
            r@ == (MetaItemModel { key: key@, value: MetaValueModel::Tokens(tokens@) }),
    {
        MetaItem { key: copy_text(key), value: MetaValue::Tokens(copy_text(tokens)) }
    }

    /// A copy of this entry.
    pub fn duplicate(&self) -> (r: MetaItem)
        ensures
            r@ == self@,
    {
        MetaItem { key: copy_text(self.key.as_str()), value: self.value.duplicate() }
    }
}

impl Attribute {
    /// An attribute with the given name and entries.
    pub fn new(path: &str, items: Vec<MetaItem>) -> (r: Attribute)
        ensures
            r@ == (AttributeModel { path: path@, items: views(items@) }),
    {
        Attribute { path: copy_text(path), items }
    }
}

/// The entries of the attributes called `name`, in order.
pub open spec fn items_named(attrs: Seq<AttributeModel>, name: Seq<char>) -> Seq<MetaItemModel>
    decreases attrs.len(),
{
    if attrs.len() == 0 {
        Seq::empty()
    } else {
        let before = items_named(attrs.drop_last(), name);
        if attrs.last().path == name {
            before + attrs.last().items
        } else {
            before
        }
    }
}

/// Collects the entries of the attributes called `name`, in order; attributes
/// of any other name are passed over.
pub fn collect_items(attrs: &Vec<Attribute>, name: &str) -> (r: Vec<MetaItem>)
    ensures
        views(r@) == items_named(views(attrs@), name@),
{
    let mut out: Vec<MetaItem> = Vec::new();
    let mut i: usize = 0;
    proof {
        assert(views(attrs@).take(0) =~= Seq::<AttributeModel>::empty());
        assert(views(out@) =~= Seq::<MetaItemModel>::empty());
    }
    while i < attrs.len()
        invariant
            i <= attrs.len(),
            views(out@) == items_named(views(attrs@).take(i as int), name@),
        decreases attrs.len() - i,
    {
        let attr = &attrs[i];
        let ghost before = views(out@);
        proof {
            let next = views(attrs@).take(i + 1);
            assert(next.drop_last() == views(attrs@).take(i as int));
            assert(next.last() == attr@);
        }
        if same_text(attr.path.as_str(), name) {
            let mut j: usize = 0;
            proof {
                assert(attr@.items.take(0) =~= Seq::<MetaItemModel>::empty());
                assert(before + Seq::<MetaItemModel>::empty() == before);
            }
            while j < attr.items.len()
                invariant
                    j <= attr.items.len(),
                    views(out@) == before + attr@.items.take(j as int),
                decreases attr.items.len() - j,
            {
                let copy = attr.items[j].duplicate();
                proof {
                    lemma_views_push(out@, copy);
                    assert(attr@.items.take(j + 1) == attr@.items.take(j as int).push(copy@));
                    assert((before + attr@.items.take(j as int)).push(copy@) == before
                        + attr@.items.take(j + 1));
                }
                out.push(copy);
                j += 1;
            }
            proof {
                assert(attr@.items.take(attr.items.len() as int) == attr@.items);
            }
        }
        i += 1;
    }
    proof {
        assert(views(attrs@).take(attrs.len() as int) == views(attrs@));
    }
    out
}

/// The attributes called `name`, in order.
pub open spec fn attributes_named(attrs: Seq<AttributeModel>, name: Seq<char>) -> Seq<
    AttributeModel,
>
    decreases attrs.len(),
{
    if attrs.len() == 0 {
        Seq::empty()
    } else {
        let before = attributes_named(attrs.drop_last(), name);
        if attrs.last().path == name {
            before.push(attrs.last())
        } else {
            before
        }
    }
}

impl Attribute {
    /// A copy of this attribute.
    pub fn duplicate(&self) -> (r: Attribute)
        ensures
            r@ == self@,
    {
        let mut items: Vec<MetaItem> = Vec::new();
        let mut i: usize = 0;
        while i < self.items.len()
            invariant
                i <= self.items.len(),
                views(items@) == views(self.items@).take(i as int),
            decreases self.items.len() - i,
        {
            let copy = self.items[i].duplicate();
            proof {
                lemma_views_push(items@, copy);
                assert(views(self.items@).take(i + 1) == views(self.items@).take(i as int).push(
                    copy@,
                ));
            }
            items.push(copy);
            i += 1;
        }
        proof {
            assert(views(self.items@).take(self.items.len() as int) == views(self.items@));
        }
        Attribute { path: copy_text(self.path.as_str()), items }
    }
}

/// Copies of the attributes called `name`, in order.
pub fn select_attributes(attrs: &Vec<Attribute>, name: &str) -> (r: Vec<Attribute>)
    ensures
        views(r@) == attributes_named(views(attrs@), name@),
{
    let mut out: Vec<Attribute> = Vec::new();
    let mut i: usize = 0;
    proof {
        assert(views(attrs@).take(0) =~= Seq::<AttributeModel>::empty());
        assert(views(out@) =~= Seq::<AttributeModel>::empty());
    }
    while i < attrs.len()
        invariant
            i <= attrs.len(),
            views(out@) == attributes_named(views(attrs@).take(i as int), name@),
        decreases attrs.len() - i,
    {
        proof {
            let next = views(attrs@).take(i + 1);
            assert(next.drop_last() == views(attrs@).take(i as int));
            assert(next.last() == attrs@[i as int]@);
        }
        if same_text(attrs[i].path.as_str(), name) {
            let copy = attrs[i].duplicate();
            proof {
                lemma_views_push(out@, copy);
            }
            out.push(copy);
        }
        i += 1;
    }
    proof {
        assert(views(attrs@).take(attrs.len() as int) == views(attrs@));
    }
    out
}

/// The documentation attributes among `attrs`, which a builder takes over
/// from its request type.
pub fn extract_doc_attributes(attrs: &Vec<Attribute>) -> (r: Vec<Attribute>)
    ensures
        views(r@) == attributes_named(views(attrs@), "doc"@),
{
    select_attributes(attrs, "doc")
}

/// The serialization attributes among `attrs`, which decide under which name
/// a query or body field travels.
pub fn extract_serde_attributes(attrs: &Vec<Attribute>) -> (r: Vec<Attribute>)
    ensures
        views(r@) == attributes_named(views(attrs@), "serde"@),
{
    select_attributes(attrs, "serde")
}

} // verus!
