//! Annotations as they are written on a type and on its fields.

use vstd::prelude::*;

verus! {

/// How a string literal was written.
#[derive(Debug, Clone, Copy, PartialEq, Eq, Structural)]
pub enum StrStyle {
    /// An ordinary string with escapes, like `"foo"`.
    Cooked,
    /// A raw string, like `r##"foo"##`, with the number of `#` signs.
    Raw(usize),
}

/// A literal inside an annotation.
#[derive(Debug)]
pub enum Lit {
    /// A string, `"foo"`.
    Str(String, StrStyle),
    /// A byte string, `b"foo"`.
    ByteStr(Vec<u8>, StrStyle),
    /// A byte, `b'f'`.
    Byte(u8),
    /// A character, `'a'`.
    Char(char),
    /// An integer, `1`.
    Int(u64),
    /// A number with a fraction or an exponent, by its text.
    Float(String),
    /// `true` or `false`.
    Bool(bool),
}

/// One item of an annotation.
#[derive(Debug)]
pub enum MetaItem {
    /// A bare name, like `no`.
    Word(String),
    /// A name with items in brackets, like `check_value(tag = "T")`.
    List(String, Vec<NestedMetaItem>),
    /// A name with a literal, like `tag = "T"`.
    NameValue(String, Lit),
}

/// What can stand between the brackets of a list.
#[derive(Debug)]
pub enum NestedMetaItem {
    /// An item with a name.
    MetaItem(MetaItem),
    /// A literal on its own.
    Literal(Lit),
}

/// An attribute on a type or on a field.
#[derive(Debug)]
pub struct Attribute {
    /// What stands between `#[` and `]`.
    pub value: MetaItem,
}

/// A field as it is declared: its attributes, in source order.
#[derive(Debug)]
pub struct FieldDecl {
    pub attrs: Vec<Attribute>,
}

/// A variant of an enum, or the body of a record: its fields, in
/// declaration order.
#[derive(Debug)]
pub struct VariantDecl {
    pub fields: Vec<FieldDecl>,
}

/// A type as it is declared. A record has one variant.
#[derive(Debug)]
pub struct TypeDecl {
    pub attrs: Vec<Attribute>,
    pub variants: Vec<VariantDecl>,
}

impl MetaItem {
    /// The name of the item, whatever its form.
    pub open spec fn spec_name(self) -> Seq<char> {
        match self {
            MetaItem::Word(name) => name@,
            MetaItem::List(name, _) => name@,
            MetaItem::NameValue(name, _) => name@,
        }
    }

    /// The name of the item, whatever its form.
    pub fn name(&self) -> (name: &String)
        ensures
            name@ == self.spec_name(),
    {
        match self {
            MetaItem::Word(name) => name,
            MetaItem::List(name, _) => name,
            MetaItem::NameValue(name, _) => name,
        }
    }
}

impl Attribute {
    /// The name of the attribute: that of its item.
    pub fn name(&self) -> (name: &String)
        ensures
            name@ == self.value.spec_name(),
    {
        self.value.name()
    }
}

} // verus!
