//! The entities read from the document, the normalised type model, and the
//! registry entries synthesised from it.
use vstd::prelude::*;

verus! {

/// A method as read from the document: a four-column table.
#[derive(Debug)]
pub struct TelegramMethod {
    pub name: String,
    pub docs: Vec<String>,
    pub fields: Vec<TelegramField>,
    pub return_type: TelegramFieldType,
}

/// A type as read from the document: a three-column table.
#[derive(Debug)]
pub struct TelegramType {
    pub name: String,
    pub docs: Vec<String>,
    pub fields: Vec<TelegramField>,
}

/// One row of an entity table.
#[derive(Debug)]
pub struct TelegramField {
    pub name: String,
    pub doc: String,
    pub telegram_type: TelegramFieldType,
}

/// A free-text type phrase such as `Array of PhotoSize` or `InputFile or String`.
#[derive(Debug)]
pub struct TelegramFieldType {
    pub name: String,
    pub is_optional: bool,
}

#[derive(Debug)]
pub enum TelegramTypeOrMethod {
    Type(TelegramType),
    Method(TelegramMethod),
}

/// A field of the normalised model.
#[derive(Debug)]
pub struct Field {
    pub name: String,
    pub field_type: FieldType,
    pub doc: String,
}

/// An entity of the normalised model.
#[derive(Debug)]
pub struct Type {
    pub name: String,
    pub docs: Vec<String>,
    pub fields: Vec<Field>,
    pub kind: TypeKind,
}

/// A normalised field type: `array_count` levels of array around `name`, which is a
/// plain type (`Simple`) or a union of the listed (variant name, variant type) pairs.
#[derive(Debug, Clone)]
pub struct FieldType {
    pub array_count: usize,
    pub is_optional: bool,
    pub doc: Option<String>,
    pub name: String,
    pub kind: FieldKind,
    pub is_boxed: bool,
}

#[derive(Debug, Clone)]
pub enum TypeKind {
    Type,
    Method(FieldType),
    Enum,
}

#[derive(Debug, Clone)]
pub enum FieldKind {
    Simple,
    Enum(Vec<(String, String)>),
}

/// A registry entry: one synthesised declaration and the names it is filed under.
#[derive(Debug, Clone)]
pub struct Module {
    pub kind: TypeKind,
    pub module_name: String,
    pub module_type: String,
    pub contents: String,
}

pub struct FieldTypeModel {
    pub array_count: nat,
    pub is_optional: bool,
    pub doc: Option<Seq<char>>,
    pub name: Seq<char>,
    /// `None` for a simple type; the variants of a union.
    pub variants: Option<Seq<(Seq<char>, Seq<char>)>>,
    pub is_boxed: bool,
}

pub enum TypeKindModel {
    Type,
    Method(FieldTypeModel),
    Enum,
}

pub struct ModuleModel {
    pub kind: TypeKindModel,
    pub module_name: Seq<char>,
    pub module_type: Seq<char>,
    pub contents: Seq<char>,
}

pub open spec fn pairs_view(v: Seq<(String, String)>) -> Seq<(Seq<char>, Seq<char>)> {
    v.map_values(|p: (String, String)| (p.0@, p.1@))
}

pub open spec fn strings_view(v: Seq<String>) -> Seq<Seq<char>> {
    v.map_values(|s: String| s@)
}

impl View for FieldKind {
    type V = Option<Seq<(Seq<char>, Seq<char>)>>;

    open spec fn view(&self) -> Self::V {
        match self {
            FieldKind::Simple => None,
            FieldKind::Enum(v) => Some(pairs_view(v@)),
        }
    }
}

impl View for FieldType {
    type V = FieldTypeModel;

    open spec fn view(&self) -> FieldTypeModel {
        FieldTypeModel {
            array_count: self.array_count as nat,
            is_optional: self.is_optional,
            doc: match self.doc {
                Some(d) => Some(d@),
                None => None,
            },
            name: self.name@,
            variants: self.kind@,
            is_boxed: self.is_boxed,
        }
    }
}

impl View for TypeKind {
    type V = TypeKindModel;

    open spec fn view(&self) -> TypeKindModel {
        match self {
            TypeKind::Type => TypeKindModel::Type,
            TypeKind::Method(t) => TypeKindModel::Method(t@),
            TypeKind::Enum => TypeKindModel::Enum,
        }
    }
}

impl View for Module {
    type V = ModuleModel;

    open spec fn view(&self) -> ModuleModel {
        ModuleModel {
            kind: self.kind@,
            module_name: self.module_name@,
            module_type: self.module_type@,
            contents: self.contents@,
        }
    }
}

/// Whether two lists of pairs of strings hold the same text.
pub fn same_pairs(a: &Vec<(String, String)>, b: &Vec<(String, String)>) -> (r: bool)
    ensures
        r == (pairs_view(a@) == pairs_view(b@)),
{
    if a.len() != b.len() {
        assert(pairs_view(a@).len() != pairs_view(b@).len());
        return false;
    }
    let mut i: usize = 0;
    while i < a.len()
        invariant
            a.len() == b.len(),
            i <= a.len(),
            forall|j: int| 0 <= j < i ==> pairs_view(a@)[j] == pairs_view(b@)[j],
        decreases a.len() - i,
    {
        if a[i].0 != b[i].0 || a[i].1 != b[i].1 {
            assert(pairs_view(a@)[i as int] != pairs_view(b@)[i as int]);
            return false;
        }
        i += 1;
    }
    assert(pairs_view(a@) =~= pairs_view(b@));
    true
}

fn same_opt_string(a: &Option<String>, b: &Option<String>) -> (r: bool)
    ensures
        r == (match a {
            Some(x) => Some(x@),
            None => None::<Seq<char>>,
        } == match b {
            Some(x) => Some(x@),
            None => None::<Seq<char>>,
        }),
{
    match (a, b) {
        (Some(x), Some(y)) => x.eq(y),
        (None, None) => true,
        _ => false,
    }
}

impl FieldKind {
    pub fn same(&self, o: &FieldKind) -> (r: bool)
        ensures
            r == (self@ == o@),
    {
        match (self, o) {
            (FieldKind::Simple, FieldKind::Simple) => true,
            (FieldKind::Enum(a), FieldKind::Enum(b)) => same_pairs(a, b),
            _ => false,
        }
    }
}

impl FieldType {
    /// Whether `self` and `o` have the same value.
    pub fn same(&self, o: &FieldType) -> (r: bool)
        ensures
            r == (self@ == o@),
    {
        self.array_count == o.array_count && self.is_optional == o.is_optional
            && same_opt_string(&self.doc, &o.doc) && self.name == o.name && self.kind.same(&o.kind)
            && self.is_boxed == o.is_boxed
    }
}

impl TypeKind {
    pub fn same(&self, o: &TypeKind) -> (r: bool)
        ensures
            r == (self@ == o@),
    {
        match (self, o) {
            (TypeKind::Type, TypeKind::Type) => true,
            (TypeKind::Method(a), TypeKind::Method(b)) => a.same(b),
            (TypeKind::Enum, TypeKind::Enum) => true,
            _ => false,
        }
    }

    /// Whether `self` and `o` are the same kind of entry, whatever a method's return
    /// type.
    pub fn same_tag(&self, o: &TypeKind) -> (r: bool)
        ensures
            r == same_tag(self@, o@),
    {
        match (self, o) {
            (TypeKind::Type, TypeKind::Type) => true,
            (TypeKind::Method(_), TypeKind::Method(_)) => true,
            (TypeKind::Enum, TypeKind::Enum) => true,
            _ => false,
        }
    }
}

pub open spec fn same_tag(a: TypeKindModel, b: TypeKindModel) -> bool {
    match (a, b) {
        (TypeKindModel::Type, TypeKindModel::Type) => true,
        (TypeKindModel::Method(_), TypeKindModel::Method(_)) => true,
        (TypeKindModel::Enum, TypeKindModel::Enum) => true,
        _ => false,
    }
}

impl Module {
    /// Whether `self` and `o` have the same value.
    pub fn same(&self, o: &Module) -> (r: bool)
        ensures
            r == (self@ == o@),
    {
        self.kind.same(&o.kind) && self.module_name == o.module_name && self.module_type
            == o.module_type && self.contents == o.contents
    }
}

} // verus!
