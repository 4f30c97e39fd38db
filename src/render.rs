//! Declarations to be emitted, and their source text as the `codegen` crate writes it.
use crate::types::pairs_view;
use vstd::prelude::*;

verus! {

/// A member of an emitted structure.
#[derive(Debug)]
pub struct FieldDecl {
    pub name: String,
    pub ty: String,
    pub doc: String,
    /// Attribute lines written above the member, each as it stands.
    pub annotations: Vec<String>,
    pub vis: String,
}

/// An emitted structure, with the imports of its file.
#[derive(Debug)]
pub struct StructDecl {
    pub imports: Vec<(String, String)>,
    pub name: String,
    pub doc: String,
    pub derives: Vec<String>,
    /// Attributes, each written as `#[...]`.
    pub attrs: Vec<String>,
    pub vis: String,
    pub fields: Vec<FieldDecl>,
}

/// An emitted enumeration whose variants each wrap one value, with the imports of
/// its file.
#[derive(Debug)]
pub struct EnumDecl {
    pub imports: Vec<(String, String)>,
    pub name: String,
    pub derives: Vec<String>,
    /// Lines written above the enumeration as they stand.
    pub raw_lines: Vec<String>,
    pub vis: String,
    pub variants: Vec<(String, String)>,
}

pub struct FieldDeclModel {
    pub name: Seq<char>,
    pub ty: Seq<char>,
    pub doc: Seq<char>,
    pub annotations: Seq<Seq<char>>,
    pub vis: Seq<char>,
}

pub struct StructModel {
    pub imports: Seq<(Seq<char>, Seq<char>)>,
    pub name: Seq<char>,
    pub doc: Seq<char>,
    pub derives: Seq<Seq<char>>,
    pub attrs: Seq<Seq<char>>,
    pub vis: Seq<char>,
    pub fields: Seq<FieldDeclModel>,
}

pub struct EnumModel {
    pub imports: Seq<(Seq<char>, Seq<char>)>,
    pub name: Seq<char>,
    pub derives: Seq<Seq<char>>,
    pub raw_lines: Seq<Seq<char>>,
    pub vis: Seq<char>,
    pub variants: Seq<(Seq<char>, Seq<char>)>,
}

pub open spec fn texts(v: Seq<String>) -> Seq<Seq<char>> {
    v.map_values(|s: String| s@)
}

impl View for FieldDecl {
    type V = FieldDeclModel;

    open spec fn view(&self) -> FieldDeclModel {
        FieldDeclModel {
            name: self.name@,
            ty: self.ty@,
            doc: self.doc@,
            annotations: texts(self.annotations@),
            vis: self.vis@,
        }
    }
}

impl View for StructDecl {
    type V = StructModel;

    open spec fn view(&self) -> StructModel {
        StructModel {
            imports: pairs_view(self.imports@),
            name: self.name@,
            doc: self.doc@,
            derives: texts(self.derives@),
            attrs: texts(self.attrs@),
            vis: self.vis@,
            fields: self.fields@.map_values(|f: FieldDecl| f@),
        }
    }
}

impl View for EnumDecl {
    type V = EnumModel;

    open spec fn view(&self) -> EnumModel {
        EnumModel {
            imports: pairs_view(self.imports@),
            name: self.name@,
            derives: texts(self.derives@),
            raw_lines: texts(self.raw_lines@),
            vis: self.vis@,
            variants: pairs_view(self.variants@),
        }
    }
}

/// The source text that `codegen` writes for a structure.
pub uninterp spec fn struct_source(d: StructModel) -> Seq<char>;

/// The source text that `codegen` writes for an enumeration.
pub uninterp spec fn enum_source(d: EnumModel) -> Seq<char>;

/// The source text that `codegen` writes for the import of `ty` from `path` with
/// visibility `vis`.
pub uninterp spec fn import_source(path: Seq<char>, ty: Seq<char>, vis: Seq<char>) -> Seq<char>;

/// Relies on `codegen::Scope`, `Struct` and `Field`: `Scope::to_string` writes a
/// text that depends on what was put in the scope alone.
#[verifier::external_body]
pub(crate) fn render_struct(d: &StructDecl) -> (r: String)
    ensures
        r@ == struct_source(d@),
{
    let mut scope = codegen::Scope::new();
    for (p, t) in &d.imports { scope.import(p, t); }
    let s = scope.new_struct(&d.name);
    s.doc(&d.doc).vis(&d.vis);
    for x in &d.derives { s.derive(x); }
    for a in &d.attrs { s.attr(a); }
    for f in &d.fields {
        let cf = s.new_field(&f.name, &f.ty);
        cf.doc(&f.doc).vis(&f.vis);
        for a in &f.annotations { cf.annotation(a); }
    }
    scope.to_string()
}

/// Relies on `codegen::Scope`, `Enum` and `Variant`, the raw lines as items of their
/// own before the enumeration: `Scope::to_string` writes a
/// text that depends on what was put in the scope alone.
#[verifier::external_body]
pub(crate) fn render_enum(d: &EnumDecl) -> (r: String)
    ensures
        r@ == enum_source(d@),
{
    let mut scope = codegen::Scope::new();
    for (p, t) in &d.imports { scope.import(p, t); }
    for line in &d.raw_lines { scope.raw(line); }
    let e = scope.new_enum(&d.name);
    e.vis(&d.vis);
    for x in &d.derives { e.derive(x); }
    for (n, t) in &d.variants { e.new_variant(n).tuple(t); }
    scope.to_string()
}

/// Relies on `codegen::Scope::import` and `Import::vis`: the text depends on the
/// path, the type and the visibility alone.
#[verifier::external_body]
pub(crate) fn render_import(path: &str, ty: &str, vis: &str) -> (r: String)
    ensures
        r@ == import_source(path@, ty@, vis@),
{
    let mut scope = codegen::Scope::new();
    scope.import(path, ty).vis(vis);
    scope.to_string()
}

} // verus!
