//! Synthesis of declarations from the normalised model, filed in the registry.
use crate::converter::{array_word, normalized, union_separator};
use crate::registry::{insert_all, insert_result, lemma_insert_again, Collision, Registry};
use crate::render::{
    enum_source, render_enum, render_struct, struct_source, texts, EnumDecl, EnumModel,
    FieldDecl, FieldDeclModel, StructDecl, StructModel,
};
use crate::text::{chars_of, eq_str, has_prefix, has_suffix, string_of, strip_all, views};
use crate::types::{
    pairs_view, strings_view, Field, FieldKind, FieldType, FieldTypeModel, Module, ModuleModel,
    Type, TypeKind, TypeKindModel,
};
use crate::utils::{join, join_with, push_all, snake_case, snake_of};
use vstd::prelude::*;

verus! {

/// Something the synthesiser turns into declarations, filing each union and entity
/// it meets in the registry.
pub trait Generator: Sized {
    type ReturnType;

    /// The entries that synthesising `self` files, in order.
    spec fn entries(&self, return_types: Seq<Seq<char>>) -> Seq<ModuleModel>;

    /// `r` is what synthesising `self` hands back.
    spec fn produces(&self, return_types: Seq<Seq<char>>, r: Self::ReturnType) -> bool;

    /// Synthesises `self`; fails where an entry clashes with one filed before.
    fn generate(self, modules: &mut Registry, return_types: &Vec<String>) -> (r: Result<
        Self::ReturnType,
        Collision,
    >)
        requires
            old(modules).wf(),
        ensures
            final(modules).wf(),
            match r {
                Ok(x) => insert_all(old(modules)@, self.entries(strings_view(return_types@)))
                    == Some(final(modules)@) && self.produces(strings_view(return_types@), x),
                Err(_) => insert_all(old(modules)@, self.entries(strings_view(return_types@)))
                    is None && stopped_at(
                    old(modules)@,
                    self.entries(strings_view(return_types@)),
                    final(modules)@,
                ),
            },
    ;
}

/// Filing `ms` in turn from `s` stopped at a clash with `f` filed: the entries
/// before the clashing one are filed, and nothing after it.
pub open spec fn stopped_at(s: Seq<ModuleModel>, ms: Seq<ModuleModel>, f: Seq<ModuleModel>) -> bool {
    exists|k: int|
        0 <= k < ms.len() && #[trigger] insert_all(s, ms.take(k)) == Some(f) && insert_result(
            f,
            ms[k],
        ) is None
}

/// A stop within `b`, after `a` was filed, is a stop within `a + b`.
pub proof fn lemma_stopped_after(
    s: Seq<ModuleModel>,
    a: Seq<ModuleModel>,
    b: Seq<ModuleModel>,
    s1: Seq<ModuleModel>,
    f: Seq<ModuleModel>,
)
    requires
        insert_all(s, a) == Some(s1),
        stopped_at(s1, b, f),
    ensures
        stopped_at(s, a + b, f),
{
    let k = choose|k: int|
        0 <= k < b.len() && #[trigger] insert_all(s1, b.take(k)) == Some(f) && insert_result(
            f,
            b[k],
        ) is None;
    lemma_insert_all_append(s, a, b.take(k));
    assert((a + b).take(a.len() + k) =~= a + b.take(k));
    assert((a + b)[a.len() + k] == b[k]);
    assert(insert_all(s, (a + b).take(a.len() + k)) == Some(f));
}

/// A stop within `a` is a stop within `a + b`.
pub proof fn lemma_stopped_before(
    s: Seq<ModuleModel>,
    a: Seq<ModuleModel>,
    b: Seq<ModuleModel>,
    f: Seq<ModuleModel>,
)
    requires
        stopped_at(s, a, f),
    ensures
        stopped_at(s, a + b, f),
{
    let k = choose|k: int|
        0 <= k < a.len() && #[trigger] insert_all(s, a.take(k)) == Some(f) && insert_result(
            f,
            a[k],
        ) is None;
    assert((a + b).take(k) =~= a.take(k));
    assert((a + b)[k] == a[k]);
}

pub open spec fn types_import() -> Seq<(Seq<char>, Seq<char>)> {
    seq![("crate::types"@, "*"@)]
}

/// The type as written in a declaration: primitive names mapped, then boxed, wrapped
/// in `Vec` once per array level, and in `Option` where optional.
pub open spec fn type_text(ft: FieldTypeModel) -> Seq<char> {
    let named = if ft.name == "Boolean"@ {
        "bool"@
    } else if ft.name == "Float number"@ {
        "Float"@
    } else if ft.name == "Int"@ {
        "Integer"@
    } else {
        ft.name
    };
    let boxed = if ft.is_boxed {
        "Box<"@ + named + ">"@
    } else {
        named
    };
    let arrays = wrap_vec(ft.array_count, boxed);
    if ft.is_optional {
        "Option<"@ + arrays + ">"@
    } else {
        arrays
    }
}

pub open spec fn wrap_vec(n: nat, s: Seq<char>) -> Seq<char>
    decreases n,
{
    if n == 0 {
        s
    } else {
        "Vec<"@ + wrap_vec((n - 1) as nat, s) + ">"@
    }
}

/// The derives of a union: readable where some method returns it, writable otherwise.
pub open spec fn union_derives(name: Seq<char>, return_types: Seq<Seq<char>>) -> Seq<Seq<char>> {
    if return_types.contains(name) {
        seq!["Debug"@, "Deserialize"@, "Clone"@]
    } else {
        seq!["Debug"@, "Serialize"@]
    }
}

/// The untagged enumeration declared for a union field type.
pub open spec fn union_decl(ft: FieldTypeModel, return_types: Seq<Seq<char>>) -> EnumModel {
    EnumModel {
        imports: types_import(),
        name: ft.name,
        derives: union_derives(ft.name, return_types),
        raw_lines: seq!["#[serde(untagged)]"@],
        vis: "pub"@,
        variants: ft.variants->0,
    }
}

/// The registry entry of a union field type.
pub open spec fn union_module(ft: FieldTypeModel, return_types: Seq<Seq<char>>) -> ModuleModel {
    ModuleModel {
        kind: TypeKindModel::Enum,
        module_name: snake_of(ft.name),
        module_type: ft.name,
        contents: enum_source(union_decl(ft, return_types)),
    }
}

/// The entries filed for a field type: its union's, if it is one.
pub open spec fn union_modules(ft: FieldTypeModel, return_types: Seq<Seq<char>>) -> Seq<
    ModuleModel,
> {
    if ft.variants is Some {
        seq![union_module(ft, return_types)]
    } else {
        Seq::empty()
    }
}

pub open spec fn rename_annotation() -> Seq<char> {
    "#[serde(rename = \"type\")]"@
}

pub open spec fn skip_annotation() -> Seq<char> {
    "#[serde(skip_serializing_if = \"Option::is_none\")]"@
}

/// The member declared for a field: `type` renamed to `type_` and kept as `type` on
/// the wire; an optional field left out of the output when absent.
pub open spec fn field_decl(name: Seq<char>, ft: FieldTypeModel, doc: Seq<char>) -> FieldDeclModel {
    let renamed = name == "type"@;
    FieldDeclModel {
        name: if renamed {
            "type_"@
        } else {
            name
        },
        ty: type_text(ft),
        doc,
        annotations: (if renamed {
            seq![rename_annotation()]
        } else {
            Seq::empty()
        }) + (if ft.is_optional {
            seq![skip_annotation()]
        } else {
            Seq::empty()
        }),
        vis: "pub(crate)"@,
    }
}

/// A field whose type is the entity that holds it is stored boxed.
pub open spec fn boxed_for(owner: Seq<char>, ft: FieldTypeModel) -> FieldTypeModel {
    if ft.name == owner {
        FieldTypeModel { is_boxed: true, ..ft }
    } else {
        ft
    }
}

pub open spec fn field_decls(owner: Seq<char>, fields: Seq<Field>) -> Seq<FieldDeclModel> {
    fields.map_values(|f: Field| field_decl(f.name@, boxed_for(owner, f.field_type@), f.doc@))
}

/// The union entries of the fields, in field order.
pub open spec fn fields_entries(fields: Seq<Field>, return_types: Seq<Seq<char>>) -> Seq<
    ModuleModel,
>
    decreases fields.len(),
{
    if fields.len() == 0 {
        Seq::empty()
    } else {
        fields_entries(fields.drop_last(), return_types) + union_modules(
            fields.last().field_type@,
            return_types,
        )
    }
}

pub open spec fn new_attr() -> Seq<char> {
    "new(vis = \"pub\")"@
}

pub open spec fn set_attr() -> Seq<char> {
    "set(vis = \"pub\")"@
}

pub open spec fn get_attr() -> Seq<char> {
    "get(vis = \"pub\")"@
}

/// Whether a type is read from the service rather than sent to it.
pub open spec fn is_read(name: Seq<char>, return_types: Seq<Seq<char>>) -> bool {
    return_types.contains(name) || name == "WebhookInfo"@
}

pub open spec fn type_derives(name: Seq<char>, return_types: Seq<Seq<char>>) -> Seq<Seq<char>> {
    seq!["Debug"@] + (if is_read(name, return_types) {
        seq!["Deserialize"@, "Clone"@, "Getters"@]
    } else {
        seq!["Serialize"@, "Setters"@, "New"@]
    }) + (if name == "MaskPosition"@ {
        seq!["Serialize"@, "Setters"@, "New"@]
    } else {
        Seq::empty()
    })
}

pub open spec fn type_attrs(name: Seq<char>, return_types: Seq<Seq<char>>) -> Seq<Seq<char>> {
    (if is_read(name, return_types) {
        seq![get_attr()]
    } else {
        seq![new_attr(), set_attr()]
    }) + (if name == "MaskPosition"@ {
        seq![new_attr(), set_attr()]
    } else {
        Seq::empty()
    })
}

pub open spec fn method_derives() -> Seq<Seq<char>> {
    seq!["Debug"@, "Serialize"@, "TelegramApi"@, "Setters"@, "New"@]
}

pub open spec fn return_attr(ty: Seq<char>) -> Seq<char> {
    "return_type = \""@ + ty + "\""@
}

/// The structure declared for an entity: a method's marked as a request with its
/// return type.
pub open spec fn entity_decl(t: Type, return_types: Seq<Seq<char>>) -> StructModel {
    let name = t.name@;
    let (derives, attrs) = match t.kind@ {
        TypeKindModel::Method(rt) => (
            method_derives(),
            seq![return_attr(type_text(rt)), new_attr(), set_attr()],
        ),
        _ => (type_derives(name, return_types), type_attrs(name, return_types)),
    };
    StructModel {
        imports: types_import(),
        name,
        doc: join(strings_view(t.docs@), "\n"@),
        derives,
        attrs,
        vis: "pub"@,
        fields: field_decls(name, t.fields@),
    }
}

/// The registry entry of an entity.
pub open spec fn entity_module(t: Type, return_types: Seq<Seq<char>>) -> ModuleModel {
    ModuleModel {
        kind: t.kind@,
        module_name: snake_of(t.name@),
        module_type: t.name@,
        contents: struct_source(entity_decl(t, return_types)),
    }
}

/// The entries filed for an entity: a method's return-type union, then its fields'
/// unions, then the entity itself.
pub open spec fn entity_entries(t: Type, return_types: Seq<Seq<char>>) -> Seq<ModuleModel> {
    return_type_entries(t, return_types) + fields_entries(t.fields@, return_types) + seq![
        entity_module(t, return_types),
    ]
}

/// The entries filed for a method's return type; none for a type.
pub open spec fn return_type_entries(t: Type, return_types: Seq<Seq<char>>) -> Seq<ModuleModel> {
    match t.kind@ {
        TypeKindModel::Method(rt) => union_modules(rt, return_types),
        _ => Seq::empty(),
    }
}

fn owned(s: &str) -> (r: String)
    ensures
        r@ == s@,
{
    s.to_owned()
}

fn contains_name(names: &Vec<String>, name: &str) -> (r: bool)
    ensures
        r == strings_view(names@).contains(name@),
{
    let mut i: usize = 0;
    while i < names.len()
        invariant
            i <= names.len(),
            forall|j: int| 0 <= j < i ==> strings_view(names@)[j] != name@,
        decreases names.len() - i,
    {
        if eq_str(names[i].as_str(), name) {
            assert(strings_view(names@)[i as int] == name@);
            return true;
        }
        i += 1;
    }
    false
}

fn copy_pairs(v: &Vec<(String, String)>) -> (r: Vec<(String, String)>)
    ensures
        pairs_view(r@) == pairs_view(v@),
{
    let mut out: Vec<(String, String)> = Vec::new();
    let mut i: usize = 0;
    while i < v.len()
        invariant
            i <= v.len(),
            pairs_view(out@) == pairs_view(v@).subrange(0, i as int),
        decreases v.len() - i,
    {
        let ghost before = pairs_view(out@);
        out.push((v[i].0.clone(), v[i].1.clone()));
        assert(pairs_view(out@) =~= before.push(pairs_view(v@)[i as int]));
        i += 1;
        assert(pairs_view(out@) =~= pairs_view(v@).subrange(0, i as int));
    }
    assert(pairs_view(v@).subrange(0, i as int) =~= pairs_view(v@));
    out
}

fn wrap(s: Vec<char>, open: &str, close: &str) -> (r: Vec<char>)
    ensures
        r@ == open@ + s@ + close@,
{
    let mut out = chars_of(open);
    push_all(&mut out, &s);
    push_all(&mut out, &chars_of(close));
    out
}

impl FieldType {
    /// The type as written in a declaration.
    pub fn type_text(&self) -> (r: String)
        ensures
            r@ == type_text(self@),
    {
        let named = if eq_str(self.name.as_str(), "Boolean") {
            chars_of("bool")
        } else if eq_str(self.name.as_str(), "Float number") {
            chars_of("Float")
        } else if eq_str(self.name.as_str(), "Int") {
            chars_of("Integer")
        } else {
            chars_of(self.name.as_str())
        };
        let mut cur = if self.is_boxed {
            wrap(named, "Box<", ">")
        } else {
            named
        };
        let ghost boxed = cur@;
        let mut i: usize = 0;
        while i < self.array_count
            invariant
                i <= self.array_count,
                cur@ == wrap_vec(i as nat, boxed),
            decreases self.array_count - i,
        {
            cur = wrap(cur, "Vec<", ">");
            i += 1;
        }
        if self.is_optional {
            cur = wrap(cur, "Option<", ">");
        }
        string_of(&cur)
    }

    /// The untagged enumeration declared for this union.
    pub fn union_decl(&self, return_types: &Vec<String>) -> (r: EnumDecl)
        requires
            self@.variants is Some,
        ensures
            r@ == union_decl(self@, strings_view(return_types@)),
    {
        let mut derives: Vec<String> = Vec::new();
        derives.push(owned("Debug"));
        if contains_name(return_types, self.name.as_str()) {
            derives.push(owned("Deserialize"));
            derives.push(owned("Clone"));
        } else {
            derives.push(owned("Serialize"));
        }
        let mut imports: Vec<(String, String)> = Vec::new();
        imports.push((owned("crate::types"), owned("*")));
        let mut raw_lines: Vec<String> = Vec::new();
        raw_lines.push(owned("#[serde(untagged)]"));
        let variants = match &self.kind {
            FieldKind::Enum(v) => copy_pairs(v),
            FieldKind::Simple => Vec::new(),
        };
        let r = EnumDecl {
            imports,
            name: self.name.clone(),
            derives,
            raw_lines,
            vis: owned("pub"),
            variants,
        };
        assert(r@.imports =~= types_import());
        assert(r@.derives =~= union_derives(self@.name, strings_view(return_types@)));
        assert(r@.raw_lines =~= seq!["#[serde(untagged)]"@]);
        r
    }
}

impl Generator for FieldType {
    type ReturnType = String;

    open spec fn entries(&self, return_types: Seq<Seq<char>>) -> Seq<ModuleModel> {
        union_modules(self@, return_types)
    }

    open spec fn produces(&self, return_types: Seq<Seq<char>>, r: String) -> bool {
        r@ == type_text(self@)
    }

    fn generate(self, modules: &mut Registry, return_types: &Vec<String>) -> (r: Result<
        String,
        Collision,
    >) {
        let ghost rts = strings_view(return_types@);
        if let FieldKind::Enum(_) = &self.kind {
            let decl = self.union_decl(return_types);
            let module = Module {
                kind: TypeKind::Enum,
                contents: render_enum(&decl),
                module_name: snake_case(self.name.as_str()),
                module_type: self.name.clone(),
            };
            assert(module@ == union_module(self@, rts));
            let ghost before = modules@;
            match modules.insert(module) {
                Ok(()) => {},
                Err(c) => {
                    assert(insert_all(before, self.entries(rts)) is None);
                    assert(self.entries(rts).take(0) =~= Seq::<ModuleModel>::empty());
                    assert(insert_all(before, self.entries(rts).take(0)) == Some(modules@));
                    return Err(c);
                },
            }
            assert(insert_all(before, self.entries(rts)) == Some(modules@)) by {
                let s2 = insert_result(before, union_module(self@, rts))->0;
                assert(self.entries(rts).drop_first() =~= Seq::<ModuleModel>::empty());
                assert(insert_all(s2, Seq::<ModuleModel>::empty()) == Some(s2));
            }
        }
        Ok(self.type_text())
    }
}

/// Filing `a` and then `b` is filing `a + b`.
pub proof fn lemma_insert_all_append(s: Seq<ModuleModel>, a: Seq<ModuleModel>, b: Seq<ModuleModel>)
    ensures
        insert_all(s, a + b) == match insert_all(s, a) {
            None => None,
            Some(s2) => insert_all(s2, b),
        },
    decreases a.len(),
{
    if a.len() == 0 {
        assert(a + b =~= b);
    } else {
        assert((a + b).drop_first() =~= a.drop_first() + b);
        assert((a + b)[0] == a[0]);
        match insert_result(s, a[0]) {
            None => {},
            Some(s2) => {
                lemma_insert_all_append(s2, a.drop_first(), b);
            },
        }
    }
}

impl FieldType {
    /// A value equal to `self`.
    pub fn copy(&self) -> (r: FieldType)
        ensures
            r@ == self@,
    {
        FieldType {
            array_count: self.array_count,
            is_optional: self.is_optional,
            doc: match &self.doc {
                Some(d) => Some(d.clone()),
                None => None,
            },
            name: self.name.clone(),
            kind: match &self.kind {
                FieldKind::Simple => FieldKind::Simple,
                FieldKind::Enum(v) => FieldKind::Enum(copy_pairs(v)),
            },
            is_boxed: self.is_boxed,
        }
    }
}

impl TypeKind {
    /// A value equal to `self`.
    pub fn copy(&self) -> (r: TypeKind)
        ensures
            r@ == self@,
    {
        match self {
            TypeKind::Type => TypeKind::Type,
            TypeKind::Method(rt) => TypeKind::Method(rt.copy()),
            TypeKind::Enum => TypeKind::Enum,
        }
    }
}

impl Generator for Field {
    type ReturnType = FieldDecl;

    open spec fn entries(&self, return_types: Seq<Seq<char>>) -> Seq<ModuleModel> {
        union_modules(self.field_type@, return_types)
    }

    open spec fn produces(&self, return_types: Seq<Seq<char>>, r: FieldDecl) -> bool {
        r@ == field_decl(self.name@, self.field_type@, self.doc@)
    }

    fn generate(self, modules: &mut Registry, return_types: &Vec<String>) -> (r: Result<
        FieldDecl,
        Collision,
    >) {
        let Field { name, field_type, doc } = self;
        let is_optional = field_type.is_optional;
        let ty = match field_type.generate(modules, return_types) {
            Ok(t) => t,
            Err(c) => {
                return Err(c);
            },
        };
        let renamed = eq_str(name.as_str(), "type");
        let mut annotations: Vec<String> = Vec::new();
        if renamed {
            annotations.push(owned("#[serde(rename = \"type\")]"));
        }
        if is_optional {
            annotations.push(owned("#[serde(skip_serializing_if = \"Option::is_none\")]"));
        }
        let r = FieldDecl {
            name: if renamed {
                owned("type_")
            } else {
                name
            },
            ty,
            doc,
            annotations,
            vis: owned("pub(crate)"),
        };
        assert(r@.annotations =~= field_decl(self.name@, self.field_type@, self.doc@).annotations);
        Ok(r)
    }
}

fn char_lists(v: &Vec<String>) -> (r: Vec<Vec<char>>)
    ensures
        views(r@) == strings_view(v@),
{
    let mut out: Vec<Vec<char>> = Vec::new();
    let mut i: usize = 0;
    while i < v.len()
        invariant
            i <= v.len(),
            views(out@) == strings_view(v@).subrange(0, i as int),
        decreases v.len() - i,
    {
        let ghost before = views(out@);
        out.push(chars_of(v[i].as_str()));
        assert(views(out@) =~= before.push(strings_view(v@)[i as int]));
        i += 1;
        assert(views(out@) =~= strings_view(v@).subrange(0, i as int));
    }
    assert(strings_view(v@).subrange(0, i as int) =~= strings_view(v@));
    out
}

impl Generator for Type {
    type ReturnType = String;

    open spec fn entries(&self, return_types: Seq<Seq<char>>) -> Seq<ModuleModel> {
        entity_entries(*self, return_types)
    }

    open spec fn produces(&self, return_types: Seq<Seq<char>>, r: String) -> bool {
        r@ == struct_source(entity_decl(*self, return_types))
    }

    fn generate(self, modules: &mut Registry, return_types: &Vec<String>) -> (r: Result<
        String,
        Collision,
    >) {
        let ghost rts = strings_view(return_types@);
        let ghost s0 = modules@;
        let ghost t = self;
        let Type { name, docs, fields, kind } = self;
        let mut derives: Vec<String>;
        let mut attrs: Vec<String>;
        let ghost head: Seq<ModuleModel>;
        match &kind {
            TypeKind::Method(rt) => {
                let text = match rt.copy().generate(modules, return_types) {
                    Ok(text) => text,
                    Err(c) => {
                        proof {
                            lemma_insert_all_append(s0, union_modules(rt@, rts), fields_entries(t.fields@, rts) + seq![entity_module(t, rts)]);
                            assert(entity_entries(t, rts) =~= union_modules(rt@, rts) + (fields_entries(t.fields@, rts) + seq![entity_module(t, rts)]));
                            lemma_stopped_before(s0, union_modules(rt@, rts), fields_entries(t.fields@, rts) + seq![entity_module(t, rts)], modules@);
                        }
                        return Err(c);
                    },
                };
                derives = Vec::new();
                derives.push(owned("Debug"));
                derives.push(owned("Serialize"));
                derives.push(owned("TelegramApi"));
                derives.push(owned("Setters"));
                derives.push(owned("New"));
                let mut rt_attr = chars_of("return_type = \"");
                push_all(&mut rt_attr, &chars_of(text.as_str()));
                push_all(&mut rt_attr, &chars_of("\""));
                attrs = Vec::new();
                attrs.push(string_of(&rt_attr));
                attrs.push(owned("new(vis = \"pub\")"));
                attrs.push(owned("set(vis = \"pub\")"));
                proof {
                    head = union_modules(rt@, rts);
                    assert(head == return_type_entries(t, rts));
                    assert(texts(attrs@) =~= seq![return_attr(type_text(rt@)), new_attr(), set_attr()]);
                    assert(texts(derives@) =~= method_derives());
                }
            },
            _ => {
                let read = contains_name(return_types, name.as_str()) || eq_str(
                    name.as_str(),
                    "WebhookInfo",
                );
                derives = Vec::new();
                attrs = Vec::new();
                derives.push(owned("Debug"));
                if read {
                    derives.push(owned("Deserialize"));
                    derives.push(owned("Clone"));
                    derives.push(owned("Getters"));
                    attrs.push(owned("get(vis = \"pub\")"));
                } else {
                    derives.push(owned("Serialize"));
                    derives.push(owned("Setters"));
                    derives.push(owned("New"));
                    attrs.push(owned("new(vis = \"pub\")"));
                    attrs.push(owned("set(vis = \"pub\")"));
                }
                if eq_str(name.as_str(), "MaskPosition") {
                    derives.push(owned("Serialize"));
                    derives.push(owned("Setters"));
                    derives.push(owned("New"));
                    attrs.push(owned("new(vis = \"pub\")"));
                    attrs.push(owned("set(vis = \"pub\")"));
                }
                proof {
                    head = Seq::empty();
                    assert(head == return_type_entries(t, rts));
                    assert(texts(derives@) =~= type_derives(t.name@, rts));
                    assert(texts(attrs@) =~= type_attrs(t.name@, rts));
                }
            },
        }
        assert(insert_all(s0, head) == Some(modules@)) by {
            if head.len() > 0 {
                assert(head.drop_first() =~= Seq::<ModuleModel>::empty());
            }
        }
        let mut rest = fields;
        let mut decls: Vec<FieldDecl> = Vec::new();
        let n = rest.len();
        let mut i: usize = 0;
        while i < n
            invariant
                n == t.fields@.len(),
                i <= n,
                rest@ == t.fields@.subrange(i as int, n as int),
                name@ == t.name@,
                modules.wf(),
                rts == strings_view(return_types@),
                head == return_type_entries(t, rts),
                s0 == old(modules)@,
                t == self,
                insert_all(s0, head + fields_entries(t.fields@.subrange(0, i as int), rts))
                    == Some(modules@),
                decls@.map_values(|f: FieldDecl| f@) == field_decls(t.name@, t.fields@.subrange(0, i as int)),
            decreases n - i,
        {
            assert(rest@[0] == t.fields@[i as int]);
            let mut f = rest.remove(0);
            if eq_str(f.field_type.name.as_str(), name.as_str()) {
                f.field_type.is_boxed = true;
            }
            let ghost fb = f;
            let ghost before = modules@;
            let ghost pre = t.fields@.subrange(0, i as int);
            let ghost pre2 = t.fields@.subrange(0, i + 1);
            assert(pre2.drop_last() =~= pre);
            proof {
                lemma_insert_all_append(s0, head + fields_entries(pre, rts), union_modules(fb.field_type@, rts));
                assert(head + fields_entries(pre2, rts) =~= head + fields_entries(pre, rts) + union_modules(fb.field_type@, rts));
            }
            let d = match f.generate(modules, return_types) {
                Ok(d) => d,
                Err(c) => {
                    proof {
                        assert(insert_all(before, union_modules(fb.field_type@, rts)) is None);
                        assert(insert_all(s0, head + fields_entries(pre, rts) + union_modules(fb.field_type@, rts)) is None);
                        assert(insert_all(s0, head + fields_entries(pre2, rts)) is None);
                        let tail = fields_entries(t.fields@.subrange(i + 1, n as int), rts);
                        lemma_fields_entries_split(t.fields@, i + 1, rts);
                        lemma_insert_all_append(s0, head + fields_entries(pre2, rts), seq![entity_module(t, rts)]);
                        lemma_insert_all_append(s0, head + fields_entries(pre2, rts), fields_entries(t.fields@.subrange(i + 1, n as int), rts) + seq![entity_module(t, rts)]);
                        assert(entity_entries(t, rts) =~= head + fields_entries(pre2, rts) + (tail + seq![entity_module(t, rts)]));
                        assert(insert_all(s0, entity_entries(t, rts)) is None);
                        lemma_stopped_after(s0, head + fields_entries(pre, rts), union_modules(fb.field_type@, rts), before, modules@);
                        lemma_stopped_before(s0, head + fields_entries(pre2, rts), tail + seq![entity_module(t, rts)], modules@);
                    }
                    return Err(c);
                },
            };
            let ghost dv = decls@.map_values(|f: FieldDecl| f@);
            decls.push(d);
            assert(decls@.map_values(|f: FieldDecl| f@) =~= dv.push(d@));
            assert(field_decls(t.name@, pre2) =~= field_decls(t.name@, pre).push(d@));
            i += 1;
        }
        assert(t.fields@.subrange(0, n as int) =~= t.fields@);
        let mut imports: Vec<(String, String)> = Vec::new();
        imports.push((owned("crate::types"), owned("*")));
        let doc = string_of(&join_with(&char_lists(&docs), &chars_of("\n")));
        let decl = StructDecl {
            imports,
            name: name.clone(),
            doc,
            derives,
            attrs,
            vis: owned("pub"),
            fields: decls,
        };
        assert(decl@.imports =~= types_import());
        assert(decl@ == entity_decl(t, rts));
        let contents = render_struct(&decl);
        let module = Module {
            kind: kind.copy(),
            contents: contents.clone(),
            module_name: snake_case(name.as_str()),
            module_type: name,
        };
        assert(module@ == entity_module(t, rts));
        let ghost before = modules@;
        proof {
            lemma_insert_all_append(s0, head + fields_entries(t.fields@, rts), seq![entity_module(t, rts)]);
            assert(entity_entries(t, rts) =~= head + fields_entries(t.fields@, rts) + seq![entity_module(t, rts)]);
            assert(insert_all(before, seq![entity_module(t, rts)]) == insert_result(before, entity_module(t, rts))) by {
                let e = entity_module(t, rts);
                assert(seq![e].drop_first() =~= Seq::<ModuleModel>::empty());
                assert(seq![e][0] == e);
                match insert_result(before, e) {
                    None => {},
                    Some(s2) => {
                        assert(insert_all(s2, Seq::<ModuleModel>::empty()) == Some(s2));
                    },
                }
            }
        }
        match modules.insert(module) {
            Ok(()) => Ok(contents),
            Err(c) => {
                proof {
                    let e = entity_module(t, rts);
                    assert(seq![e].take(0) =~= Seq::<ModuleModel>::empty());
                    assert(insert_all(before, seq![e].take(0)) == Some(modules@));
                    assert(stopped_at(before, seq![e], modules@));
                    lemma_stopped_after(s0, head + fields_entries(t.fields@, rts), seq![e], before, modules@);
                }
                Err(c)
            },
        }
    }
}

/// The union entries of the fields split at `k`.
pub proof fn lemma_fields_entries_split(fields: Seq<Field>, k: int, rts: Seq<Seq<char>>)
    requires
        0 <= k <= fields.len(),
    ensures
        fields_entries(fields, rts) == fields_entries(fields.subrange(0, k), rts)
            + fields_entries(fields.subrange(k, fields.len() as int), rts),
    decreases fields.len() - k,
{
    if k == fields.len() {
        assert(fields.subrange(0, k) =~= fields);
        assert(fields.subrange(k, fields.len() as int) =~= Seq::<Field>::empty());
        assert(fields_entries(Seq::<Field>::empty(), rts) =~= Seq::<ModuleModel>::empty());
        assert(fields_entries(fields, rts) + Seq::<ModuleModel>::empty() =~= fields_entries(fields, rts));
    } else {
        lemma_fields_entries_split(fields, k + 1, rts);
        let a = fields.subrange(0, k + 1);
        assert(a.drop_last() =~= fields.subrange(0, k));
        let b = fields.subrange(k, fields.len() as int);
        let c = fields.subrange(k + 1, fields.len() as int);
        lemma_fields_entries_front(b, rts);
        assert(b.drop_first() =~= c);
        assert(b[0] == fields[k]);
        assert(a.last() == fields[k]);
    }
}

proof fn lemma_fields_entries_front(fields: Seq<Field>, rts: Seq<Seq<char>>)
    requires
        fields.len() > 0,
    ensures
        fields_entries(fields, rts) == union_modules(fields[0].field_type@, rts) + fields_entries(
            fields.drop_first(),
            rts,
        ),
    decreases fields.len(),
{
    if fields.len() == 1 {
        assert(fields.drop_last() =~= Seq::<Field>::empty());
        assert(fields.drop_first() =~= Seq::<Field>::empty());
        assert(fields_entries(Seq::<Field>::empty(), rts) =~= Seq::<ModuleModel>::empty());
        assert(Seq::<ModuleModel>::empty() + union_modules(fields[0].field_type@, rts) =~= union_modules(fields[0].field_type@, rts));
        assert(union_modules(fields[0].field_type@, rts) + Seq::<ModuleModel>::empty() =~= union_modules(fields[0].field_type@, rts));
    } else {
        lemma_fields_entries_front(fields.drop_last(), rts);
        assert(fields.drop_last().drop_first() =~= fields.drop_first().drop_last());
        assert(fields.drop_first().last() == fields.last());
        assert(fields.drop_last()[0] == fields[0]);
        assert(fields_entries(fields, rts) =~= union_modules(fields[0].field_type@, rts) + fields_entries(fields.drop_first(), rts));
    }
}

/// A field called `type` is declared as `type_` and keeps `type` as its name on the
/// wire.
pub proof fn lemma_type_renamed(ft: FieldTypeModel, doc: Seq<char>)
    ensures
        field_decl("type"@, ft, doc).name == "type_"@,
        field_decl("type"@, ft, doc).annotations.contains(rename_annotation()),
{
    assert(field_decl("type"@, ft, doc).annotations[0] == rename_annotation());
}

/// An optional field is declared as an `Option` and left out of the output when
/// absent, never written as an explicit null.
pub proof fn lemma_optional_omitted(name: Seq<char>, ft: FieldTypeModel, doc: Seq<char>)
    requires
        ft.is_optional,
    ensures
        has_prefix(field_decl(name, ft, doc).ty, "Option<"@),
        field_decl(name, ft, doc).annotations.contains(skip_annotation()),
{
    reveal_strlit("Option<");
    let d = field_decl(name, ft, doc);
    let n = d.annotations.len() - 1;
    assert(d.annotations[n] == skip_annotation());
    assert(d.ty.subrange(0, 7) =~= "Option<"@);
}

/// Two `reply_markup` fields with the same phrase, in any two entities, declare the
/// same single `ReplyMarkup` union: filing both leaves one entry.
pub proof fn lemma_reply_markup_shared(
    raw1: Seq<char>,
    optional1: bool,
    raw2: Seq<char>,
    optional2: bool,
    return_types: Seq<Seq<char>>,
    s: Seq<ModuleModel>,
)
    requires
        strip_all(raw1, array_word()) == strip_all(raw2, array_word()),
        union_separator(strip_all(raw1, array_word())) is Some,
    ensures
        union_modules(normalized(raw1, optional1, "reply_markup"@), return_types) == union_modules(
            normalized(raw2, optional2, "reply_markup"@),
            return_types,
        ),
        union_modules(normalized(raw1, optional1, "reply_markup"@), return_types).len() == 1,
        union_modules(normalized(raw1, optional1, "reply_markup"@), return_types)[0].module_type
            == "ReplyMarkup"@,
        insert_all(s, union_modules(normalized(raw1, optional1, "reply_markup"@), return_types))
            matches Some(s1) ==> insert_all(
            s1,
            union_modules(normalized(raw2, optional2, "reply_markup"@), return_types),
        ) == Some(s1),
{
    reveal_strlit("reply_markup");
    reveal_strlit("chat_id");
    assert(!has_suffix("reply_markup"@, "chat_id"@)) by {
        assert("reply_markup"@[5] != "chat_id"@[0]);
    }
    let m = union_module(normalized(raw1, optional1, "reply_markup"@), return_types);
    let ms = union_modules(normalized(raw1, optional1, "reply_markup"@), return_types);
    assert(ms =~= seq![m]);
    assert(ms.drop_first() =~= Seq::<ModuleModel>::empty());
    match insert_result(s, m) {
        None => {},
        Some(s1) => {
            assert(insert_all(s1, Seq::<ModuleModel>::empty()) == Some(s1));
            lemma_insert_again(s, m);
            assert(insert_result(s1, m) == Some(s1));
        },
    }
}

/// The entries of each group, one group after the other.
pub open spec fn concat_entries(v: Seq<Seq<ModuleModel>>) -> Seq<ModuleModel>
    decreases v.len(),
{
    if v.len() == 0 {
        Seq::empty()
    } else {
        concat_entries(v.drop_last()) + v.last()
    }
}

pub proof fn lemma_concat_split(v: Seq<Seq<ModuleModel>>, k: int)
    requires
        0 <= k <= v.len(),
    ensures
        concat_entries(v) == concat_entries(v.subrange(0, k)) + concat_entries(
            v.subrange(k, v.len() as int),
        ),
    decreases v.len() - k,
{
    if k == v.len() {
        assert(v.subrange(0, k) =~= v);
        assert(v.subrange(k, v.len() as int) =~= Seq::<Seq<ModuleModel>>::empty());
        assert(concat_entries(v) + Seq::<ModuleModel>::empty() =~= concat_entries(v));
    } else {
        lemma_concat_split(v, k + 1);
        lemma_concat_front(v.subrange(k, v.len() as int));
        assert(v.subrange(0, k + 1).drop_last() =~= v.subrange(0, k));
        assert(v.subrange(k, v.len() as int).drop_first() =~= v.subrange(k + 1, v.len() as int));
        assert(concat_entries(v.subrange(0, k + 1)) == concat_entries(v.subrange(0, k)) + v[k]);
    }
}

proof fn lemma_concat_front(v: Seq<Seq<ModuleModel>>)
    ensures
        v.len() > 0 ==> concat_entries(v) == v[0] + concat_entries(v.drop_first()),
    decreases v.len(),
{
    if v.len() == 1 {
        assert(v.drop_last() =~= Seq::<Seq<ModuleModel>>::empty());
        assert(v.drop_first() =~= Seq::<Seq<ModuleModel>>::empty());
        assert(Seq::<ModuleModel>::empty() + v[0] =~= v[0]);
        assert(v[0] + Seq::<ModuleModel>::empty() =~= v[0]);
    } else if v.len() > 1 {
        lemma_concat_front(v.drop_last());
        assert(v.drop_last().drop_first() =~= v.drop_first().drop_last());
        assert(concat_entries(v) =~= v[0] + concat_entries(v.drop_first()));
    }
}

/// The entries filed for a run: each entity's, in order, then each listed union's.
pub open spec fn run_entries(types: Seq<Type>, unions: Seq<FieldType>, return_types: Seq<Seq<char>>) -> Seq<
    ModuleModel,
> {
    concat_entries(
        types.map_values(|t: Type| entity_entries(t, return_types)) + unions.map_values(
            |u: FieldType| union_modules(u@, return_types),
        ),
    )
}

/// Synthesises every entity, then every listed union, into a new registry; fails at
/// the first clash.
pub fn synthesize(types: Vec<Type>, unions: Vec<FieldType>, return_types: &Vec<String>) -> (r:
    Result<Registry, Collision>)
    ensures
        r is Ok <==> insert_all(
            Seq::empty(),
            run_entries(types@, unions@, strings_view(return_types@)),
        ) is Some,
        match r {
            Ok(reg) => reg.wf() && insert_all(
                Seq::empty(),
                run_entries(types@, unions@, strings_view(return_types@)),
            ) == Some(reg@),
            Err(_) => true,
        },
{
    let ghost rts = strings_view(return_types@);
    let ghost groups = types@.map_values(|t: Type| entity_entries(t, rts)) + unions@.map_values(
        |u: FieldType| union_modules(u@, rts),
    );
    let ghost nt = types@.len();
    let mut registry = Registry::new();
    let ghost all_types = types@;
    let mut rest = types;
    let n = rest.len();
    let mut done: usize = 0;
    assert(groups.subrange(0, 0) =~= Seq::<Seq<ModuleModel>>::empty());
    while done < n
        invariant
            n == nt,
            run_entries(all_types, unions@, rts) == concat_entries(groups),
            all_types == types@,
            rts == strings_view(return_types@),
            all_types.len() == nt,
            groups == all_types.map_values(|t: Type| entity_entries(t, rts)) + unions@.map_values(
                |u: FieldType| union_modules(u@, rts),
            ),
            done + rest@.len() == nt,
            rest@ == all_types.subrange(done as int, nt as int),
            registry.wf(),
            insert_all(Seq::empty(), concat_entries(groups.subrange(0, done as int))) == Some(
                registry@,
            ),
        decreases n - done,
    {
        let t = rest.remove(0);
        assert(t == all_types[done as int]);
        let ghost before = registry@;
        let ghost pre = groups.subrange(0, done as int);
        proof {
            assert(groups.subrange(0, done + 1).drop_last() =~= pre);
            assert(groups[done as int] == entity_entries(t, rts));
            lemma_insert_all_append(Seq::empty(), concat_entries(pre), entity_entries(t, rts));
        }
        match t.generate(&mut registry, return_types) {
            Ok(_) => {},
            Err(c) => {
                proof {
                    assert(concat_entries(groups.subrange(0, done + 1)) == concat_entries(pre)
                        + groups[done as int]);
                    lemma_concat_split(groups, done + 1);
                    lemma_insert_all_append(Seq::empty(), concat_entries(groups.subrange(0, done + 1)), concat_entries(groups.subrange(done + 1, groups.len() as int)));
                }
                return Err(c);
            },
        }
        done += 1;
    }
    let mut k: usize = 0;
    while k < unions.len()
        invariant
            rts == strings_view(return_types@),
            done == nt,
            k <= unions@.len(),
            run_entries(all_types, unions@, rts) == concat_entries(groups),
            all_types == types@,
            groups == all_types.map_values(|t: Type| entity_entries(t, rts)) + unions@.map_values(
                |u: FieldType| union_modules(u@, rts),
            ),
            all_types.len() == nt,
            registry.wf(),
            insert_all(Seq::empty(), concat_entries(groups.subrange(0, nt + k))) == Some(
                registry@,
            ),
        decreases unions.len() - k,
    {
        let u = unions[k].copy();
        let ghost pre = groups.subrange(0, nt + k);
        proof {
            assert(groups.subrange(0, nt + k + 1).drop_last() =~= pre);
            assert(groups[nt + k] == union_modules(u@, rts));
            lemma_insert_all_append(Seq::empty(), concat_entries(pre), union_modules(u@, rts));
        }
        match u.generate(&mut registry, return_types) {
            Ok(_) => {},
            Err(c) => {
                proof {
                    assert(concat_entries(groups.subrange(0, nt + k + 1)) == concat_entries(pre)
                        + groups[nt + k]);
                    lemma_concat_split(groups, nt + k + 1);
                    lemma_insert_all_append(Seq::empty(), concat_entries(groups.subrange(0, nt + k + 1)), concat_entries(groups.subrange(nt + k + 1, groups.len() as int)));
                }
                return Err(c);
            },
        }
        k += 1;
    }
    assert(groups.subrange(0, nt + k) =~= groups);
    Ok(registry)
}

/// Methods' return types first, in order; then, going through the entities in
/// order, the field types of each entity already in the list.
pub open spec fn widen(types: Seq<Type>, k: int, acc: Seq<Seq<char>>) -> Seq<Seq<char>>
    decreases types.len() - k,
{
    if k < 0 || k >= types.len() {
        acc
    } else {
        widen(
            types,
            k + 1,
            if acc.contains(types[k].name@) {
                acc + types[k].fields@.map_values(|f: Field| f.field_type@.name)
            } else {
                acc
            },
        )
    }
}

pub open spec fn method_returns(types: Seq<Type>) -> Seq<Seq<char>>
    decreases types.len(),
{
    if types.len() == 0 {
        Seq::empty()
    } else {
        method_returns(types.drop_last()) + match types.last().kind@ {
            TypeKindModel::Method(rt) => seq![rt.name],
            _ => Seq::empty(),
        }
    }
}

/// The names of the types that the service sends back: what methods return, and
/// the field types of those, one level down.
pub fn return_types(types: &Vec<Type>) -> (r: Vec<String>)
    ensures
        strings_view(r@) == widen(types@, 0, method_returns(types@)),
{
    let mut acc: Vec<String> = Vec::new();
    let mut i: usize = 0;
    while i < types.len()
        invariant
            i <= types.len(),
            strings_view(acc@) == method_returns(types@.subrange(0, i as int)),
        decreases types.len() - i,
    {
        assert(types@.subrange(0, i + 1).drop_last() =~= types@.subrange(0, i as int));
        let ghost before = strings_view(acc@);
        if let TypeKind::Method(rt) = &types[i].kind {
            acc.push(rt.name.clone());
            assert(strings_view(acc@) =~= before.push(rt.name@));
        } else {
            assert(strings_view(acc@) =~= before + Seq::<Seq<char>>::empty());
        }
        i += 1;
    }
    assert(types@.subrange(0, i as int) =~= types@);
    let mut k: usize = 0;
    while k < types.len()
        invariant
            k <= types.len(),
            widen(types@, k as int, strings_view(acc@)) == widen(
                types@,
                0,
                method_returns(types@),
            ),
        decreases types.len() - k,
    {
        let t = &types[k];
        if contains_name(&acc, t.name.as_str()) {
            let mut j: usize = 0;
            let ghost before = strings_view(acc@);
            while j < t.fields.len()
                invariant
                    j <= t.fields.len(),
                    t == types@[k as int],
                    strings_view(acc@) == before + t.fields@.map_values(
                        |f: Field| f.field_type@.name,
                    ).subrange(0, j as int),
                decreases t.fields.len() - j,
            {
                let ghost b2 = strings_view(acc@);
                acc.push(t.fields[j].field_type.name.clone());
                assert(strings_view(acc@) =~= b2.push(t.fields@[j as int].field_type@.name));
                j += 1;
                assert(strings_view(acc@) =~= before + t.fields@.map_values(
                    |f: Field| f.field_type@.name,
                ).subrange(0, j as int));
            }
            assert(t.fields@.map_values(|f: Field| f.field_type@.name).subrange(0, j as int)
                =~= t.fields@.map_values(|f: Field| f.field_type@.name));
        }
        k += 1;
    }
    acc
}

} // verus!
