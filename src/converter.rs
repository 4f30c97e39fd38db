//! Normalisation of raw type phrases into the canonical type model.
use crate::text::{
    chars_of, contains, contains_exec, count_all, ends_with, eq_str, has_suffix,
    lemma_strip_absent, split_on, split_seq, string_of, strip_all, strip_count, trim, trim_chars,
    views,
};
use crate::types::{
    pairs_view, Field, FieldKind, FieldType, FieldTypeModel, TelegramField, TelegramFieldType,
    TelegramMethod, TelegramType, TelegramTypeOrMethod, Type, TypeKind, TypeKindModel,
    strings_view,
};
use crate::utils::{capitalize, capitalized, join, join_with, pascal_case, pascal_of};
use vstd::prelude::*;

verus! {

pub open spec fn array_word() -> Seq<char> {
    "Array of "@
}

pub open spec fn or_word() -> Seq<char> {
    " or "@
}

pub open spec fn and_word() -> Seq<char> {
    " and "@
}

/// The separator that makes a phrase a union: ` or ` where it occurs, else ` and `.
pub open spec fn union_separator(base: Seq<char>) -> Option<Seq<char>> {
    if contains(base, or_word()) {
        Some(or_word())
    } else if contains(base, and_word()) {
        Some(and_word())
    } else {
        None
    }
}

/// Each piece of `base` between separators, trimmed, as both variant name and type.
pub open spec fn split_variants(base: Seq<char>, sep: Seq<char>) -> Seq<(Seq<char>, Seq<char>)> {
    split_seq(base, sep).map_values(|p: Seq<char>| (trim(p), trim(p)))
}

pub open spec fn chat_id_variants() -> Seq<(Seq<char>, Seq<char>)> {
    seq![("Id"@, "Integer"@), ("Username"@, "String"@)]
}

pub open spec fn media_variants() -> Seq<(Seq<char>, Seq<char>)> {
    seq![("InputFile"@, "InputFile"@), ("String"@, "String"@)]
}

pub open spec fn variant_names(v: Seq<(Seq<char>, Seq<char>)>) -> Seq<Seq<char>> {
    v.map_values(|p: (Seq<char>, Seq<char>)| p.0)
}

/// The name of the union declared for a field called `field_name`.
pub open spec fn union_name(field_name: Seq<char>, v: Seq<(Seq<char>, Seq<char>)>) -> Seq<char> {
    if field_name == "reply_markup"@ {
        "ReplyMarkup"@
    } else if field_name.len() == 0 {
        join(variant_names(v), "Or"@)
    } else {
        pascal_of(field_name)
    }
}

/// The canonical form of the type phrase `raw` of a field called `field_name`.
pub open spec fn normalized(raw: Seq<char>, is_optional: bool, field_name: Seq<char>) -> FieldTypeModel {
    let base = strip_all(raw, array_word());
    let (name, variants) = match union_separator(base) {
        Some(sep) => if has_suffix(field_name, "chat_id"@) {
            ("ChatIdOrUsername"@, Some(chat_id_variants()))
        } else {
            let v = split_variants(base, sep);
            (union_name(field_name, v), Some(v))
        },
        None => if base == "String"@ && field_name == "media"@ {
            ("InputFileOrString"@, Some(media_variants()))
        } else {
            (base, None)
        },
    };
    FieldTypeModel {
        array_count: count_all(raw, array_word()),
        is_optional,
        doc: None,
        name,
        variants,
        is_boxed: false,
    }
}

fn pair(a: &str, b: &str) -> (r: (String, String))
    ensures
        r.0@ == a@,
        r.1@ == b@,
{
    (a.to_owned(), b.to_owned())
}

impl TelegramFieldType {
    /// Normalises this phrase, for a field called `field_name` (empty for a method's
    /// return type).
    pub fn into_field_type(self, field_name: &str) -> (r: FieldType)
        ensures
            r@ == normalized(self.name@, self.is_optional, field_name@),
    {
        let raw = chars_of(self.name.as_str());
        let array = chars_of("Array of ");
        proof {
            reveal_strlit("Array of ");
        }
        let (base, array_count) = strip_count(&raw, &array);
        let or = chars_of(" or ");
        let and = chars_of(" and ");
        let fname = chars_of(field_name);
        proof {
            reveal_strlit(" or ");
            reveal_strlit(" and ");
        }
        let contains_or = contains_exec(&base, &or);
        let (name, kind) = if contains_or || contains_exec(&base, &and) {
            if ends_with(&fname, &chars_of("chat_id")) {
                let mut v: Vec<(String, String)> = Vec::new();
                v.push(pair("Id", "Integer"));
                v.push(pair("Username", "String"));
                assert(pairs_view(v@) =~= chat_id_variants());
                ("ChatIdOrUsername".to_owned(), FieldKind::Enum(v))
            } else {
                let pieces = if contains_or {
                    split_on(&base, &or)
                } else {
                    split_on(&base, &and)
                };
                let ghost sep = if contains_or {
                    or_word()
                } else {
                    and_word()
                };
                let mut v: Vec<(String, String)> = Vec::new();
                let mut names: Vec<Vec<char>> = Vec::new();
                let mut i: usize = 0;
                while i < pieces.len()
                    invariant
                        i <= pieces.len(),
                        views(pieces@) == split_seq(base@, sep),
                        pairs_view(v@) == split_variants(base@, sep).subrange(0, i as int),
                        views(names@) == variant_names(split_variants(base@, sep)).subrange(
                            0,
                            i as int,
                        ),
                    decreases pieces.len() - i,
                {
                    assert(views(pieces@)[i as int] == pieces@[i as int]@);
                    let t = trim_chars(&pieces[i]);
                    let ghost pv = pairs_view(v@);
                    let ghost nv = views(names@);
                    let p = (string_of(&t), string_of(&t));
                    v.push(p);
                    names.push(t);
                    assert(split_variants(base@, sep)[i as int] == (t@, t@));
                    assert(pairs_view(v@) =~= pv.push((t@, t@)));
                    assert(views(names@) =~= nv.push(t@));
                    i += 1;
                    assert(pairs_view(v@) =~= split_variants(base@, sep).subrange(0, i as int));
                    assert(views(names@) =~= variant_names(split_variants(base@, sep)).subrange(
                        0,
                        i as int,
                    ));
                }
                assert(pairs_view(v@) =~= split_variants(base@, sep));
                assert(views(names@) =~= variant_names(split_variants(base@, sep)));
                let name = if eq_str(field_name, "reply_markup") {
                    "ReplyMarkup".to_owned()
                } else if fname.len() == 0 {
                    string_of(&join_with(&names, &chars_of("Or")))
                } else {
                    string_of(&pascal_case(&fname))
                };
                (name, FieldKind::Enum(v))
            }
        } else if eq_str(field_name, "media") && eq_str(string_of(&base).as_str(), "String") {
            let mut v: Vec<(String, String)> = Vec::new();
            v.push(pair("InputFile", "InputFile"));
            v.push(pair("String", "String"));
            assert(pairs_view(v@) =~= media_variants());
            ("InputFileOrString".to_owned(), FieldKind::Enum(v))
        } else {
            (string_of(&base), FieldKind::Simple)
        };
        FieldType {
            is_boxed: false,
            array_count,
            doc: None,
            kind,
            name,
            is_optional: self.is_optional,
        }
    }
}

/// `g` is the normalised form of `f`.
pub open spec fn field_converted(f: TelegramField, g: Field) -> bool {
    &&& g.name@ == f.name@
    &&& g.doc@ == f.doc@
    &&& g.field_type@ == normalized(f.telegram_type.name@, f.telegram_type.is_optional, f.name@)
}

pub open spec fn fields_converted(fs: Seq<TelegramField>, gs: Seq<Field>) -> bool {
    &&& gs.len() == fs.len()
    &&& forall|i: int| 0 <= i < fs.len() ==> #[trigger] field_converted(fs[i], gs[i])
}

/// `t` is the normalised form of the type `ty`.
pub open spec fn type_converted(ty: TelegramType, t: Type) -> bool {
    &&& t.name@ == ty.name@
    &&& strings_view(t.docs@) == strings_view(ty.docs@)
    &&& fields_converted(ty.fields@, t.fields@)
    &&& t.kind@ == TypeKindModel::Type
}

/// `t` is the normalised form of the method `m`: its name capitalised, its return
/// type normalised with no field name.
pub open spec fn method_converted(m: TelegramMethod, t: Type) -> bool {
    &&& t.name@ == capitalized(m.name@)
    &&& strings_view(t.docs@) == strings_view(m.docs@)
    &&& fields_converted(m.fields@, t.fields@)
    &&& t.kind@ == TypeKindModel::Method(
        normalized(m.return_type.name@, m.return_type.is_optional, Seq::empty()),
    )
}

impl TelegramField {
    pub fn into_field(self) -> (r: Field)
        ensures
            field_converted(self, r),
    {
        let TelegramField { name, doc, telegram_type } = self;
        let field_type = telegram_type.into_field_type(name.as_str());
        Field { doc, name, field_type }
    }
}

fn convert_fields(fields: Vec<TelegramField>) -> (r: Vec<Field>)
    ensures
        fields_converted(fields@, r@),
{
    let ghost all = fields@;
    let mut rest = fields;
    let mut out: Vec<Field> = Vec::new();
    let n = rest.len();
    let mut i: usize = 0;
    while i < n
        invariant
            n == all.len(),
            i <= n,
            rest@ == all.subrange(i as int, n as int),
            out@.len() == i,
            forall|j: int| 0 <= j < i ==> #[trigger] field_converted(all[j], out@[j]),
        decreases n - i,
    {
        assert(rest@[0] == all[i as int]);
        let f = rest.remove(0);
        out.push(f.into_field());
        i += 1;
        assert(rest@ =~= all.subrange(i as int, n as int));
    }
    out
}

impl TelegramType {
    pub fn into_type(self) -> (r: Type)
        ensures
            type_converted(self, r),
    {
        let TelegramType { name, docs, fields } = self;
        Type { name, docs, fields: convert_fields(fields), kind: TypeKind::Type }
    }
}

impl TelegramMethod {
    pub fn into_type(self) -> (r: Type)
        ensures
            method_converted(self, r),
    {
        let TelegramMethod { name, docs, fields, return_type } = self;
        let mut name = name;
        capitalize(&mut name);
        let return_type = return_type.into_field_type("");
        proof {
            reveal_strlit("");
            assert(""@ =~= Seq::<char>::empty());
        }
        Type { name, docs, fields: convert_fields(fields), kind: TypeKind::Method(return_type) }
    }
}

impl TelegramTypeOrMethod {
    pub fn into_type(self) -> (r: Type)
        ensures
            match self {
                TelegramTypeOrMethod::Type(ty) => type_converted(ty, r),
                TelegramTypeOrMethod::Method(m) => method_converted(m, r),
            },
    {
        match self {
            TelegramTypeOrMethod::Method(method) => method.into_type(),
            TelegramTypeOrMethod::Type(telegram_type) => telegram_type.into_type(),
        }
    }
}

/// The array depth is the number of `Array of ` prefixes stripped, and stripping
/// again changes nothing: normalising the stripped phrase finds no array level and
/// keeps the same base.
pub proof fn lemma_array_depth(raw: Seq<char>, is_optional: bool, field_name: Seq<char>)
    requires
        !contains(strip_all(raw, array_word()), array_word()),
    ensures
        normalized(raw, is_optional, field_name).array_count == count_all(raw, array_word()),
        strip_all(strip_all(raw, array_word()), array_word()) == strip_all(raw, array_word()),
        normalized(strip_all(raw, array_word()), is_optional, field_name).array_count == 0,
        normalized(strip_all(raw, array_word()), is_optional, field_name) == (FieldTypeModel {
            array_count: 0,
            ..normalized(raw, is_optional, field_name)
        }),
{
    reveal_strlit("Array of ");
    lemma_strip_absent(strip_all(raw, array_word()), array_word());
}

/// A phrase holding both ` or ` and ` and ` is split on ` or ` alone.
pub proof fn lemma_or_before_and(raw: Seq<char>, is_optional: bool, field_name: Seq<char>)
    requires
        contains(strip_all(raw, array_word()), or_word()),
        contains(strip_all(raw, array_word()), and_word()),
        !has_suffix(field_name, "chat_id"@),
    ensures
        normalized(raw, is_optional, field_name).variants == Some(
            split_variants(strip_all(raw, array_word()), or_word()),
        ),
{
}

/// A union field whose name ends in `chat_id` is always the identifier-or-username
/// union, whatever the words of its phrase.
pub proof fn lemma_chat_id(raw: Seq<char>, is_optional: bool, field_name: Seq<char>)
    requires
        union_separator(strip_all(raw, array_word())) is Some,
        has_suffix(field_name, "chat_id"@),
    ensures
        normalized(raw, is_optional, field_name).name == "ChatIdOrUsername"@,
        normalized(raw, is_optional, field_name).variants == Some(chat_id_variants()),
        chat_id_variants().len() == 2,
        chat_id_variants()[0].0 == "Id"@,
        chat_id_variants()[1].0 == "Username"@,
{
}

/// A field marked optional stays optional once normalised.
pub proof fn lemma_optional_kept(raw: Seq<char>, field_name: Seq<char>)
    ensures
        normalized(raw, true, field_name).is_optional,
        !normalized(raw, false, field_name).is_optional,
{
}

} // verus!
