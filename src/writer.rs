//! The files that hold the registry's declarations: one per entry, and an
//! aggregation file per area.
use crate::render::{import_source, render_import};
use crate::text::{chars_of, string_of};
use crate::types::{same_tag, Module, ModuleModel, TypeKind, TypeKindModel};
use crate::utils::push_all;
use vstd::prelude::*;

verus! {

/// A file to write: its path under the output directory, and its text.
#[derive(Debug)]
pub struct OutputFile {
    pub path: String,
    pub contents: String,
}

/// The directory that holds the entries of a kind.
pub open spec fn kind_dir(k: TypeKindModel) -> Seq<char> {
    match k {
        TypeKindModel::Type => "types"@,
        TypeKindModel::Method(_) => "methods"@,
        TypeKindModel::Enum => "types/enums"@,
    }
}

/// The text an aggregation file starts with: the types area also brings in the
/// unions' area.
pub open spec fn index_start(k: TypeKindModel) -> Seq<char> {
    match k {
        TypeKindModel::Type => "pub mod enums;\n"@ + import_source("self::enums"@, "*"@, "pub"@),
        _ => Seq::empty(),
    }
}

/// The aggregation text `s` after entry `m` is added: its `mod` line put in front,
/// its public import put at the end.
pub open spec fn with_module(s: Seq<char>, m: ModuleModel) -> Seq<char> {
    "mod "@ + m.module_name + ";\n"@ + s + import_source(
        "self::"@ + m.module_name,
        m.module_type,
        "pub"@,
    )
}

/// The entries of `ms` of the same kind as `k`, in order.
pub open spec fn of_kind(ms: Seq<ModuleModel>, k: TypeKindModel) -> Seq<ModuleModel>
    decreases ms.len(),
{
    if ms.len() == 0 {
        Seq::empty()
    } else if same_tag(ms.last().kind, k) {
        of_kind(ms.drop_last(), k).push(ms.last())
    } else {
        of_kind(ms.drop_last(), k)
    }
}

pub open spec fn index_text(init: Seq<char>, ms: Seq<ModuleModel>) -> Seq<char>
    decreases ms.len(),
{
    if ms.len() == 0 {
        init
    } else {
        with_module(index_text(init, ms.drop_last()), ms.last())
    }
}

/// The file of one entry.
pub open spec fn module_file(dir: Seq<char>, m: ModuleModel) -> (Seq<char>, Seq<char>) {
    (dir + "/"@ + m.module_name + ".rs"@, m.contents)
}

/// The files of an area: one per entry, then the aggregation file.
pub open spec fn area_files(ms: Seq<ModuleModel>, k: TypeKindModel) -> Seq<(Seq<char>, Seq<char>)> {
    let sel = of_kind(ms, k);
    sel.map_values(|m: ModuleModel| module_file(kind_dir(k), m)).push(
        (kind_dir(k) + "/mod.rs"@, index_text(index_start(k), sel)),
    )
}

pub open spec fn files_view(v: Seq<OutputFile>) -> Seq<(Seq<char>, Seq<char>)> {
    v.map_values(|f: OutputFile| (f.path@, f.contents@))
}

fn concat3(a: &str, b: &str, c: &str) -> (r: String)
    ensures
        r@ == a@ + b@ + c@,
{
    let mut out = chars_of(a);
    push_all(&mut out, &chars_of(b));
    push_all(&mut out, &chars_of(c));
    string_of(&out)
}

/// Adds `module` to the aggregation text `string`.
pub fn generate_single_mod(module: &Module, string: &mut String)
    ensures
        final(string)@ == with_module(old(string)@, module@),
{
    let mut out = chars_of(concat3("mod ", module.module_name.as_str(), ";\n").as_str());
    push_all(&mut out, &chars_of(string.as_str()));
    let path = concat3("self::", module.module_name.as_str(), "");
    proof {
        reveal_strlit("");
        assert(path@ =~= "self::"@ + module.module_name@);
    }
    let import = render_import(path.as_str(), module.module_type.as_str(), "pub");
    push_all(&mut out, &chars_of(import.as_str()));
    *string = string_of(&out);
}

fn kind_dir_of(k: &TypeKind) -> (r: String)
    ensures
        r@ == kind_dir(k@),
{
    match k {
        TypeKind::Type => "types".to_owned(),
        TypeKind::Method(_) => "methods".to_owned(),
        TypeKind::Enum => "types/enums".to_owned(),
    }
}

/// The files of the entries of `modules` of the kind of `kind`, under `dir`; each
/// entry is also added to the aggregation text `string`.
pub fn write_module_file(dir: &str, modules: &Vec<Module>, kind: &TypeKind, string: &mut String) -> (r:
    Vec<OutputFile>)
    ensures
        files_view(r@) == of_kind(modules@.map_values(|m: Module| m@), kind@).map_values(
            |m: ModuleModel| module_file(dir@, m),
        ),
        final(string)@ == index_text(old(string)@, of_kind(modules@.map_values(|m: Module| m@), kind@)),
{
    let ghost ms = modules@.map_values(|m: Module| m@);
    let ghost init = string@;
    let mut files: Vec<OutputFile> = Vec::new();
    let mut i: usize = 0;
    while i < modules.len()
        invariant
            i <= modules.len(),
            ms == modules@.map_values(|m: Module| m@),
            string@ == index_text(init, of_kind(ms.subrange(0, i as int), kind@)),
            files_view(files@) == of_kind(ms.subrange(0, i as int), kind@).map_values(
                |m: ModuleModel| module_file(dir@, m),
            ),
        decreases modules.len() - i,
    {
        let m = &modules[i];
        let ghost pre = ms.subrange(0, i as int);
        assert(ms.subrange(0, i + 1).drop_last() =~= pre);
        assert(ms.subrange(0, i + 1).last() == m@);
        if m.kind.same_tag(kind) {
            let ghost before = files_view(files@);
            let path = concat3(dir, "/", concat3(m.module_name.as_str(), ".rs", "").as_str());
            proof {
                reveal_strlit("");
            }
            files.push(OutputFile { path, contents: m.contents.clone() });
            generate_single_mod(m, string);
            proof {
                let sel = of_kind(pre, kind@);
                assert(path@ =~= dir@ + "/"@ + m@.module_name + ".rs"@);
                assert(files_view(files@) =~= before.push(module_file(dir@, m@)));
                assert(sel.push(m@).map_values(|x: ModuleModel| module_file(dir@, x))
                    =~= sel.map_values(|x: ModuleModel| module_file(dir@, x)).push(
                    module_file(dir@, m@),
                ));
                assert(sel.push(m@).drop_last() =~= sel);
            }
        }
        i += 1;
    }
    assert(ms.subrange(0, i as int) =~= ms);
    files
}

/// The files of the area of the entries of the kind of `kind`; `None` where there
/// is no such entry.
pub fn write_mod_files(modules: &Vec<Module>, kind: &TypeKind) -> (r: Option<Vec<OutputFile>>)
    ensures
        match r {
            Some(files) => of_kind(modules@.map_values(|m: Module| m@), kind@).len() > 0
                && files_view(files@) == area_files(modules@.map_values(|m: Module| m@), kind@),
            None => of_kind(modules@.map_values(|m: Module| m@), kind@).len() == 0,
        },
{
    let dir = kind_dir_of(kind);
    let mut index = match kind {
        TypeKind::Type => {
            let mut s = chars_of("pub mod enums;\n");
            push_all(&mut s, &chars_of(render_import("self::enums", "*", "pub").as_str()));
            string_of(&s)
        },
        _ => "".to_owned(),
    };
    proof {
        reveal_strlit("");
        assert(index@ =~= index_start(kind@));
    }
    let mut files = write_module_file(dir.as_str(), modules, kind, &mut index);
    assert(files_view(files@).len() == files@.len());
    if files.len() == 0 {
        return None;
    }
    let mod_path = concat3(dir.as_str(), "/mod.rs", "");
    proof {
        reveal_strlit("");
    }
    let ghost before = files_view(files@);
    files.push(OutputFile { path: mod_path, contents: index });
    assert(files_view(files@) =~= before.push((mod_path@, index@)));
    assert(mod_path@ =~= kind_dir(kind@) + "/mod.rs"@);
    Some(files)
}

} // verus!
