//! Case conversions of identifiers.
use crate::text::{chars_of, split_on, split_seq, string_of, views};
use vstd::prelude::*;

verus! {

/// What `char::to_lowercase` yields for `c`.
pub uninterp spec fn lower_of(c: char) -> Seq<char>;

/// What `char::to_uppercase` yields for `c`.
pub uninterp spec fn upper_of(c: char) -> Seq<char>;

/// Whether `c` has the Unicode `Uppercase` property.
pub uninterp spec fn uppercase(c: char) -> bool;

/// Relies on `char::to_lowercase`: the lower-case mapping of `c`.
#[verifier::external_body]
fn lower_char(c: char) -> (r: Vec<char>)
    ensures
        r@ == lower_of(c),
{
    c.to_lowercase().collect()
}

/// Relies on `char::to_uppercase`: the upper-case mapping of `c`.
#[verifier::external_body]
fn upper_char(c: char) -> (r: Vec<char>)
    ensures
        r@ == upper_of(c),
{
    c.to_uppercase().collect()
}

/// Relies on `char::is_uppercase`.
#[verifier::external_body]
fn is_upper(c: char) -> (r: bool)
    ensures
        r == uppercase(c),
{
    c.is_uppercase()
}

/// An upper-case letter becomes `_` and its lower-case form; anything else stays.
pub open spec fn snake_piece(c: char, upper: bool, lower: Seq<char>) -> Seq<char> {
    if upper {
        seq!['_'] + lower
    } else {
        seq![c]
    }
}

/// The pieces of the characters of `s` from the second up to position `n`.
pub open spec fn snake_tail(s: Seq<char>, upper: Seq<bool>, lower: Seq<Seq<char>>, n: int) -> Seq<
    char,
>
    decreases n,
{
    if n <= 1 {
        seq![]
    } else {
        snake_tail(s, upper, lower, n - 1) + snake_piece(s[n - 1], upper[n - 1], lower[n - 1])
    }
}

/// `s` in snake case, given for each character whether it is upper case and its
/// lower-case form: the first character in lower case, each later upper-case letter
/// as `_` and its lower-case form.
pub open spec fn snake_with(s: Seq<char>, upper: Seq<bool>, lower: Seq<Seq<char>>) -> Seq<char> {
    if s.len() == 0 {
        s
    } else {
        lower[0] + snake_tail(s, upper, lower, s.len() as int)
    }
}

/// `CamelCase` to `snake_case`, with the case mappings of `char`.
pub open spec fn snake_of(s: Seq<char>) -> Seq<char> {
    snake_with(s, s.map_values(|c: char| uppercase(c)), s.map_values(|c: char| lower_of(c)))
}

/// `s` with its first character in upper case.
pub open spec fn capitalized(s: Seq<char>) -> Seq<char> {
    if s.len() == 0 {
        s
    } else {
        upper_of(s[0]) + s.drop_first()
    }
}

/// The pieces of `v`, one after the other.
pub open spec fn concat(v: Seq<Seq<char>>) -> Seq<char>
    decreases v.len(),
{
    if v.len() == 0 {
        seq![]
    } else {
        concat(v.drop_last()) + v.last()
    }
}

/// The pieces of `v`, with `sep` between each two.
pub open spec fn join(v: Seq<Seq<char>>, sep: Seq<char>) -> Seq<char>
    decreases v.len(),
{
    if v.len() == 0 {
        seq![]
    } else if v.len() == 1 {
        v[0]
    } else {
        join(v.drop_last(), sep) + sep + v.last()
    }
}

/// `snake_case` to `PascalCase`: each piece between underscores capitalised, the
/// underscores dropped.
pub open spec fn pascal_of(s: Seq<char>) -> Seq<char> {
    concat(split_seq(s, seq!['_']).map_values(|p: Seq<char>| capitalized(p)))
}

/// Appends `s` to `out`.
pub fn push_all(out: &mut Vec<char>, s: &[char])
    ensures
        final(out)@ == old(out)@ + s@,
{
    let mut i: usize = 0;
    while i < s.len()
        invariant
            i <= s.len(),
            out@ == old(out)@ + s@.subrange(0, i as int),
        decreases s.len() - i,
    {
        out.push(s[i]);
        i += 1;
        assert(out@ =~= old(out)@ + s@.subrange(0, i as int));
    }
    assert(s@.subrange(0, i as int) =~= s@);
}

/// `s` with its first character replaced by `first` (its upper-case form).
pub fn capitalize_from(s: &[char], first: &[char]) -> (r: Vec<char>)
    requires
        s@.len() > 0,
    ensures
        r@ == first@ + s@.drop_first(),
{
    let mut out: Vec<char> = Vec::new();
    push_all(&mut out, first);
    let ghost o = out@;
    let mut i: usize = 1;
    while i < s.len()
        invariant
            1 <= i <= s.len(),
            out@ == o + s@.subrange(1, i as int),
        decreases s.len() - i,
    {
        out.push(s[i]);
        i += 1;
        assert(out@ =~= o + s@.subrange(1, i as int));
    }
    assert(s@.subrange(1, s@.len() as int) =~= s@.drop_first());
    out
}

fn capitalize_chars(s: &[char]) -> (r: Vec<char>)
    ensures
        r@ == capitalized(s@),
{
    if s.len() == 0 {
        return Vec::new();
    }
    capitalize_from(s, &upper_char(s[0]))
}

/// `s` in snake case, given for each character whether it is upper case (`upper`)
/// and its lower-case form (`lower`).
pub fn snake_case_from(s: &[char], upper: &[bool], lower: &Vec<Vec<char>>) -> (r: Vec<char>)
    requires
        upper@.len() == s@.len(),
        lower@.len() == s@.len(),
    ensures
        r@ == snake_with(s@, upper@, views(lower@)),
{
    if s.len() == 0 {
        return Vec::new();
    }
    let mut out: Vec<char> = Vec::new();
    push_all(&mut out, &lower[0]);
    assert(out@ == views(lower@)[0]);
    let mut i: usize = 1;
    while i < s.len()
        invariant
            1 <= i <= s.len(),
            upper@.len() == s@.len(),
            lower@.len() == s@.len(),
            out@ == views(lower@)[0] + snake_tail(s@, upper@, views(lower@), i as int),
        decreases s.len() - i,
    {
        if upper[i] {
            out.push('_');
            push_all(&mut out, &lower[i]);
        } else {
            out.push(s[i]);
        }
        assert(out@ =~= views(lower@)[0] + snake_tail(s@, upper@, views(lower@), i + 1));
        i += 1;
    }
    out
}

/// Converts a `CamelCase` name to `snake_case`.
pub fn snake_case(string: &str) -> (r: String)
    ensures
        r@ == snake_of(string@),
{
    let s = chars_of(string);
    let mut upper: Vec<bool> = Vec::new();
    let mut lower: Vec<Vec<char>> = Vec::new();
    let mut i: usize = 0;
    while i < s.len()
        invariant
            i <= s.len(),
            s@ == string@,
            upper@ == s@.map_values(|c: char| uppercase(c)).subrange(0, i as int),
            views(lower@) == s@.map_values(|c: char| lower_of(c)).subrange(0, i as int),
        decreases s.len() - i,
    {
        let ghost lv = views(lower@);
        upper.push(is_upper(s[i]));
        lower.push(lower_char(s[i]));
        assert(views(lower@) =~= lv.push(lower_of(s@[i as int])));
        i += 1;
        assert(upper@ =~= s@.map_values(|c: char| uppercase(c)).subrange(0, i as int));
        assert(views(lower@) =~= s@.map_values(|c: char| lower_of(c)).subrange(0, i as int));
    }
    assert(upper@ =~= s@.map_values(|c: char| uppercase(c)));
    assert(views(lower@) =~= s@.map_values(|c: char| lower_of(c)));
    string_of(&snake_case_from(&s, &upper, &lower))
}

/// Puts the first character of `string` in upper case.
pub fn capitalize(string: &mut String)
    ensures
        final(string)@ == capitalized(old(string)@),
{
    let s = chars_of(string.as_str());
    let out = capitalize_chars(&s);
    *string = string_of(&out);
}

/// Converts a `snake_case` name to `PascalCase`.
pub fn pascal_case(s: &[char]) -> (r: Vec<char>)
    ensures
        r@ == pascal_of(s@),
{
    let pieces = split_on(s, &['_']);
    let ghost ps = views(pieces@).map_values(|p: Seq<char>| capitalized(p));
    let mut out: Vec<char> = Vec::new();
    let mut i: usize = 0;
    assert(seq!['_'] =~= [ '_' ]@);
    while i < pieces.len()
        invariant
            i <= pieces.len(),
            ps == views(pieces@).map_values(|p: Seq<char>| capitalized(p)),
            ps == split_seq(s@, seq!['_']).map_values(|p: Seq<char>| capitalized(p)),
            out@ == concat(ps.subrange(0, i as int)),
        decreases pieces.len() - i,
    {
        let c = capitalize_chars(&pieces[i]);
        let mut c2 = c;
        out.append(&mut c2);
        assert(ps.subrange(0, i + 1).drop_last() =~= ps.subrange(0, i as int));
        i += 1;
    }
    assert(ps.subrange(0, i as int) =~= ps);
    out
}

/// The pieces of `v`, with `sep` between each two.
pub fn join_with(v: &Vec<Vec<char>>, sep: &[char]) -> (r: Vec<char>)
    ensures
        r@ == join(views(v@), sep@),
{
    let mut out: Vec<char> = Vec::new();
    let mut i: usize = 0;
    while i < v.len()
        invariant
            i <= v.len(),
            out@ == join(views(v@).subrange(0, i as int), sep@),
        decreases v.len() - i,
    {
        assert(views(v@).subrange(0, i + 1).drop_last() =~= views(v@).subrange(0, i as int));
        if i > 0 {
            push_all(&mut out, sep);
        } else {
            assert(out@ =~= seq![]);
        }
        push_all(&mut out, &v[i]);
        i += 1;
    }
    assert(views(v@).subrange(0, i as int) =~= views(v@));
    out
}

} // verus!
