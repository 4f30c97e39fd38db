//! Reading entities out of the document's tables, and inferring a method's return
//! type from its documentation.
use crate::text::{
    chars_of, contains, contains_exec, ends_with, eq_str, has_prefix, has_suffix, split_on,
    split_seq, split_words, starts_with, string_of, views, words_of,
};
use crate::types::{
    FieldKind, FieldType, TelegramField, TelegramFieldType, TelegramMethod, TelegramType,
    TelegramTypeOrMethod, pairs_view, strings_view,
};
use crate::utils::{join, join_with};
use vstd::prelude::*;

verus! {

pub open spec fn strs_view(v: Seq<&str>) -> Seq<Seq<char>> {
    v.map_values(|s: &str| s@)
}

pub open spec fn word_at(words: Seq<Seq<char>>, i: int) -> Option<Seq<char>> {
    if 0 <= i < words.len() {
        Some(words[i])
    } else {
        None
    }
}

/// The first index at or after `k` that holds `w`.
pub open spec fn index_from(words: Seq<Seq<char>>, w: Seq<char>, k: int) -> Option<int>
    decreases words.len() - k,
{
    if k < 0 || k >= words.len() {
        None
    } else if words[k] == w {
        Some(k)
    } else {
        index_from(words, w, k + 1)
    }
}

/// A word that may announce the return type: `returned...` or `...eturns`.
pub open spec fn is_anchor(w: Seq<char>) -> bool {
    has_prefix(w, "returned"@) || has_suffix(w, "eturns"@)
}

/// The first anchor word at or after `k`.
pub open spec fn anchor_from(words: Seq<Seq<char>>, k: int) -> Option<int>
    decreases words.len() - k,
{
    if k < 0 || k >= words.len() {
        None
    } else if is_anchor(words[k]) {
        Some(k)
    } else {
        anchor_from(words, k + 1)
    }
}

/// `w` without its last character where that is `c`.
pub open spec fn drop_last_if(w: Seq<char>, c: char) -> Seq<char> {
    if w.len() > 0 && w.last() == c {
        w.drop_last()
    } else {
        w
    }
}

/// The type named around a `returns` anchor at `position`: the word after `as`,
/// else the second after `Array`, else the one after the anchor; past an article
/// `a` or `the` to the word after the next one; without a trailing comma.
pub open spec fn returns_word(words: Seq<Seq<char>>, position: int) -> Option<Seq<char>> {
    let first = match index_from(words, "as"@, 0) {
        Some(p) => word_at(words, p + 1),
        None => match index_from(words, "Array"@, 0) {
            Some(p) => word_at(words, p + 2),
            None => word_at(words, position + 1),
        },
    };
    match first {
        None => None,
        Some(w) => {
            let second = if w == "a"@ {
                word_at(words, position + 2)
            } else if w == "the"@ {
                word_at(words, position + 3)
            } else {
                Some(w)
            };
            match second {
                None => None,
                Some(x) => Some(drop_last_if(x, ',')),
            }
        },
    }
}

/// The type named before an `is returned` anchor at `position`: two words back,
/// three where that word starts with `object` and a word stands there; without a
/// plural `s`.
pub open spec fn is_returned_word(words: Seq<Seq<char>>, position: int) -> Option<Seq<char>> {
    match word_at(words, position - 2) {
        None => None,
        Some(w) => {
            let x = if has_prefix(w, "object"@) && position >= 3 {
                words[position - 3]
            } else {
                w
            };
            Some(drop_last_if(x, 's'))
        },
    }
}

/// The type announced by the anchor at `a`.
pub open spec fn type_at(words: Seq<Seq<char>>, a: int) -> Option<Seq<char>> {
    let w = words[a];
    if w == "returned"@ || w == "returned,"@ {
        is_returned_word(words, a)
    } else if w == "Returns"@ || w == "returns"@ {
        returns_word(words, a)
    } else {
        None
    }
}

/// The types of the next `n` anchors from `from`, after those in `acc`.
pub open spec fn anchored_types(words: Seq<Seq<char>>, from: int, n: nat, acc: Seq<Seq<char>>) -> Option<
    Seq<Seq<char>>,
>
    decreases n,
{
    if n == 0 {
        Some(acc)
    } else {
        match anchor_from(words, from) {
            None => None,
            Some(a) => match type_at(words, a) {
                None => None,
                Some(t) => anchored_types(words, a + 1, (n - 1) as nat, acc.push(t)),
            },
        }
    }
}

/// The type phrase a sentence announces, for `count` expected types.
pub open spec fn sentence_type(sentence: Seq<char>, count: nat) -> Option<Seq<char>> {
    let prefix = if contains(sentence, "rray of"@) {
        "Array of "@
    } else {
        Seq::empty()
    };
    match anchored_types(words_of(sentence), 0, count, Seq::empty()) {
        None => None,
        Some(ts) => Some(prefix + join(ts, " or "@)),
    }
}

/// A sentence that speaks of what is returned.
pub open spec fn is_return_sentence(s: Seq<char>) -> bool {
    contains(s, "is returned"@) || contains(s, "eturns"@)
}

/// The first return sentence from `k` on.
pub open spec fn return_sentence_from(sentences: Seq<Seq<char>>, k: int) -> Option<Seq<char>>
    decreases sentences.len() - k,
{
    if k < 0 || k >= sentences.len() {
        None
    } else if is_return_sentence(sentences[k]) {
        Some(sentences[k])
    } else {
        return_sentence_from(sentences, k + 1)
    }
}

/// The return type phrase of a method documented by `doc`: read from its first
/// return sentence, two types joined by ` or ` where that sentence says `otherwise`.
pub open spec fn return_type_of(doc: Seq<char>) -> Option<Seq<char>> {
    match return_sentence_from(split_seq(doc, "."@), 0) {
        None => None,
        Some(s) => sentence_type(s, if contains(s, "otherwise"@) { 2 } else { 1 }),
    }
}

pub open spec fn opt_view(o: Option<&str>) -> Option<Seq<char>> {
    match o {
        Some(s) => Some(s@),
        None => None,
    }
}

pub open spec fn opt_index(o: Option<usize>) -> Option<int> {
    match o {
        Some(i) => Some(i as int),
        None => None,
    }
}

fn index_of(words: &[&str], w: &str) -> (r: Option<usize>)
    ensures
        opt_index(r) == index_from(strs_view(words@), w@, 0),
        r matches Some(i) ==> i < words@.len(),
{
    let mut k: usize = 0;
    while k < words.len()
        invariant
            k <= words.len(),
            index_from(strs_view(words@), w@, 0) == index_from(strs_view(words@), w@, k as int),
        decreases words.len() - k,
    {
        if eq_str(words[k], w) {
            return Some(k);
        }
        k += 1;
    }
    None
}

fn word_after<'a>(words: &[&'a str], position: usize, d: usize) -> (r: Option<&'a str>)
    requires
        position < words@.len(),
    ensures
        opt_view(r) == word_at(strs_view(words@), position + d),
{
    if d < words.len() - position {
        Some(words[position + d])
    } else {
        None
    }
}

fn drop_last_char<'a>(w: &'a str, c: char) -> (r: &'a str)
    ensures
        r@ == drop_last_if(w@, c),
{
    let n = w.unicode_len();
    if n > 0 && w.get_char(n - 1) == c {
        w.substring_char(0, n - 1)
    } else {
        w
    }
}

pub open spec fn opt_string(o: Option<String>) -> Option<Seq<char>> {
    match o {
        Some(s) => Some(s@),
        None => None,
    }
}

fn is_anchor_word(w: &str) -> (r: bool)
    ensures
        r == is_anchor(w@),
{
    let c = chars_of(w);
    starts_with(&c, &chars_of("returned")) || ends_with(&c, &chars_of("eturns"))
}

fn find_anchor(words: &[&str], from: usize) -> (r: Option<usize>)
    ensures
        opt_index(r) == anchor_from(strs_view(words@), from as int),
        r matches Some(i) ==> i < words@.len(),
{
    let mut k: usize = from;
    while k < words.len()
        invariant
            from <= k,
            anchor_from(strs_view(words@), from as int) == anchor_from(
                strs_view(words@),
                k as int,
            ),
        decreases words.len() - k,
    {
        if is_anchor_word(words[k]) {
            return Some(k);
        }
        k += 1;
    }
    None
}

/// The words of `s`, each as its own string.
fn owned_words(s: &[char]) -> (r: Vec<String>)
    ensures
        r@.map_values(|w: String| w@) == words_of(s@),
{
    let pieces = split_words(s);
    let mut out: Vec<String> = Vec::new();
    let mut i: usize = 0;
    while i < pieces.len()
        invariant
            i <= pieces.len(),
            out@.map_values(|w: String| w@) == views(pieces@).subrange(0, i as int),
        decreases pieces.len() - i,
    {
        let ghost o = out@.map_values(|w: String| w@);
        let w = string_of(&pieces[i]);
        assert(views(pieces@)[i as int] == w@);
        out.push(w);
        assert(out@.map_values(|w: String| w@) =~= o.push(w@));
        i += 1;
        assert(out@.map_values(|w: String| w@) =~= views(pieces@).subrange(0, i as int));
    }
    assert(views(pieces@).subrange(0, i as int) =~= views(pieces@));
    out
}

fn borrow_words(owned: &Vec<String>) -> (r: Vec<&str>)
    ensures
        strs_view(r@) == owned@.map_values(|w: String| w@),
{
    let mut out: Vec<&str> = Vec::new();
    let mut i: usize = 0;
    while i < owned.len()
        invariant
            i <= owned.len(),
            strs_view(out@) == owned@.map_values(|w: String| w@).subrange(0, i as int),
        decreases owned.len() - i,
    {
        let ghost o = strs_view(out@);
        let w = owned[i].as_str();
        assert(owned@.map_values(|w: String| w@)[i as int] == w@);
        out.push(w);
        assert(strs_view(out@) =~= o.push(w@));
        i += 1;
        assert(strs_view(out@) =~= owned@.map_values(|w: String| w@).subrange(0, i as int));
    }
    assert(owned@.map_values(|w: String| w@).subrange(0, i as int) =~= owned@.map_values(
        |w: String| w@,
    ));
    out
}

impl TelegramMethod {
    /// The type phrase that `sentence` announces, for `count` expected types.
    pub fn parse_return_type_sentence(sentence: &str, count: u8) -> (r: Option<String>)
        ensures
            opt_string(r) == sentence_type(sentence@, count as nat),
    {
        let s = chars_of(sentence);
        let owned = owned_words(&s);
        let words = borrow_words(&owned);
        let ghost ws = words_of(sentence@);
        let mut acc: Vec<Vec<char>> = Vec::new();
        let mut from: usize = 0;
        let mut i: u8 = 0;
        assert(views(acc@) =~= Seq::<Seq<char>>::empty());
        while i < count
            invariant
                i <= count,
                strs_view(words@) == ws,
                ws == words_of(sentence@),
                s@ == sentence@,
                anchored_types(ws, from as int, (count - i) as nat, views(acc@)) == anchored_types(
                    ws,
                    0,
                    count as nat,
                    Seq::empty(),
                ),
            decreases count - i,
        {
            let a = match find_anchor(&words, from) {
                None => {
                    assert(anchored_types(ws, from as int, (count - i) as nat, views(acc@)) is None);
                    return None;
                },
                Some(a) => a,
            };
            let w = words[a];
            assert(ws[a as int] == w@);
            let t = if eq_str(w, "returned") || eq_str(w, "returned,") {
                Self::parse_is_returned(&words, a)
            } else if eq_str(w, "Returns") || eq_str(w, "returns") {
                Self::parse_returns(&words, a)
            } else {
                None
            };
            let t = match t {
                None => {
                    assert(type_at(ws, a as int) is None);
                    assert(anchored_types(ws, from as int, (count - i) as nat, views(acc@)) is None);
                    return None;
                },
                Some(t) => t,
            };
            let ghost before = views(acc@);
            acc.push(chars_of(t));
            assert(views(acc@) =~= before.push(t@));
            from = a + 1;
            i += 1;
        }
        let mut out: Vec<char> = Vec::new();
        if contains_exec(&s, &chars_of("rray of")) {
            out = chars_of("Array of ");
        }
        let mut joined = join_with(&acc, &chars_of(" or "));
        out.append(&mut joined);
        Some(string_of(&out))
    }

    /// The return type phrase of a method whose first paragraph is `doc`.
    pub fn parse_return_type(doc: &str) -> (r: Option<String>)
        ensures
            opt_string(r) == return_type_of(doc@),
    {
        let d = chars_of(doc);
        let dot = chars_of(".");
        proof {
            reveal_strlit(".");
        }
        let sentences = split_on(&d, &dot);
        let ghost ss = views(sentences@);
        let mut k: usize = 0;
        while k < sentences.len()
            invariant
                ss == views(sentences@),
                ss == split_seq(doc@, "."@),
                return_sentence_from(ss, 0) == return_sentence_from(ss, k as int),
            decreases sentences.len() - k,
        {
            let s = &sentences[k];
            assert(ss[k as int] == s@);
            if contains_exec(s, &chars_of("is returned")) || contains_exec(s, &chars_of("eturns")) {
                let sentence = string_of(s);
                let count: u8 = if contains_exec(s, &chars_of("otherwise")) {
                    2
                } else {
                    1
                };
                return Self::parse_return_type_sentence(sentence.as_str(), count);
            }
            k += 1;
        }
        None
    }

    /// The type named around a `Returns`/`returns` anchor at `position`.
    pub fn parse_returns<'a>(words: &[&'a str], position: usize) -> (r: Option<&'a str>)
        requires
            position < words@.len(),
        ensures
            opt_view(r) == returns_word(strs_view(words@), position as int),
    {
        let first = if let Some(p) = index_of(words, "as") {
            word_after(words, p, 1)
        } else if let Some(p) = index_of(words, "Array") {
            word_after(words, p, 2)
        } else {
            word_after(words, position, 1)
        };
        let word = match first {
            None => {
                return None;
            },
            Some(w) => w,
        };
        let second = if eq_str(word, "a") {
            word_after(words, position, 2)
        } else if eq_str(word, "the") {
            word_after(words, position, 3)
        } else {
            Some(word)
        };
        match second {
            None => None,
            Some(x) => Some(drop_last_char(x, ',')),
        }
    }

    /// The type named before a `returned` anchor at `position`.
    pub fn parse_is_returned<'a>(words: &[&'a str], position: usize) -> (r: Option<&'a str>)
        requires
            position < words@.len(),
        ensures
            opt_view(r) == is_returned_word(strs_view(words@), position as int),
    {
        if position < 2 {
            return None;
        }
        let word = words[position - 2];
        let x = if position >= 3 && starts_with(&chars_of(word), &chars_of("object")) {
            words[position - 3]
        } else {
            word
        };
        Some(drop_last_char(x, 's'))
    }
}

/// A node beside an entity's table, as the extraction reads it.
#[derive(Debug)]
pub struct Sibling {
    /// The element's tag name; `None` for a text node.
    pub tag: Option<String>,
    /// The text of all the node's descendants, in document order.
    pub text: String,
    /// The node's last child, where that is a text node.
    pub last_text: Option<String>,
}

/// A `td` cell of a table row.
#[derive(Debug)]
pub struct Cell {
    /// The cell's first child, where that is a text node.
    pub first_text: Option<String>,
    /// The text of all the cell's descendants, in document order.
    pub text: String,
}

#[derive(Debug)]
pub struct Row {
    pub cells: Vec<Cell>,
}

/// An entity table: its rows, the header row first, and the nodes before it,
/// nearest first.
#[derive(Debug)]
pub struct Table {
    pub preceding: Vec<Sibling>,
    pub rows: Vec<Row>,
}

/// A bulleted list that enumerates a union's variants: the first text of each item,
/// and the nodes before the list, nearest first.
#[derive(Debug)]
pub struct List {
    pub preceding: Vec<Sibling>,
    pub items: Vec<String>,
}

/// Why the document could not be read.
#[derive(Debug, Clone, Copy, PartialEq, Eq, Structural)]
pub enum ParseError {
    /// An expected heading, paragraph, row or text node is not where the document's
    /// conventions put it.
    Structure,
    /// No sentence of a method's documentation states its return type in a known form.
    ReturnType,
    /// A table or row has neither three nor four columns.
    Shape,
}

/// Walking back from a table two nodes at a time: paragraphs give the documentation,
/// in document order, until a `h4` heading gives the name.
pub open spec fn name_docs_go(s: Seq<Sibling>, k: int, docs: Seq<Seq<char>>) -> Option<
    (Seq<char>, Seq<Seq<char>>),
>
    decreases s.len() + 1 - k,
{
    if k < 0 || k >= s.len() {
        None
    } else {
        match s[k].tag {
            None => None,
            Some(t) => if t@ == "h4"@ {
                match s[k].last_text {
                    Some(n) => Some((n@, docs)),
                    None => None,
                }
            } else {
                name_docs_go(s, k + 2, seq![s[k].text@] + docs)
            },
        }
    }
}

pub open spec fn name_and_docs(s: Seq<Sibling>) -> Option<(Seq<char>, Seq<Seq<char>>)> {
    name_docs_go(s, 1, Seq::empty())
}

/// The number of cells of the first data row.
pub open spec fn table_width(t: Table) -> Option<nat> {
    if t.rows@.len() >= 2 {
        Some(t.rows@[1].cells@.len())
    } else {
        None
    }
}

pub open spec fn optional_marker() -> Seq<char> {
    "Optional. "@
}

/// What is wrong with a data row of a table `width` columns wide.
pub open spec fn row_error(row: Row, width: nat) -> Option<ParseError> {
    if row.cells@.len() != width {
        Some(ParseError::Shape)
    } else if row.cells@[0].first_text is None || (width == 4 && row.cells@[2].first_text is None) {
        Some(ParseError::Structure)
    } else {
        None
    }
}

/// What is wrong with the first bad data row from `k` on.
pub open spec fn rows_error(rows: Seq<Row>, k: int, width: nat) -> Option<ParseError>
    decreases rows.len() - k,
{
    if k < 0 || k >= rows.len() {
        None
    } else if row_error(rows[k], width) is Some {
        row_error(rows[k], width)
    } else {
        rows_error(rows, k + 1, width)
    }
}

/// `f` is the field that the three-column row `row` describes.
pub open spec fn type_field_of(row: Row, f: TelegramField) -> bool {
    let doc = row.cells@[2].text@;
    let optional = has_prefix(doc, optional_marker());
    &&& f.name@ == row.cells@[0].first_text->0@
    &&& f.telegram_type.name@ == row.cells@[1].text@
    &&& f.telegram_type.is_optional == optional
    &&& f.doc@ == if optional {
        doc.subrange(optional_marker().len() as int, doc.len() as int)
    } else {
        doc
    }
}

/// `f` is the field that the four-column row `row` describes.
pub open spec fn method_field_of(row: Row, f: TelegramField) -> bool {
    &&& f.name@ == row.cells@[0].first_text->0@
    &&& f.telegram_type.name@ == row.cells@[1].text@
    &&& f.telegram_type.is_optional == (row.cells@[2].first_text->0@ == "Optional"@)
    &&& f.doc@ == row.cells@[3].text@
}

/// `fs` are the fields of the data rows of `rows` (all but the first).
pub open spec fn fields_of(rows: Seq<Row>, fs: Seq<TelegramField>, width: nat) -> bool {
    &&& fs.len() + 1 == rows.len()
    &&& forall|i: int|
        0 <= i < fs.len() ==> if width == 3 {
            type_field_of(#[trigger] rows[i + 1], fs[i])
        } else {
            method_field_of(#[trigger] rows[i + 1], fs[i])
        }
}

/// The return type phrase read from the first documentation paragraph, if any.
pub open spec fn first_doc_type(nd: Option<(Seq<char>, Seq<Seq<char>>)>) -> Option<Seq<char>> {
    match nd {
        Some((_, docs)) => if docs.len() > 0 {
            return_type_of(docs[0])
        } else {
            None
        },
        None => None,
    }
}

/// Why `t` cannot be read as an entity, if it cannot.
pub open spec fn table_error(t: Table) -> Option<ParseError> {
    match table_width(t) {
        None => Some(ParseError::Structure),
        Some(w) => if w == 3 {
            entity_error(t, 3)
        } else if w == 4 {
            entity_error(t, 4)
        } else {
            Some(ParseError::Shape)
        },
    }
}

/// Why `t` cannot be read as an entity whose rows have `width` columns, if it cannot.
pub open spec fn entity_error(t: Table, width: nat) -> Option<ParseError> {
    if t.rows@.len() == 0 || name_and_docs(t.preceding@) is None {
        Some(ParseError::Structure)
    } else if rows_error(t.rows@, 1, width) is Some {
        rows_error(t.rows@, 1, width)
    } else if width == 4 && first_doc_type(name_and_docs(t.preceding@)) is None {
        Some(ParseError::ReturnType)
    } else {
        None
    }
}

/// `ty` is the type that the table `t` describes.
pub open spec fn type_parsed(t: Table, ty: TelegramType) -> bool {
    &&& name_and_docs(t.preceding@) == Some((ty.name@, strings_view(ty.docs@)))
    &&& fields_of(t.rows@, ty.fields@, 3)
}

/// `m` is the method that the table `t` describes.
pub open spec fn method_parsed(t: Table, m: TelegramMethod) -> bool {
    &&& name_and_docs(t.preceding@) == Some((m.name@, strings_view(m.docs@)))
    &&& fields_of(t.rows@, m.fields@, 4)
    &&& m.docs@.len() > 0
    &&& return_type_of(m.docs@[0]@) == Some(m.return_type.name@)
    &&& !m.return_type.is_optional
}

/// Reads the name and documentation of the entity whose table follows `siblings`.
pub fn parse_name_and_docs(siblings: &Vec<Sibling>) -> (r: Option<(String, Vec<String>)>)
    ensures
        match r {
            Some((n, d)) => name_and_docs(siblings@) == Some((n@, strings_view(d@))),
            None => name_and_docs(siblings@) is None,
        },
{
    let mut docs: Vec<String> = Vec::new();
    let mut k: usize = 1;
    assert(strings_view(docs@) =~= Seq::<Seq<char>>::empty());
    while k < siblings.len()
        invariant
            k >= 1,
            name_docs_go(siblings@, k as int, strings_view(docs@)) == name_and_docs(siblings@),
        decreases siblings.len() - k,
    {
        let node = &siblings[k];
        match &node.tag {
            None => {
                return None;
            },
            Some(t) => {
                if eq_str(t.as_str(), "h4") {
                    return match &node.last_text {
                        Some(n) => Some((n.clone(), docs)),
                        None => None,
                    };
                }
                let ghost before = strings_view(docs@);
                docs.insert(0, node.text.clone());
                assert(strings_view(docs@) =~= seq![node.text@] + before);
            },
        }
        if siblings.len() - k <= 2 {
            assert(name_docs_go(siblings@, k + 2, strings_view(docs@)) is None);
            return None;
        }
        k += 2;
    }
    None
}

fn strip_marker(doc: &String) -> (r: (bool, String))
    ensures
        r.0 == has_prefix(doc@, optional_marker()),
        r.1@ == if r.0 {
            doc@.subrange(optional_marker().len() as int, doc@.len() as int)
        } else {
            doc@
        },
{
    let d = chars_of(doc.as_str());
    let marker = chars_of("Optional. ");
    if starts_with(&d, &marker) {
        let mut rest: Vec<char> = Vec::new();
        let mut i: usize = marker.len();
        while i < d.len()
            invariant
                marker.len() <= i <= d.len(),
                rest@ == d@.subrange(marker@.len() as int, i as int),
            decreases d.len() - i,
        {
            rest.push(d[i]);
            i += 1;
            assert(rest@ =~= d@.subrange(marker@.len() as int, i as int));
        }
        (true, string_of(&rest))
    } else {
        (false, doc.clone())
    }
}

fn row_field(row: &Row, width: usize) -> (r: Result<TelegramField, ParseError>)
    requires
        width == 3 || width == 4,
    ensures
        match r {
            Ok(f) => row_error(*row, width as nat) is None && if width == 3 {
                type_field_of(*row, f)
            } else {
                method_field_of(*row, f)
            },
            Err(e) => row_error(*row, width as nat) == Some(e),
        },
{
    if row.cells.len() != width {
        return Err(ParseError::Shape);
    }
    let name = match &row.cells[0].first_text {
        Some(n) => n.clone(),
        None => {
            return Err(ParseError::Structure);
        },
    };
    let phrase = row.cells[1].text.clone();
    if width == 3 {
        let (is_optional, doc) = strip_marker(&row.cells[2].text);
        Ok(TelegramField { name, telegram_type: TelegramFieldType { name: phrase, is_optional }, doc })
    } else {
        let required = match &row.cells[2].first_text {
            Some(t) => t,
            None => {
                return Err(ParseError::Structure);
            },
        };
        Ok(TelegramField {
            name,
            telegram_type: TelegramFieldType {
                name: phrase,
                is_optional: eq_str(required.as_str(), "Optional"),
            },
            doc: row.cells[3].text.clone(),
        })
    }
}

/// Reads the fields of the data rows of a table `width` columns wide.
pub fn parse_fields(rows: &Vec<Row>, width: usize) -> (r: Result<Vec<TelegramField>, ParseError>)
    requires
        rows@.len() >= 1,
        width == 3 || width == 4,
    ensures
        match r {
            Ok(fs) => rows_error(rows@, 1, width as nat) is None && fields_of(
                rows@,
                fs@,
                width as nat,
            ),
            Err(e) => rows_error(rows@, 1, width as nat) == Some(e),
        },
{
    let mut fields: Vec<TelegramField> = Vec::new();
    let mut k: usize = 1;
    while k < rows.len()
        invariant
            1 <= k <= rows.len(),
            width == 3 || width == 4,
            rows_error(rows@, 1, width as nat) == rows_error(rows@, k as int, width as nat),
            fields@.len() + 1 == k,
            forall|i: int|
                0 <= i < fields@.len() ==> if width == 3 {
                    type_field_of(#[trigger] rows@[i + 1], fields@[i])
                } else {
                    method_field_of(#[trigger] rows@[i + 1], fields@[i])
                },
        decreases rows.len() - k,
    {
        match row_field(&rows[k], width) {
            Ok(f) => {
                fields.push(f);
            },
            Err(e) => {
                return Err(e);
            },
        }
        k += 1;
    }
    Ok(fields)
}

impl TelegramType {
    /// Reads the type that the three-column table `table` describes.
    pub fn parse(table: &Table) -> (r: Result<TelegramType, ParseError>)
        ensures
            r is Ok <==> entity_error(*table, 3) is None,
            match r {
                Ok(ty) => type_parsed(*table, ty),
                Err(e) => entity_error(*table, 3) == Some(e),
            },
    {
        let (name, docs) = match parse_name_and_docs(&table.preceding) {
            Some(nd) => nd,
            None => {
                return Err(ParseError::Structure);
            },
        };
        if table.rows.len() == 0 {
            return Err(ParseError::Structure);
        }
        let fields = match parse_fields(&table.rows, 3) {
            Ok(fs) => fs,
            Err(e) => {
                return Err(e);
            },
        };
        Ok(TelegramType { name, docs, fields })
    }
}

impl TelegramMethod {
    /// Reads the method that the four-column table `table` describes, its return
    /// type from the first paragraph of its documentation.
    pub fn parse(table: &Table) -> (r: Result<TelegramMethod, ParseError>)
        ensures
            r is Ok <==> entity_error(*table, 4) is None,
            match r {
                Ok(m) => method_parsed(*table, m),
                Err(e) => entity_error(*table, 4) == Some(e),
            },
    {
        let (name, docs) = match parse_name_and_docs(&table.preceding) {
            Some(nd) => nd,
            None => {
                return Err(ParseError::Structure);
            },
        };
        if table.rows.len() == 0 {
            return Err(ParseError::Structure);
        }
        let fields = match parse_fields(&table.rows, 4) {
            Ok(fs) => fs,
            Err(e) => {
                return Err(e);
            },
        };
        if docs.len() == 0 {
            return Err(ParseError::ReturnType);
        }
        let phrase = match TelegramMethod::parse_return_type(docs[0].as_str()) {
            Some(p) => p,
            None => {
                return Err(ParseError::ReturnType);
            },
        };
        Ok(
            TelegramMethod {
                name,
                docs,
                fields,
                return_type: TelegramFieldType { name: phrase, is_optional: false },
            },
        )
    }
}

impl TelegramTypeOrMethod {
    /// Reads the entity that `table` describes: a type where its rows have three
    /// columns, a method where they have four.
    pub fn parse(table: &Table) -> (r: Result<TelegramTypeOrMethod, ParseError>)
        ensures
            r is Ok <==> table_error(*table) is None,
            match r {
                Ok(TelegramTypeOrMethod::Type(ty)) => table_width(*table) == Some(3 as nat)
                    && type_parsed(*table, ty),
                Ok(TelegramTypeOrMethod::Method(m)) => table_width(*table) == Some(4 as nat)
                    && method_parsed(*table, m),
                Err(e) => table_error(*table) == Some(e),
            },
    {
        if table.rows.len() < 2 {
            return Err(ParseError::Structure);
        }
        match table.rows[1].cells.len() {
            3 => match TelegramType::parse(table) {
                Ok(ty) => Ok(TelegramTypeOrMethod::Type(ty)),
                Err(e) => Err(e),
            },
            4 => match TelegramMethod::parse(table) {
                Ok(m) => Ok(TelegramTypeOrMethod::Method(m)),
                Err(e) => Err(e),
            },
            _ => Err(ParseError::Shape),
        }
    }
}

/// `e` is the entity that the table `t` describes.
pub open spec fn entity_parsed(t: Table, e: TelegramTypeOrMethod) -> bool {
    match e {
        TelegramTypeOrMethod::Type(ty) => table_width(t) == Some(3 as nat) && type_parsed(t, ty),
        TelegramTypeOrMethod::Method(m) => table_width(t) == Some(4 as nat) && method_parsed(t, m),
    }
}

/// Why the first table from `k` on that cannot be read fails.
pub open spec fn tables_error(ts: Seq<Table>, k: int) -> Option<ParseError>
    decreases ts.len() - k,
{
    if k < 0 || k >= ts.len() {
        None
    } else if table_error(ts[k]) is Some {
        table_error(ts[k])
    } else {
        tables_error(ts, k + 1)
    }
}

/// Reads every entity table, in document order; fails on the first that cannot be
/// read.
pub fn parse_tables(tables: &Vec<Table>) -> (r: Result<Vec<TelegramTypeOrMethod>, ParseError>)
    ensures
        r is Ok <==> tables_error(tables@, 0) is None,
        match r {
            Ok(es) => es@.len() == tables@.len() && forall|i: int|
                0 <= i < es@.len() ==> entity_parsed(#[trigger] tables@[i], es@[i]),
            Err(e) => tables_error(tables@, 0) == Some(e),
        },
{
    let mut out: Vec<TelegramTypeOrMethod> = Vec::new();
    let mut k: usize = 0;
    while k < tables.len()
        invariant
            k <= tables.len(),
            tables_error(tables@, 0) == tables_error(tables@, k as int),
            out@.len() == k,
            forall|i: int| 0 <= i < k ==> entity_parsed(#[trigger] tables@[i], out@[i]),
        decreases tables.len() - k,
    {
        match TelegramTypeOrMethod::parse(&tables[k]) {
            Ok(e) => {
                out.push(e);
            },
            Err(e) => {
                return Err(e);
            },
        }
        k += 1;
    }
    Ok(out)
}

/// The union that the list `l` enumerates, named by the heading two nodes before
/// its paragraph.
pub open spec fn list_parsed(l: List, ft: FieldType) -> bool {
    &&& ft@.name == l.preceding@[3].last_text->0@
    &&& ft@.doc == Some(l.preceding@[1].text@)
    &&& ft@.array_count == 0
    &&& !ft@.is_optional
    &&& !ft@.is_boxed
    &&& ft@.variants == Some(strings_view(l.items@).map_values(|s: Seq<char>| (s, s)))
}

pub open spec fn list_ok(l: List) -> bool {
    l.preceding@.len() >= 4 && l.preceding@[3].last_text is Some
}

impl FieldType {
    /// Reads the union that the list `list` enumerates.
    pub fn parse(list: &List) -> (r: Result<FieldType, ParseError>)
        ensures
            r is Ok <==> list_ok(*list),
            match r {
                Ok(ft) => list_parsed(*list, ft),
                Err(e) => e == ParseError::Structure,
            },
    {
        if list.preceding.len() < 4 {
            return Err(ParseError::Structure);
        }
        let doc = list.preceding[1].text.clone();
        let name = match &list.preceding[3].last_text {
            Some(n) => n.clone(),
            None => {
                return Err(ParseError::Structure);
            },
        };
        let mut variants: Vec<(String, String)> = Vec::new();
        let mut i: usize = 0;
        while i < list.items.len()
            invariant
                i <= list.items.len(),
                pairs_view(variants@) == strings_view(list.items@).map_values(
                    |s: Seq<char>| (s, s),
                ).subrange(0, i as int),
            decreases list.items.len() - i,
        {
            let ghost before = pairs_view(variants@);
            let item = &list.items[i];
            variants.push((item.clone(), item.clone()));
            assert(pairs_view(variants@) =~= before.push((item@, item@)));
            i += 1;
            assert(pairs_view(variants@) =~= strings_view(list.items@).map_values(
                |s: Seq<char>| (s, s),
            ).subrange(0, i as int));
        }
        assert(strings_view(list.items@).map_values(|s: Seq<char>| (s, s)).subrange(0, i as int)
            =~= strings_view(list.items@).map_values(|s: Seq<char>| (s, s)));
        Ok(
            FieldType {
                name,
                doc: Some(doc),
                array_count: 0,
                is_optional: false,
                kind: FieldKind::Enum(variants),
                is_boxed: false,
            },
        )
    }
}

/// Reads the unions that the bulleted lists enumerate, past the first two lists,
/// which are not unions.
pub fn parse_lists(lists: &Vec<List>) -> (r: Result<Vec<FieldType>, ParseError>)
    ensures
        r is Ok <==> forall|i: int| 2 <= i < lists@.len() ==> list_ok(#[trigger] lists@[i]),
        match r {
            Ok(fts) => fts@.len() == if lists@.len() >= 2 {
                lists@.len() - 2
            } else {
                0
            } && forall|i: int|
                0 <= i < fts@.len() ==> list_parsed(#[trigger] lists@[i + 2], fts@[i]),
            Err(e) => e == ParseError::Structure,
        },
{
    let mut out: Vec<FieldType> = Vec::new();
    if lists.len() < 2 {
        return Ok(out);
    }
    let mut k: usize = 2;
    while k < lists.len()
        invariant
            2 <= k <= lists.len(),
            forall|i: int| 2 <= i < k ==> list_ok(#[trigger] lists@[i]),
            out@.len() + 2 == k,
            forall|i: int| 0 <= i < out@.len() ==> list_parsed(#[trigger] lists@[i + 2], out@[i]),
        decreases lists.len() - k,
    {
        match FieldType::parse(&lists[k]) {
            Ok(ft) => {
                out.push(ft);
            },
            Err(e) => {
                return Err(e);
            },
        }
        k += 1;
    }
    Ok(out)
}

/// A table is read as a type only when its rows have three columns, as a method
/// only when they have four, and with any other width it is refused.
pub proof fn lemma_classification(t: Table, e: TelegramTypeOrMethod)
    ensures
        entity_parsed(t, e) ==> (e is Type <==> table_width(t) == Some(3 as nat)),
        entity_parsed(t, e) ==> (e is Method <==> table_width(t) == Some(4 as nat)),
        table_width(t) matches Some(w) && w != 3 && w != 4 ==> table_error(t) == Some(
            ParseError::Shape,
        ),
{
}

} // verus!
