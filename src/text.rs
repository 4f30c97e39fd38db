//! Character-level helpers: searching, splitting and stripping over `Seq<char>`.
use vstd::prelude::*;

verus! {

/// `p` occurs in `s` starting at position `i`.
pub open spec fn occurs_at(s: Seq<char>, p: Seq<char>, i: int) -> bool {
    0 <= i && i + p.len() <= s.len() && s.subrange(i, i + p.len()) == p
}

pub open spec fn has_prefix(s: Seq<char>, p: Seq<char>) -> bool {
    occurs_at(s, p, 0)
}

pub open spec fn has_suffix(s: Seq<char>, p: Seq<char>) -> bool {
    occurs_at(s, p, s.len() - p.len())
}

pub open spec fn contains(s: Seq<char>, p: Seq<char>) -> bool {
    exists|i: int| occurs_at(s, p, i)
}

/// The pieces of `rest` between non-overlapping occurrences of `sep`, found left to
/// right, with `cur` put in front of the first piece.
pub open spec fn split_go(rest: Seq<char>, sep: Seq<char>, cur: Seq<char>) -> Seq<Seq<char>>
    decreases rest.len(),
{
    if rest.len() == 0 {
        seq![cur]
    } else if sep.len() > 0 && has_prefix(rest, sep) {
        seq![cur] + split_go(rest.subrange(sep.len() as int, rest.len() as int), sep, seq![])
    } else {
        split_go(rest.drop_first(), sep, cur.push(rest[0]))
    }
}

/// `s` split on every non-overlapping occurrence of `sep`, as `str::split` does.
pub open spec fn split_seq(s: Seq<char>, sep: Seq<char>) -> Seq<Seq<char>> {
    split_go(s, sep, seq![])
}

/// `rest` with every non-overlapping occurrence of `p`, found left to right, removed.
pub open spec fn strip_all(rest: Seq<char>, p: Seq<char>) -> Seq<char>
    decreases rest.len(),
{
    if rest.len() == 0 {
        seq![]
    } else if p.len() > 0 && has_prefix(rest, p) {
        strip_all(rest.subrange(p.len() as int, rest.len() as int), p)
    } else {
        seq![rest[0]] + strip_all(rest.drop_first(), p)
    }
}

/// The number of non-overlapping occurrences of `p` in `rest`, found left to right.
pub open spec fn count_all(rest: Seq<char>, p: Seq<char>) -> nat
    decreases rest.len(),
{
    if rest.len() == 0 {
        0
    } else if p.len() > 0 && has_prefix(rest, p) {
        1 + count_all(rest.subrange(p.len() as int, rest.len() as int), p)
    } else {
        count_all(rest.drop_first(), p)
    }
}

/// The characters with the Unicode `White_Space` property.
pub open spec fn is_space(c: char) -> bool {
    let n = c as u32;
    (0x09 <= n && n <= 0x0d) || n == 0x20 || n == 0x85 || n == 0xa0 || n == 0x1680 || (0x2000
        <= n && n <= 0x200a) || n == 0x2028 || n == 0x2029 || n == 0x202f || n == 0x205f || n
        == 0x3000
}

pub open spec fn flush(cur: Seq<char>) -> Seq<Seq<char>> {
    if cur.len() > 0 {
        seq![cur]
    } else {
        seq![]
    }
}

/// The maximal runs of non-space characters of `rest`, with `cur` put in front of
/// the first run.
pub open spec fn words_go(rest: Seq<char>, cur: Seq<char>) -> Seq<Seq<char>>
    decreases rest.len(),
{
    if rest.len() == 0 {
        flush(cur)
    } else if is_space(rest[0]) {
        flush(cur) + words_go(rest.drop_first(), seq![])
    } else {
        words_go(rest.drop_first(), cur.push(rest[0]))
    }
}

/// `s` split on white space, as `str::split_whitespace` does.
pub open spec fn words_of(s: Seq<char>) -> Seq<Seq<char>> {
    words_go(s, seq![])
}

pub open spec fn trim_start(s: Seq<char>) -> Seq<char>
    decreases s.len(),
{
    if s.len() > 0 && is_space(s[0]) {
        trim_start(s.drop_first())
    } else {
        s
    }
}

pub open spec fn trim_end(s: Seq<char>) -> Seq<char>
    decreases s.len(),
{
    if s.len() > 0 && is_space(s.last()) {
        trim_end(s.drop_last())
    } else {
        s
    }
}

/// `s` without white space at either end, as `str::trim` leaves it.
pub open spec fn trim(s: Seq<char>) -> Seq<char> {
    trim_end(trim_start(s))
}

/// Whether two strings hold the same text.
pub fn eq_str(a: &str, b: &str) -> (r: bool)
    ensures
        r == (a@ == b@),
{
    let x = a.to_owned();
    let y = b.to_owned();
    x == y
}

/// `s` without white space at either end.
pub fn trim_chars(s: &[char]) -> (r: Vec<char>)
    ensures
        r@ == trim(s@),
{
    let mut i: usize = 0;
    assert(s@.subrange(0, s@.len() as int) =~= s@);
    while i < s.len() && is_space_char(s[i])
        invariant
            i <= s.len(),
            trim_start(s@.subrange(i as int, s@.len() as int)) == trim_start(s@),
        decreases s.len() - i,
    {
        assert(s@.subrange(i as int, s@.len() as int).drop_first() =~= s@.subrange(
            i + 1,
            s@.len() as int,
        ));
        i += 1;
    }
    let mut j: usize = s.len();
    assert(s@.subrange(i as int, j as int) == trim_start(s@));
    while j > i && is_space_char(s[j - 1])
        invariant
            i <= j <= s.len(),
            trim_end(s@.subrange(i as int, j as int)) == trim(s@),
        decreases j,
    {
        assert(s@.subrange(i as int, j as int).drop_last() =~= s@.subrange(
            i as int,
            j - 1,
        ));
        j -= 1;
    }
    let mut out: Vec<char> = Vec::new();
    let mut k: usize = i;
    while k < j
        invariant
            i <= k <= j <= s.len(),
            out@ == s@.subrange(i as int, k as int),
        decreases j - k,
    {
        out.push(s[k]);
        k += 1;
        assert(out@ =~= s@.subrange(i as int, k as int));
    }
    out
}

pub open spec fn views(v: Seq<Vec<char>>) -> Seq<Seq<char>> {
    v.map_values(|x: Vec<char>| x@)
}

/// The characters of `s`, in order.
pub(crate) fn chars_of(s: &str) -> (r: Vec<char>)
    ensures
        r@ == s@,
{
    let n = s.unicode_len();
    let mut out: Vec<char> = Vec::new();
    let mut i: usize = 0;
    while i < n
        invariant
            n == s@.len(),
            i <= n,
            out@ == s@.subrange(0, i as int),
        decreases n - i,
    {
        out.push(s.get_char(i));
        i += 1;
        assert(out@ =~= s@.subrange(0, i as int));
    }
    assert(s@.subrange(0, i as int) =~= s@);
    out
}

/// Relies on `String::from_iter`: the string made of the characters of `v`, in order.
#[verifier::external_body]
pub(crate) fn string_of(v: &[char]) -> (r: String)
    ensures
        r@ == v@,
{
    v.iter().collect()
}

pub fn is_space_char(c: char) -> (r: bool)
    ensures
        r == is_space(c),
{
    let n = c as u32;
    (0x09 <= n && n <= 0x0d) || n == 0x20 || n == 0x85 || n == 0xa0 || n == 0x1680 || (0x2000
        <= n && n <= 0x200a) || n == 0x2028 || n == 0x2029 || n == 0x202f || n == 0x205f || n
        == 0x3000
}

pub fn occurs_at_exec(s: &[char], p: &[char], i: usize) -> (r: bool)
    ensures
        r == occurs_at(s@, p@, i as int),
{
    if p.len() > s.len() || i > s.len() - p.len() {
        return false;
    }
    let mut k: usize = 0;
    while k < p.len()
        invariant
            k <= p.len(),
            i + p.len() <= s.len(),
            forall|j: int| 0 <= j < k ==> s@[i + j] == p@[j],
        decreases p.len() - k,
    {
        if s[i + k] != p[k] {
            assert(s@.subrange(i as int, i + p.len())[k as int] != p@[k as int]);
            return false;
        }
        k += 1;
    }
    assert(s@.subrange(i as int, i + p.len()) =~= p@);
    true
}

pub fn starts_with(s: &[char], p: &[char]) -> (r: bool)
    ensures
        r == has_prefix(s@, p@),
{
    occurs_at_exec(s, p, 0)
}

pub fn ends_with(s: &[char], p: &[char]) -> (r: bool)
    ensures
        r == has_suffix(s@, p@),
{
    if p.len() > s.len() {
        false
    } else {
        occurs_at_exec(s, p, s.len() - p.len())
    }
}

pub fn contains_exec(s: &[char], p: &[char]) -> (r: bool)
    ensures
        r == contains(s@, p@),
{
    if p.len() > s.len() {
        return false;
    }
    let last = s.len() - p.len();
    let mut i: usize = 0;
    loop
        invariant
            p.len() <= s.len(),
            last == s.len() - p.len(),
            i <= last,
            forall|j: int| 0 <= j < i ==> !occurs_at(s@, p@, j),
        ensures
            forall|j: int| 0 <= j <= last ==> !occurs_at(s@, p@, j),
        decreases last - i,
    {
        if occurs_at_exec(s, p, i) {
            return true;
        }
        if i == last {
            break;
        }
        i += 1;
    }
    assert forall|j: int| !occurs_at(s@, p@, j) by {
        if 0 <= j && j + p@.len() <= s@.len() {
            assert(j <= last);
        }
    }
    false
}

proof fn lemma_step(s: Seq<char>, p: Seq<char>, i: int)
    requires
        0 <= i < s.len(),
    ensures
        has_prefix(s.subrange(i, s.len() as int), p) == occurs_at(s, p, i),
        s.subrange(i, s.len() as int).drop_first() == s.subrange(i + 1, s.len() as int),
        s.subrange(i, s.len() as int)[0] == s[i],
        occurs_at(s, p, i) ==> s.subrange(i, s.len() as int).subrange(
            p.len() as int,
            s.len() - i,
        ) == s.subrange(i + p.len(), s.len() as int),
{
    let rest = s.subrange(i, s.len() as int);
    assert(rest.drop_first() =~= s.subrange(i + 1, s.len() as int));
    if i + p.len() <= s.len() {
        assert(rest.subrange(0, p.len() as int) =~= s.subrange(i, i + p.len()));
        assert(rest.subrange(p.len() as int, s.len() - i) =~= s.subrange(
            i + p.len(),
            s.len() as int,
        ));
    }
}

/// Splits `s` on `sep`.
pub fn split_on(s: &[char], sep: &[char]) -> (r: Vec<Vec<char>>)
    requires
        sep@.len() > 0,
    ensures
        views(r@) == split_seq(s@, sep@),
{
    let mut acc: Vec<Vec<char>> = Vec::new();
    let mut cur: Vec<char> = Vec::new();
    let mut i: usize = 0;
    assert(s@.subrange(0, s@.len() as int) =~= s@);
    while i < s.len()
        invariant
            i <= s.len(),
            sep@.len() > 0,
            views(acc@) + split_go(s@.subrange(i as int, s@.len() as int), sep@, cur@)
                == split_seq(s@, sep@),
        decreases s.len() - i,
    {
        proof {
            lemma_step(s@, sep@, i as int);
        }
        if occurs_at_exec(s, sep, i) {
            let ghost a = acc@;
            acc.push(cur);
            assert(views(acc@) =~= views(a) + seq![cur@]);
            cur = Vec::new();
            assert(cur@ =~= seq![]);
            i += sep.len();
        } else {
            cur.push(s[i]);
            i += 1;
        }
    }
    let ghost a = acc@;
    assert(s@.subrange(i as int, s@.len() as int) =~= seq![]);
    acc.push(cur);
    assert(views(acc@) =~= views(a) + seq![cur@]);
    acc
}

/// Removes every occurrence of `p` from `s`, and counts them.
pub fn strip_count(s: &[char], p: &[char]) -> (r: (Vec<char>, usize))
    requires
        p@.len() > 0,
    ensures
        r.0@ == strip_all(s@, p@),
        r.1 as nat == count_all(s@, p@),
{
    let mut out: Vec<char> = Vec::new();
    let mut n: usize = 0;
    let mut i: usize = 0;
    assert(s@.subrange(0, s@.len() as int) =~= s@);
    while i < s.len()
        invariant
            i <= s.len(),
            p@.len() > 0,
            n <= i,
            out@ + strip_all(s@.subrange(i as int, s@.len() as int), p@) == strip_all(s@, p@),
            n + count_all(s@.subrange(i as int, s@.len() as int), p@) == count_all(s@, p@),
        decreases s.len() - i,
    {
        proof {
            lemma_step(s@, p@, i as int);
        }
        if occurs_at_exec(s, p, i) {
            n += 1;
            i += p.len();
        } else {
            let ghost o = out@;
            out.push(s[i]);
            assert(out@ + strip_all(s@.subrange(i + 1, s@.len() as int), p@) =~= o + (seq![
                s@[i as int],
            ] + strip_all(s@.subrange(i + 1, s@.len() as int), p@)));
            i += 1;
        }
    }
    assert(s@.subrange(i as int, s@.len() as int) =~= seq![]);
    assert(out@ + seq![] =~= out@);
    (out, n)
}

/// Splits `s` on white space.
pub fn split_words(s: &[char]) -> (r: Vec<Vec<char>>)
    ensures
        views(r@) == words_of(s@),
{
    let mut acc: Vec<Vec<char>> = Vec::new();
    let mut cur: Vec<char> = Vec::new();
    let mut i: usize = 0;
    assert(s@.subrange(0, s@.len() as int) =~= s@);
    while i < s.len()
        invariant
            i <= s.len(),
            views(acc@) + words_go(s@.subrange(i as int, s@.len() as int), cur@) == words_of(
                s@,
            ),
        decreases s.len() - i,
    {
        proof {
            lemma_step(s@, seq![], i as int);
        }
        if is_space_char(s[i]) {
            let ghost a = acc@;
            let ghost c = cur@;
            if cur.len() > 0 {
                acc.push(cur);
                assert(views(acc@) =~= views(a) + flush(c));
            } else {
                assert(views(acc@) =~= views(a) + flush(c));
            }
            cur = Vec::new();
            assert(cur@ =~= seq![]);
        } else {
            cur.push(s[i]);
        }
        i += 1;
    }
    let ghost a = acc@;
    let ghost c = cur@;
    assert(s@.subrange(i as int, s@.len() as int) =~= seq![]);
    if cur.len() > 0 {
        acc.push(cur);
    }
    assert(views(acc@) =~= views(a) + flush(c));
    acc
}

/// Where `p` does not occur in `s`, stripping `p` leaves `s` as it is and counts
/// nothing.
pub proof fn lemma_strip_absent(s: Seq<char>, p: Seq<char>)
    requires
        p.len() > 0,
        !contains(s, p),
    ensures
        strip_all(s, p) == s,
        count_all(s, p) == 0,
    decreases s.len(),
{
    if s.len() > 0 {
        assert(!occurs_at(s, p, 0));
        let t = s.drop_first();
        assert(!contains(t, p)) by {
            if contains(t, p) {
                let i = choose|i: int| occurs_at(t, p, i);
                assert(s.subrange(i + 1, i + 1 + p.len()) =~= t.subrange(i, i + p.len()));
                assert(occurs_at(s, p, i + 1));
            }
        }
        lemma_strip_absent(t, p);
        assert(seq![s[0]] + t =~= s);
    }
}

} // verus!
