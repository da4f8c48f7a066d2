//! Character-level text utilities: trimming, splitting, pattern removal,
//! decimal formatting and parsing, all stated over `Seq<char>`.
use vstd::prelude::*;

verus! {

// ---------------------------------------------------------------------------
// Conversions between strings and character vectors
// ---------------------------------------------------------------------------

/// The characters of `s`, in order.
pub fn chars_of(s: &str) -> (r: Vec<char>)
    ensures
        r@ == s@,
{
    let mut r: Vec<char> = Vec::new();
    for c in it: s.chars()
        invariant
            r@ == it.seq().take(it.index() as int),
            it.seq() == s@,
    {
        r.push(c);
    }
    r
}

/// `String::from_iter` over characters: the string made of exactly the given characters.
#[verifier::external_body]
pub(crate) fn string_from_chars(v: Vec<char>) -> (r: String)
    ensures
        r@ == v@,
{
    String::from_iter(v)
}

/// Copies the characters of `v` into a new vector.
pub fn copy_chars(v: &Vec<char>) -> (r: Vec<char>)
    ensures
        r@ == v@,
{
    let mut r: Vec<char> = Vec::new();
    let mut i: usize = 0;
    while i < v.len()
        invariant
            i <= v.len(),
            r@ == v@.take(i as int),
        decreases v.len() - i,
    {
        r.push(v[i]);
        i = i + 1;
        assert(r@ =~= v@.take(i as int));
    }
    assert(v@.take(v.len() as int) =~= v@);
    r
}

/// Appends the characters of `b` to `a`.
pub fn append_chars(a: &mut Vec<char>, b: &Vec<char>)
    ensures
        final(a)@ == old(a)@ + b@,
{
    let mut i: usize = 0;
    while i < b.len()
        invariant
            i <= b.len(),
            a@ == old(a)@ + b@.take(i as int),
        decreases b.len() - i,
    {
        a.push(b[i]);
        i = i + 1;
        assert(a@ =~= old(a)@ + b@.take(i as int));
    }
    assert(b@.take(b.len() as int) =~= b@);
}

/// Appends the characters of `b` to `a`.
pub fn append_str(a: &mut Vec<char>, b: &str)
    ensures
        final(a)@ == old(a)@ + b@,
{
    let v = chars_of(b);
    append_chars(a, &v);
}

/// Whether two character sequences are equal.
pub fn chars_eq(a: &Vec<char>, b: &Vec<char>) -> (r: bool)
    ensures
        r == (a@ == b@),
{
    if a.len() != b.len() {
        return false;
    }
    let mut i: usize = 0;
    while i < a.len()
        invariant
            i <= a.len(),
            a.len() == b.len(),
            forall|k: int| 0 <= k < i ==> a@[k] == b@[k],
        decreases a.len() - i,
    {
        if a[i] != b[i] {
            return false;
        }
        i = i + 1;
    }
    assert(a@ =~= b@);
    true
}

/// Whether two strings are equal.
pub fn str_eq(a: &str, b: &str) -> (r: bool)
    ensures
        r == (a@ == b@),
{
    let x = chars_of(a);
    let y = chars_of(b);
    chars_eq(&x, &y)
}

// ---------------------------------------------------------------------------
// Prefixes, suffixes and occurrences
// ---------------------------------------------------------------------------

/// `p` is a prefix of `s`.
pub open spec fn has_prefix(s: Seq<char>, p: Seq<char>) -> bool {
    p.len() <= s.len() && s.take(p.len() as int) == p
}

/// `p` is a suffix of `s`.
pub open spec fn has_suffix(s: Seq<char>, p: Seq<char>) -> bool {
    p.len() <= s.len() && s.skip(s.len() - p.len()) == p
}

/// `p` occurs in `s` starting at position `i`.
pub open spec fn occurs_at(s: Seq<char>, p: Seq<char>, i: int) -> bool {
    0 <= i && i + p.len() <= s.len() && s.subrange(i, i + p.len()) == p
}

/// `p` occurs somewhere in `s`.
pub open spec fn contains_seq(s: Seq<char>, p: Seq<char>) -> bool {
    exists|i: int| occurs_at(s, p, i)
}

/// Whether `p` occurs in `s` at position `i`.
pub fn matches_at(s: &Vec<char>, i: usize, p: &Vec<char>) -> (r: bool)
    requires
        i <= s.len(),
    ensures
        r == occurs_at(s@, p@, i as int),
{
    if p.len() > s.len() - i {
        return false;
    }
    let mut k: usize = 0;
    while k < p.len()
        invariant
            k <= p.len(),
            i + p.len() <= s.len(),
            forall|j: int| 0 <= j < k ==> s@[i + j] == p@[j],
        decreases p.len() - k,
    {
        if s[i + k] != p[k] {
            assert(s@.subrange(i as int, i + p.len())[k as int] != p@[k as int]);
            return false;
        }
        k = k + 1;
    }
    assert(s@.subrange(i as int, i + p.len()) =~= p@);
    true
}

/// Whether `s` starts with `p`.
pub fn starts_with_chars(s: &Vec<char>, p: &Vec<char>) -> (r: bool)
    ensures
        r == has_prefix(s@, p@),
{
    let r = matches_at(s, 0, p);
    proof {
        if r {
            assert(s@.take(p@.len() as int) =~= s@.subrange(0, p@.len() as int));
        } else if p@.len() <= s@.len() {
            assert(s@.take(p@.len() as int) =~= s@.subrange(0, p@.len() as int));
        }
    }
    r
}

/// Whether `s` ends with `p`.
pub fn ends_with_chars(s: &Vec<char>, p: &Vec<char>) -> (r: bool)
    ensures
        r == has_suffix(s@, p@),
{
    if p.len() > s.len() {
        return false;
    }
    let i = s.len() - p.len();
    let r = matches_at(s, i, p);
    proof {
        assert(s@.skip(i as int) =~= s@.subrange(i as int, i + p.len()));
    }
    r
}

/// Whether `p` occurs in `s`.
pub fn contains_chars(s: &Vec<char>, p: &Vec<char>) -> (r: bool)
    ensures
        r == contains_seq(s@, p@),
{
    if p.len() == 0 {
        assert(s@.subrange(0, 0) =~= p@);
        assert(occurs_at(s@, p@, 0));
        return true;
    }
    if p.len() > s.len() {
        assert forall|j: int| !occurs_at(s@, p@, j) by {}
        return false;
    }
    let last = s.len() - p.len();
    let mut i: usize = 0;
    while i <= last
        invariant
            last + p.len() == s.len(),
            p.len() > 0,
            i <= last + 1,
            forall|j: int| 0 <= j < i ==> !occurs_at(s@, p@, j),
        decreases last + 1 - i,
    {
        if matches_at(s, i, p) {
            return true;
        }
        i = i + 1;
    }
    assert forall|j: int| !occurs_at(s@, p@, j) by {
        if 0 <= j && j + p@.len() <= s@.len() {
            assert(j < i);
        }
    }
    false
}

// ---------------------------------------------------------------------------
// Whitespace and trimming
// ---------------------------------------------------------------------------

/// Unicode `White_Space`, the property that `char::is_whitespace` tests.
pub open spec fn is_ws(c: char) -> bool {
    let u = c as u32;
    (0x9 <= u && u <= 0xd) || u == 0x20 || u == 0x85 || u == 0xa0 || u == 0x1680 || (0x2000 <= u
        && u <= 0x200a) || u == 0x2028 || u == 0x2029 || u == 0x202f || u == 0x205f || u == 0x3000
}

/// Whether `c` is whitespace in the sense of `char::is_whitespace`.
pub fn is_whitespace(c: char) -> (r: bool)
    ensures
        r == is_ws(c),
{
    let u = c as u32;
    (0x9 <= u && u <= 0xd) || u == 0x20 || u == 0x85 || u == 0xa0 || u == 0x1680 || (0x2000 <= u
        && u <= 0x200a) || u == 0x2028 || u == 0x2029 || u == 0x202f || u == 0x205f || u == 0x3000
}

/// `s` without its leading whitespace.
pub open spec fn trim_start(s: Seq<char>) -> Seq<char>
    decreases s.len(),
{
    if s.len() > 0 && is_ws(s[0]) {
        trim_start(s.drop_first())
    } else {
        s
    }
}

/// `s` without its trailing whitespace.
pub open spec fn trim_end(s: Seq<char>) -> Seq<char>
    decreases s.len(),
{
    if s.len() > 0 && is_ws(s.last()) {
        trim_end(s.drop_last())
    } else {
        s
    }
}

/// `s` without leading and trailing whitespace (`str::trim`).
pub open spec fn trim(s: Seq<char>) -> Seq<char> {
    trim_end(trim_start(s))
}

/// The characters of `s` from `lo` to `hi`.
pub fn slice_chars(s: &Vec<char>, lo: usize, hi: usize) -> (r: Vec<char>)
    requires
        lo <= hi <= s.len(),
    ensures
        r@ == s@.subrange(lo as int, hi as int),
{
    let mut r: Vec<char> = Vec::new();
    let mut i: usize = lo;
    while i < hi
        invariant
            lo <= i <= hi,
            hi <= s.len(),
            r@ == s@.subrange(lo as int, i as int),
        decreases hi - i,
    {
        r.push(s[i]);
        i = i + 1;
        assert(r@ =~= s@.subrange(lo as int, i as int));
    }
    r
}

/// `str::trim` on a character vector.
pub fn trim_chars(s: &Vec<char>) -> (r: Vec<char>)
    ensures
        r@ == trim(s@),
{
    let n = s.len();
    let mut i: usize = 0;
    assert(s@.subrange(0, n as int) =~= s@);
    while i < n && is_whitespace(s[i])
        invariant
            i <= n,
            n == s.len(),
            trim_start(s@) == trim_start(s@.subrange(i as int, n as int)),
        decreases n - i,
    {
        assert(s@.subrange(i as int, n as int).drop_first() =~= s@.subrange(i + 1, n as int));
        i = i + 1;
    }
    assert(trim_start(s@.subrange(i as int, n as int)) == s@.subrange(i as int, n as int));
    let mut j: usize = n;
    while j > i && is_whitespace(s[j - 1])
        invariant
            i <= j <= n,
            n == s.len(),
            trim(s@) == trim_end(s@.subrange(i as int, j as int)),
        decreases j,
    {
        assert(s@.subrange(i as int, j as int).drop_last() =~= s@.subrange(i as int, j - 1));
        j = j - 1;
    }
    slice_chars(s, i, j)
}

/// `str::trim` on a string.
pub fn trim_str(s: &str) -> (r: Vec<char>)
    ensures
        r@ == trim(s@),
{
    let v = chars_of(s);
    trim_chars(&v)
}

// ---------------------------------------------------------------------------
// Removing every occurrence of a pattern (`str::replace(p, "")`)
// ---------------------------------------------------------------------------

/// `s` with every non-overlapping occurrence of `p`, found from the left, removed.
/// An empty pattern leaves `s` unchanged.
pub open spec fn remove_all(s: Seq<char>, p: Seq<char>) -> Seq<char>
    decreases s.len(),
{
    if s.len() == 0 || p.len() == 0 {
        s
    } else if has_prefix(s, p) {
        remove_all(s.skip(p.len() as int), p)
    } else {
        seq![s[0]] + remove_all(s.drop_first(), p)
    }
}

/// Removing a pattern only deletes characters: one absent before is absent after.
pub proof fn lemma_remove_all_keeps_absent(s: Seq<char>, p: Seq<char>, c: char)
    requires
        !s.contains(c),
    ensures
        !remove_all(s, p).contains(c),
    decreases s.len(),
{
    if s.len() > 0 && p.len() > 0 {
        if has_prefix(s, p) {
            let t = s.skip(p.len() as int);
            assert(!t.contains(c)) by {
                if t.contains(c) {
                    let i = choose|i: int| 0 <= i < t.len() && t[i] == c;
                    assert(s[i + p.len()] == c);
                }
            }
            lemma_remove_all_keeps_absent(t, p, c);
        } else {
            let t = s.drop_first();
            assert(!t.contains(c)) by {
                if t.contains(c) {
                    let i = choose|i: int| 0 <= i < t.len() && t[i] == c;
                    assert(s[i + 1] == c);
                }
            }
            lemma_remove_all_keeps_absent(t, p, c);
            let rest = remove_all(t, p);
            let r = seq![s[0]] + rest;
            assert(!r.contains(c)) by {
                if r.contains(c) {
                    let i = choose|i: int| 0 <= i < r.len() && r[i] == c;
                    if i == 0 {
                        assert(s[0] == c);
                    } else {
                        assert(r[i] == rest[i - 1]);
                    }
                }
            }
        }
    }
}

/// Removing a single character removes every occurrence of it.
pub proof fn lemma_remove_char_absent(s: Seq<char>, c: char)
    ensures
        !remove_all(s, seq![c]).contains(c),
    decreases s.len(),
{
    if s.len() > 0 {
        if has_prefix(s, seq![c]) {
            lemma_remove_char_absent(s.skip(1), c);
        } else {
            assert(s[0] != c) by {
                if s[0] == c {
                    assert(s.take(1) =~= seq![c]);
                }
            }
            let t = s.drop_first();
            lemma_remove_char_absent(t, c);
            let rest = remove_all(t, seq![c]);
            let r = seq![s[0]] + rest;
            assert(!r.contains(c)) by {
                if r.contains(c) {
                    let i = choose|i: int| 0 <= i < r.len() && r[i] == c;
                    if i > 0 {
                        assert(r[i] == rest[i - 1]);
                    }
                }
            }
        }
    }
}

/// `str::replace(p, "")`: removes every occurrence of `p` in `s`, scanning from the left.
pub fn remove_all_chars(s: &Vec<char>, p: &Vec<char>) -> (r: Vec<char>)
    ensures
        r@ == remove_all(s@, p@),
{
    if p.len() == 0 {
        return copy_chars(s);
    }
    let mut out: Vec<char> = Vec::new();
    let mut i: usize = 0;
    assert(s@.skip(0) =~= s@);
    while i < s.len()
        invariant
            i <= s.len(),
            p.len() > 0,
            out@ + remove_all(s@.skip(i as int), p@) == remove_all(s@, p@),
        decreases s.len() - i,
    {
        let ghost rest = s@.skip(i as int);
        if matches_at(s, i, p) {
            assert(rest.take(p@.len() as int) =~= s@.subrange(i as int, i + p@.len()));
            assert(rest.skip(p@.len() as int) =~= s@.skip(i + p@.len()));
            i = i + p.len();
        } else {
            assert(rest.take(p@.len() as int) =~= s@.subrange(i as int, i + p@.len()) || p@.len() > rest.len());
            assert(!has_prefix(rest, p@));
            assert(rest.drop_first() =~= s@.skip(i + 1));
            out.push(s[i]);
            assert(out@ + remove_all(s@.skip(i + 1), p@) =~= (out@.drop_last() + (seq![rest[0]] + remove_all(rest.drop_first(), p@))));
            i = i + 1;
        }
    }
    assert(remove_all(s@.skip(i as int), p@) =~= Seq::<char>::empty());
    assert(out@ + Seq::<char>::empty() =~= out@);
    out
}

// ---------------------------------------------------------------------------
// Splitting on a separator (`str::split(char)`)
// ---------------------------------------------------------------------------

/// The pieces of `s` finished so far, and the piece being read, when `s` is split on `sep`.
pub open spec fn split_state(s: Seq<char>, sep: char) -> (Seq<Seq<char>>, Seq<char>)
    decreases s.len(),
{
    if s.len() == 0 {
        (seq![], seq![])
    } else {
        let (done, cur) = split_state(s.drop_last(), sep);
        if s.last() == sep {
            (done.push(cur), seq![])
        } else {
            (done, cur.push(s.last()))
        }
    }
}

/// `str::split(sep)`: the pieces between separators, empty ones included; never empty.
pub open spec fn split_on(s: Seq<char>, sep: char) -> Seq<Seq<char>> {
    split_state(s, sep).0.push(split_state(s, sep).1)
}

/// Splitting a text without the separator gives no finished piece: the text is the piece
/// being read.
pub proof fn lemma_split_state_without_sep(s: Seq<char>, sep: char)
    requires
        !s.contains(sep),
    ensures
        split_state(s, sep) == (Seq::<Seq<char>>::empty(), s),
    decreases s.len(),
{
    if s.len() > 0 {
        assert(!s.drop_last().contains(sep)) by {
            if s.drop_last().contains(sep) {
                let i = choose|i: int| 0 <= i < s.drop_last().len() && s.drop_last()[i] == sep;
                assert(s[i] == sep);
            }
        }
        lemma_split_state_without_sep(s.drop_last(), sep);
        assert(s[s.len() - 1] != sep);
        assert(s.drop_last().push(s.last()) =~= s);
    } else {
        assert(s =~= Seq::<char>::empty());
    }
}

/// Reading a stretch without the separator only extends the piece being read.
pub proof fn lemma_split_state_extend(p: Seq<char>, b: Seq<char>, sep: char)
    requires
        !b.contains(sep),
    ensures
        split_state(p + b, sep) == (split_state(p, sep).0, split_state(p, sep).1 + b),
    decreases b.len(),
{
    if b.len() > 0 {
        let b0 = b.drop_last();
        assert(!b0.contains(sep)) by {
            if b0.contains(sep) {
                let i = choose|i: int| 0 <= i < b0.len() && b0[i] == sep;
                assert(b[i] == sep);
            }
        }
        lemma_split_state_extend(p, b0, sep);
        assert((p + b).drop_last() =~= p + b0);
        assert((p + b).last() == b[b.len() - 1]);
        assert(split_state(p, sep).1 + b0 + seq![b.last()] =~= split_state(p, sep).1 + b);
        assert((split_state(p, sep).1 + b0).push(b.last()) =~= split_state(p, sep).1 + b);
    } else {
        assert(p + b =~= p);
        assert(split_state(p, sep).1 + b =~= split_state(p, sep).1);
    }
}

/// Splitting two texts without the separator, joined by it, gives the two back.
pub proof fn lemma_split_two(a: Seq<char>, b: Seq<char>, sep: char)
    requires
        !a.contains(sep),
        !b.contains(sep),
    ensures
        split_on(a + seq![sep] + b, sep) == seq![a, b],
{
    let p = a + seq![sep];
    lemma_split_state_without_sep(a, sep);
    assert(p.drop_last() =~= a);
    assert(split_state(p, sep) == (seq![a], Seq::<char>::empty()));
    lemma_split_state_extend(p, b, sep);
    assert(Seq::<char>::empty() + b =~= b);
    assert(split_on(p + b, sep) =~= seq![a, b]);
}

/// Splitting three texts without the separator, joined by it, gives the three back.
pub proof fn lemma_split_three(a: Seq<char>, b: Seq<char>, c: Seq<char>, sep: char)
    requires
        !a.contains(sep),
        !b.contains(sep),
        !c.contains(sep),
    ensures
        split_on(a + seq![sep] + b + seq![sep] + c, sep) == seq![a, b, c],
{
    let p = a + seq![sep];
    lemma_split_state_without_sep(a, sep);
    assert(p.drop_last() =~= a);
    assert(split_state(p, sep) == (seq![a], Seq::<char>::empty()));
    lemma_split_state_extend(p, b, sep);
    assert(Seq::<char>::empty() + b =~= b);
    let x = p + b;
    let q = x + seq![sep];
    assert(q.drop_last() =~= x);
    assert(split_state(q, sep) == (seq![a, b], Seq::<char>::empty()));
    lemma_split_state_extend(q, c, sep);
    assert(Seq::<char>::empty() + c =~= c);
    assert(a + seq![sep] + b + seq![sep] + c =~= q + c);
    assert(split_on(q + c, sep) =~= seq![a, b, c]);
}

/// `str::split(sep)` on a character vector.
pub fn split_chars(s: &Vec<char>, sep: char) -> (r: Vec<Vec<char>>)
    ensures
        r@.map_values(|v: Vec<char>| v@) == split_on(s@, sep),
{
    let mut done: Vec<Vec<char>> = Vec::new();
    let mut cur: Vec<char> = Vec::new();
    let mut i: usize = 0;
    while i < s.len()
        invariant
            i <= s.len(),
            (done@.map_values(|v: Vec<char>| v@), cur@) == split_state(s@.take(i as int), sep),
        decreases s.len() - i,
    {
        assert(s@.take(i + 1).drop_last() =~= s@.take(i as int));
        if s[i] == sep {
            let piece = cur;
            done.push(piece);
            cur = Vec::new();
            assert(done@.map_values(|v: Vec<char>| v@) =~= split_state(s@.take(i as int), sep).0.push(
                split_state(s@.take(i as int), sep).1));
        } else {
            cur.push(s[i]);
        }
        i = i + 1;
    }
    assert(s@.take(s.len() as int) =~= s@);
    done.push(cur);
    assert(done@.map_values(|v: Vec<char>| v@) =~= split_on(s@, sep));
    done
}

// ---------------------------------------------------------------------------
// Splitting into words (`str::split_whitespace`)
// ---------------------------------------------------------------------------

/// The words of `s` finished so far, and the word being read.
pub open spec fn words_state(s: Seq<char>) -> (Seq<Seq<char>>, Seq<char>)
    decreases s.len(),
{
    if s.len() == 0 {
        (seq![], seq![])
    } else {
        let (done, cur) = words_state(s.drop_last());
        if is_ws(s.last()) {
            if cur.len() > 0 {
                (done.push(cur), seq![])
            } else {
                (done, cur)
            }
        } else {
            (done, cur.push(s.last()))
        }
    }
}

/// `str::split_whitespace`: the maximal runs of non-whitespace characters, in order.
pub open spec fn words(s: Seq<char>) -> Seq<Seq<char>> {
    let (done, cur) = words_state(s);
    if cur.len() > 0 {
        done.push(cur)
    } else {
        done
    }
}

/// `str::split_whitespace` on a character vector.
pub fn split_words(s: &Vec<char>) -> (r: Vec<Vec<char>>)
    ensures
        r@.map_values(|v: Vec<char>| v@) == words(s@),
{
    let mut done: Vec<Vec<char>> = Vec::new();
    let mut cur: Vec<char> = Vec::new();
    let mut i: usize = 0;
    while i < s.len()
        invariant
            i <= s.len(),
            (done@.map_values(|v: Vec<char>| v@), cur@) == words_state(s@.take(i as int)),
        decreases s.len() - i,
    {
        assert(s@.take(i + 1).drop_last() =~= s@.take(i as int));
        if is_whitespace(s[i]) {
            if cur.len() > 0 {
                let piece = cur;
                done.push(piece);
                cur = Vec::new();
                assert(done@.map_values(|v: Vec<char>| v@) =~= words_state(s@.take(i as int)).0.push(
                    words_state(s@.take(i as int)).1));
            }
        } else {
            cur.push(s[i]);
        }
        i = i + 1;
    }
    assert(s@.take(s.len() as int) =~= s@);
    if cur.len() > 0 {
        done.push(cur);
        assert(done@.map_values(|v: Vec<char>| v@) =~= words(s@));
    }
    done
}

/// Every word is non-empty and holds no whitespace.
pub proof fn lemma_words_state_shape(s: Seq<char>)
    ensures
        forall|i: int|
            0 <= i < words_state(s).0.len() ==> #[trigger] words_state(s).0[i].len() > 0 && forall|
                k: int,
            |
                0 <= k < words_state(s).0[i].len() ==> !is_ws(#[trigger] words_state(s).0[i][k]),
        forall|k: int| 0 <= k < words_state(s).1.len() ==> !is_ws(#[trigger] words_state(s).1[k]),
    decreases s.len(),
{
    if s.len() > 0 {
        lemma_words_state_shape(s.drop_last());
        let (done, cur) = words_state(s.drop_last());
        if !is_ws(s.last()) {
            assert forall|k: int| 0 <= k < cur.push(s.last()).len() implies !is_ws(
                #[trigger] cur.push(s.last())[k],
            ) by {
                if k < cur.len() {
                    assert(cur.push(s.last())[k] == cur[k]);
                }
            }
        }
    }
}

/// The words of a text without the character `c` hold no `c`.
pub proof fn lemma_words_state_absent(s: Seq<char>, c: char)
    requires
        !s.contains(c),
    ensures
        forall|i: int|
            0 <= i < words_state(s).0.len() ==> !(#[trigger] words_state(s).0[i]).contains(c),
        !words_state(s).1.contains(c),
    decreases s.len(),
{
    if s.len() > 0 {
        let p = s.drop_last();
        assert(!p.contains(c)) by {
            if p.contains(c) {
                let i = choose|i: int| 0 <= i < p.len() && p[i] == c;
                assert(s[i] == c);
            }
        }
        lemma_words_state_absent(p, c);
        let (done, cur) = words_state(p);
        assert(s[s.len() - 1] != c);
        if !is_ws(s.last()) {
            let n = cur.push(s.last());
            assert(!n.contains(c)) by {
                if n.contains(c) {
                    let k = choose|k: int| 0 <= k < n.len() && n[k] == c;
                    if k < cur.len() {
                        assert(n[k] == cur[k]);
                    }
                }
            }
        } else if cur.len() > 0 {
            let d = done.push(cur);
            assert forall|i: int| 0 <= i < d.len() implies !(#[trigger] d[i]).contains(c) by {
                if i < done.len() {
                    assert(d[i] == done[i]);
                }
            }
        }
    }
}

/// The words of a text without the character `c` hold no `c`.
pub proof fn lemma_words_absent(s: Seq<char>, c: char)
    requires
        !s.contains(c),
    ensures
        forall|i: int| 0 <= i < words(s).len() ==> !(#[trigger] words(s)[i]).contains(c),
{
    lemma_words_state_absent(s, c);
    let (done, cur) = words_state(s);
    if cur.len() > 0 {
        assert forall|i: int| 0 <= i < words(s).len() implies !(#[trigger] words(s)[i]).contains(c) by {
            if i < done.len() {
                assert(words(s)[i] == done[i]);
            }
        }
    }
}

/// Every word of `s` is non-empty and holds no whitespace.
pub proof fn lemma_words_shape(s: Seq<char>)
    ensures
        forall|i: int|
            0 <= i < words(s).len() ==> #[trigger] words(s)[i].len() > 0 && forall|k: int|
                0 <= k < words(s)[i].len() ==> !is_ws(#[trigger] words(s)[i][k]),
{
    lemma_words_state_shape(s);
    let (done, cur) = words_state(s);
    if cur.len() > 0 {
        assert forall|i: int| 0 <= i < words(s).len() implies #[trigger] words(s)[i].len() > 0
            && forall|k: int| 0 <= k < words(s)[i].len() ==> !is_ws(#[trigger] words(s)[i][k]) by {
            if i < done.len() {
                assert(words(s)[i] == done[i]);
            } else {
                assert(words(s)[i] == cur);
            }
        }
    }
}

// ---------------------------------------------------------------------------
// Trimming a given character; stripping a repeated prefix
// ---------------------------------------------------------------------------

/// `s` without the leading copies of `c`.
pub open spec fn trim_char_start(s: Seq<char>, c: char) -> Seq<char>
    decreases s.len(),
{
    if s.len() > 0 && s[0] == c {
        trim_char_start(s.drop_first(), c)
    } else {
        s
    }
}

/// `s` without the trailing copies of `c`.
pub open spec fn trim_char_end(s: Seq<char>, c: char) -> Seq<char>
    decreases s.len(),
{
    if s.len() > 0 && s.last() == c {
        trim_char_end(s.drop_last(), c)
    } else {
        s
    }
}

/// `str::trim_matches(c)`: `s` without the copies of `c` at either end.
pub open spec fn trim_char(s: Seq<char>, c: char) -> Seq<char> {
    trim_char_end(trim_char_start(s, c), c)
}

/// `str::trim_matches(c)` on a character vector.
pub fn trim_char_chars(s: &Vec<char>, c: char) -> (r: Vec<char>)
    ensures
        r@ == trim_char(s@, c),
{
    let n = s.len();
    let mut i: usize = 0;
    assert(s@.subrange(0, n as int) =~= s@);
    while i < n && s[i] == c
        invariant
            i <= n,
            n == s.len(),
            trim_char_start(s@, c) == trim_char_start(s@.subrange(i as int, n as int), c),
        decreases n - i,
    {
        assert(s@.subrange(i as int, n as int).drop_first() =~= s@.subrange(i + 1, n as int));
        i = i + 1;
    }
    assert(trim_char_start(s@.subrange(i as int, n as int), c) == s@.subrange(i as int, n as int));
    let mut j: usize = n;
    while j > i && s[j - 1] == c
        invariant
            i <= j <= n,
            n == s.len(),
            trim_char(s@, c) == trim_char_end(s@.subrange(i as int, j as int), c),
        decreases j,
    {
        assert(s@.subrange(i as int, j as int).drop_last() =~= s@.subrange(i as int, j - 1));
        j = j - 1;
    }
    slice_chars(s, i, j)
}

/// `str::trim_start_matches(p)`: `s` without the copies of `p` repeated at its start.
pub open spec fn strip_prefix_all(s: Seq<char>, p: Seq<char>) -> Seq<char>
    decreases s.len(),
{
    if p.len() > 0 && has_prefix(s, p) {
        strip_prefix_all(s.skip(p.len() as int), p)
    } else {
        s
    }
}

/// `str::trim_start_matches(p)` on a character vector.
pub fn strip_prefix_all_chars(s: &Vec<char>, p: &Vec<char>) -> (r: Vec<char>)
    ensures
        r@ == strip_prefix_all(s@, p@),
{
    if p.len() == 0 {
        return copy_chars(s);
    }
    let n = s.len();
    let mut i: usize = 0;
    assert(s@.skip(0) =~= s@);
    while i < n && matches_at(s, i, p)
        invariant
            i <= n,
            n == s.len(),
            p.len() > 0,
            strip_prefix_all(s@, p@) == strip_prefix_all(s@.skip(i as int), p@),
        decreases n - i,
    {
        assert(s@.skip(i as int).take(p@.len() as int) =~= s@.subrange(i as int, i + p@.len()));
        assert(s@.skip(i as int).skip(p@.len() as int) =~= s@.skip(i + p@.len()));
        i = i + p.len();
    }
    proof {
        if i < n {
            if has_prefix(s@.skip(i as int), p@) {
                assert(s@.skip(i as int).take(p@.len() as int) =~= s@.subrange(i as int, i + p@.len()));
            }
        } else {
            assert(s@.skip(i as int).len() == 0);
        }
    }
    assert(s@.subrange(i as int, n as int) =~= s@.skip(i as int));
    slice_chars(s, i, n)
}

// ---------------------------------------------------------------------------
// Lower case
// ---------------------------------------------------------------------------

/// What `str::to_lowercase` gives for `s` (Unicode lower-case mapping, locale-independent).
pub uninterp spec fn lowercase_result(s: Seq<char>) -> Seq<char>;

/// Calls `str::to_lowercase`. Trusted: the result is `lowercase_result` of `s`; the
/// Unicode mapping itself is not stated.
#[verifier::external_body]
pub(crate) fn to_lowercase(s: &str) -> (r: String)
    ensures
        r@ == lowercase_result(s@),
{
    s.to_lowercase()
}

} // verus!
