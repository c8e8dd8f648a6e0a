//! Character-level text utilities: whitespace handling, searching,
//! splitting and case-insensitive comparison, with exact specifications
//! over `Seq<char>` views.

use vstd::prelude::*;

verus! {

use vstd::string::StrSliceExecFns;
use vstd::string::StringExecFns;

/// Characters treated as whitespace when trimming and splitting.
pub open spec fn is_ws_char(c: char) -> bool {
    c == ' ' || c == '\t' || c == '\n' || c == '\r' || c == '\u{b}' || c == '\u{c}'
}

/// Every character of `s` is whitespace.
pub open spec fn all_ws(s: Seq<char>) -> bool {
    forall|i: int| 0 <= i < s.len() ==> is_ws_char(s[i])
}

/// The first index `j >= i` holding a non-whitespace character, or `s.len()`.
pub open spec fn next_non_ws(s: Seq<char>, i: int) -> int
    decreases s.len() - i,
{
    if i < 0 || i >= s.len() {
        s.len() as int
    } else if !is_ws_char(s[i]) {
        i
    } else {
        next_non_ws(s, i + 1)
    }
}

/// The first index `j >= i` holding a whitespace character, or `s.len()`.
pub open spec fn next_ws(s: Seq<char>, i: int) -> int
    decreases s.len() - i,
{
    if i < 0 || i >= s.len() {
        s.len() as int
    } else if is_ws_char(s[i]) {
        i
    } else {
        next_ws(s, i + 1)
    }
}

/// The first index `j >= i` with `s[j] == c`, or `s.len()`.
pub open spec fn find_from(s: Seq<char>, c: char, i: int) -> int
    decreases s.len() - i,
{
    if i < 0 || i >= s.len() {
        s.len() as int
    } else if s[i] == c {
        i
    } else {
        find_from(s, c, i + 1)
    }
}

pub proof fn lemma_next_non_ws(s: Seq<char>, i: int)
    requires
        0 <= i <= s.len(),
    ensures
        i <= next_non_ws(s, i) <= s.len(),
        next_non_ws(s, i) < s.len() ==> !is_ws_char(s[next_non_ws(s, i)]),
        forall|j: int| i <= j < next_non_ws(s, i) ==> is_ws_char(s[j]),
    decreases s.len() - i,
{
    if i < s.len() && is_ws_char(s[i]) {
        lemma_next_non_ws(s, i + 1);
    }
}

pub proof fn lemma_next_ws(s: Seq<char>, i: int)
    requires
        0 <= i <= s.len(),
    ensures
        i <= next_ws(s, i) <= s.len(),
        next_ws(s, i) < s.len() ==> is_ws_char(s[next_ws(s, i)]),
        forall|j: int| i <= j < next_ws(s, i) ==> !is_ws_char(s[j]),
    decreases s.len() - i,
{
    if i < s.len() && !is_ws_char(s[i]) {
        lemma_next_ws(s, i + 1);
    }
}

pub proof fn lemma_find_from(s: Seq<char>, c: char, i: int)
    requires
        0 <= i <= s.len(),
    ensures
        i <= find_from(s, c, i) <= s.len(),
        find_from(s, c, i) < s.len() ==> s[find_from(s, c, i)] == c,
        forall|j: int| i <= j < find_from(s, c, i) ==> s[j] != c,
    decreases s.len() - i,
{
    if i < s.len() && s[i] != c {
        lemma_find_from(s, c, i + 1);
    }
}

/// A position that looks like the answer of `next_non_ws` is the answer.
pub proof fn lemma_next_non_ws_unique(s: Seq<char>, i: int, k: int)
    requires
        0 <= i <= k <= s.len(),
        forall|j: int| i <= j < k ==> is_ws_char(s[j]),
        k < s.len() ==> !is_ws_char(s[k]),
    ensures
        next_non_ws(s, i) == k,
    decreases k - i,
{
    if i < k {
        lemma_next_non_ws_unique(s, i + 1, k);
    }
}

pub proof fn lemma_next_ws_unique(s: Seq<char>, i: int, k: int)
    requires
        0 <= i <= k <= s.len(),
        forall|j: int| i <= j < k ==> !is_ws_char(s[j]),
        k < s.len() ==> is_ws_char(s[k]),
    ensures
        next_ws(s, i) == k,
    decreases k - i,
{
    if i < k {
        lemma_next_ws_unique(s, i + 1, k);
    }
}

pub proof fn lemma_find_from_unique(s: Seq<char>, c: char, i: int, k: int)
    requires
        0 <= i <= k <= s.len(),
        forall|j: int| i <= j < k ==> s[j] != c,
        k < s.len() ==> s[k] == c,
    ensures
        find_from(s, c, i) == k,
    decreases k - i,
{
    if i < k {
        lemma_find_from_unique(s, c, i + 1, k);
    }
}

/// Whether `c` is a whitespace character.
pub fn is_ws(c: char) -> (r: bool)
    ensures
        r == is_ws_char(c),
{
    c == ' ' || c == '\t' || c == '\n' || c == '\r' || c == '\u{b}' || c == '\u{c}'
}

/// The first index `j >= i` of a non-whitespace character in `s`, or its length.
pub fn scan_non_ws(s: &str, i: usize) -> (r: usize)
    requires
        i <= s@.len(),
    ensures
        r == next_non_ws(s@, i as int),
        i <= r <= s@.len(),
{
    let n = s.unicode_len();
    let mut j = i;
    while j < n && is_ws(s.get_char(j))
        invariant
            i <= j <= n,
            n == s@.len(),
            forall|t: int| i <= t < j ==> is_ws_char(s@[t]),
        decreases n - j,
    {
        j = j + 1;
    }
    proof {
        lemma_next_non_ws_unique(s@, i as int, j as int);
    }
    j
}

/// The first index `j >= i` of a whitespace character in `s`, or its length.
pub fn scan_ws(s: &str, i: usize) -> (r: usize)
    requires
        i <= s@.len(),
    ensures
        r == next_ws(s@, i as int),
        i <= r <= s@.len(),
{
    let n = s.unicode_len();
    let mut j = i;
    while j < n && !is_ws(s.get_char(j))
        invariant
            i <= j <= n,
            n == s@.len(),
            forall|t: int| i <= t < j ==> !is_ws_char(s@[t]),
        decreases n - j,
    {
        j = j + 1;
    }
    proof {
        lemma_next_ws_unique(s@, i as int, j as int);
    }
    j
}

/// The first index `j >= i` with `s[j] == c`, or the length of `s`.
pub fn scan_char(s: &str, c: char, i: usize) -> (r: usize)
    requires
        i <= s@.len(),
    ensures
        r == find_from(s@, c, i as int),
        i <= r <= s@.len(),
{
    let n = s.unicode_len();
    let mut j = i;
    while j < n && s.get_char(j) != c
        invariant
            i <= j <= n,
            n == s@.len(),
            forall|t: int| i <= t < j ==> s@[t] != c,
        decreases n - j,
    {
        j = j + 1;
    }
    proof {
        lemma_find_from_unique(s@, c, i as int, j as int);
    }
    j
}

/// The pieces of `s` from index `i` on, split at every occurrence of `c`.
/// Empty pieces are kept, so the result always has one piece more than
/// there are occurrences of `c`.
pub open spec fn split_char_from(s: Seq<char>, c: char, i: int) -> Seq<Seq<char>>
    decreases s.len() - i,
    via split_char_from_dec
{
    if i < 0 || i > s.len() {
        seq![]
    } else {
        let k = find_from(s, c, i);
        if k == s.len() {
            seq![s.subrange(i, k)]
        } else {
            seq![s.subrange(i, k)] + split_char_from(s, c, k + 1)
        }
    }
}

#[via_fn]
proof fn split_char_from_dec(s: Seq<char>, c: char, i: int) {
    if 0 <= i <= s.len() {
        lemma_find_from(s, c, i);
    }
}

/// The whitespace-separated tokens of `s` from index `i` on.  Runs of
/// whitespace are skipped, so no token is empty.
pub open spec fn ws_split_from(s: Seq<char>, i: int) -> Seq<Seq<char>>
    decreases s.len() - i,
    via ws_split_from_dec
{
    if i < 0 || i >= s.len() {
        seq![]
    } else if is_ws_char(s[i]) {
        ws_split_from(s, i + 1)
    } else {
        let k = next_ws(s, i);
        seq![s.subrange(i, k)] + ws_split_from(s, k)
    }
}

#[via_fn]
proof fn ws_split_from_dec(s: Seq<char>, i: int) {
    if 0 <= i < s.len() && !is_ws_char(s[i]) {
        lemma_next_ws(s, i);
        if next_ws(s, i) == i {
        }
    }
}

/// Skipping a whitespace prefix does not change the token list.
pub proof fn lemma_ws_split_skip(s: Seq<char>, i: int, j: int)
    requires
        0 <= i <= j <= s.len(),
        forall|t: int| i <= t < j ==> is_ws_char(s[t]),
    ensures
        ws_split_from(s, i) == ws_split_from(s, j),
    decreases j - i,
{
    if i < j {
        lemma_ws_split_skip(s, i + 1, j);
    }
}

/// The index right before which `s` is trimmed at the end: the smallest
/// `r <= e` such that everything in `[r, e)` is whitespace and `s[r - 1]`
/// is not (or `r` is zero).
pub open spec fn trim_end_from(s: Seq<char>, e: int) -> int
    decreases e,
{
    if e <= 0 {
        0
    } else if is_ws_char(s[e - 1]) {
        trim_end_from(s, e - 1)
    } else {
        e
    }
}

pub proof fn lemma_trim_end_from(s: Seq<char>, e: int)
    requires
        0 <= e <= s.len(),
    ensures
        0 <= trim_end_from(s, e) <= e,
        trim_end_from(s, e) > 0 ==> !is_ws_char(s[trim_end_from(s, e) - 1]),
        forall|j: int| trim_end_from(s, e) <= j < e ==> is_ws_char(s[j]),
    decreases e,
{
    if e > 0 && is_ws_char(s[e - 1]) {
        lemma_trim_end_from(s, e - 1);
    }
}

pub proof fn lemma_trim_end_from_unique(s: Seq<char>, e: int, k: int)
    requires
        0 <= k <= e <= s.len(),
        forall|j: int| k <= j < e ==> is_ws_char(s[j]),
        k > 0 ==> !is_ws_char(s[k - 1]),
    ensures
        trim_end_from(s, e) == k,
    decreases e - k,
{
    if k < e {
        lemma_trim_end_from_unique(s, e - 1, k);
    }
}

/// `s` with leading and trailing whitespace removed.
pub open spec fn trim_spec(s: Seq<char>) -> Seq<char> {
    let b = next_non_ws(s, 0);
    let e = trim_end_from(s, s.len() as int);
    if b <= e {
        s.subrange(b, e)
    } else {
        seq![]
    }
}

/// The trimmed text is empty exactly when `s` is all whitespace.
pub proof fn lemma_trim_empty(s: Seq<char>)
    ensures
        trim_spec(s).len() == 0 <==> all_ws(s),
{
    lemma_next_non_ws(s, 0);
    lemma_trim_end_from(s, s.len() as int);
    let b = next_non_ws(s, 0);
    let e = trim_end_from(s, s.len() as int);
    if b < s.len() {
        assert(!is_ws_char(s[b]));
        if b < e {
        } else {
            assert(is_ws_char(s[b]));
        }
    }
}

/// The ASCII-lowercase code of `c`.
pub open spec fn lower_u(c: char) -> u32 {
    if 65 <= c as u32 <= 90 {
        (c as u32 + 32) as u32
    } else {
        c as u32
    }
}

/// Whether `a` and `b` are equal up to ASCII case.
pub open spec fn lower_eq(a: Seq<char>, b: Seq<char>) -> bool {
    a.len() == b.len() && (forall|i: int| 0 <= i < a.len() ==> lower_u(a[i]) == lower_u(b[i]))
}

/// Strict lexicographic order on character sequences, by code point,
/// with a proper prefix ordered before its extensions.
pub open spec fn lex_lt(a: Seq<char>, b: Seq<char>) -> bool
    decreases a.len(),
{
    if b.len() == 0 {
        false
    } else if a.len() == 0 {
        true
    } else if (a[0] as u32) < (b[0] as u32) {
        true
    } else if a[0] == b[0] {
        lex_lt(a.drop_first(), b.drop_first())
    } else {
        false
    }
}

/// Two distinct sequences are ordered one way and only one way.
pub proof fn lemma_lex_lt_total(a: Seq<char>, b: Seq<char>)
    ensures
        !(lex_lt(a, b) && lex_lt(b, a)),
        a != b ==> lex_lt(a, b) || lex_lt(b, a),
    decreases a.len(),
{
    if a.len() > 0 && b.len() > 0 {
        if a[0] == b[0] {
            lemma_lex_lt_total(a.drop_first(), b.drop_first());
            if a.drop_first() == b.drop_first() {
                assert forall|i: int| 0 <= i < a.len() implies a[i] == b[i] by {
                    if i > 0 {
                        assert(a[i] == a.drop_first()[i - 1]);
                        assert(b[i] == b.drop_first()[i - 1]);
                    }
                }
                assert(a =~= b);
            }
            assert(!((a[0] as u32) < (b[0] as u32)));
        } else {
            assert(a[0] as u32 != b[0] as u32) by {
                if a[0] as u32 == b[0] as u32 {
                    vstd::utf8::char_u32_cast(a[0], a[0] as u32);
                    vstd::utf8::char_u32_cast(b[0], b[0] as u32);
                }
            }
        }
    } else {
        if a.len() == 0 && b.len() == 0 {
            assert(a =~= b);
        }
    }
}

/// Lexicographic order is transitive.
pub proof fn lemma_lex_lt_trans(a: Seq<char>, b: Seq<char>, c: Seq<char>)
    requires
        lex_lt(a, b),
        lex_lt(b, c),
    ensures
        lex_lt(a, c),
    decreases a.len(),
{
    assert(b.len() > 0 && c.len() > 0);
    if a.len() > 0 {
        if a[0] == b[0] && b[0] == c[0] {
            lemma_lex_lt_trans(a.drop_first(), b.drop_first(), c.drop_first());
        } else {
            if (a[0] as u32) < (b[0] as u32) || a[0] == b[0] {
                if (b[0] as u32) < (c[0] as u32) || b[0] == c[0] {
                    assert((a[0] as u32) < (c[0] as u32));
                }
            }
        }
    }
}

/// Equal prefixes can be dropped without changing the order.
pub proof fn lemma_lex_lt_skip(a: Seq<char>, b: Seq<char>, i: int)
    requires
        0 <= i <= a.len(),
        i <= b.len(),
        forall|j: int| 0 <= j < i ==> a[j] == b[j],
    ensures
        lex_lt(a, b) == lex_lt(a.skip(i), b.skip(i)),
    decreases i,
{
    if i > 0 {
        assert(a.len() > 0 && b.len() > 0);
        assert(a[0] == b[0]);
        lemma_lex_lt_skip(a.drop_first(), b.drop_first(), i - 1);
        assert(a.drop_first().skip(i - 1) =~= a.skip(i));
        assert(b.drop_first().skip(i - 1) =~= b.skip(i));
    } else {
        assert(a.skip(0) =~= a);
        assert(b.skip(0) =~= b);
    }
}

/// The text after the last newline of `s` (all of `s` if it has none).
pub open spec fn suffix_after_nl(s: Seq<char>) -> Seq<char>
    decreases s.len(),
{
    if s.len() == 0 {
        s
    } else if s.last() == '\n' {
        seq![]
    } else {
        suffix_after_nl(s.drop_last()).push(s.last())
    }
}

pub proof fn lemma_suffix_after_nl(s: Seq<char>, k: int)
    requires
        0 <= k <= s.len(),
        k > 0 ==> s[k - 1] == '\n',
        forall|j: int| k <= j < s.len() ==> s[j] != '\n',
    ensures
        suffix_after_nl(s) == s.subrange(k, s.len() as int),
    decreases s.len(),
{
    if s.len() == 0 {
        assert(suffix_after_nl(s) =~= s.subrange(0, 0));
    } else if s.last() == '\n' {
        assert(k == s.len());
        assert(suffix_after_nl(s) =~= s.subrange(k, s.len() as int));
    } else {
        assert(k < s.len());
        lemma_suffix_after_nl(s.drop_last(), k);
        assert(s.drop_last().subrange(k, s.len() - 1) =~= s.subrange(k, s.len() - 1));
        assert(s.subrange(k, s.len() - 1).push(s.last()) =~= s.subrange(k, s.len() as int));
    }
}

/// Text with no newline in it.
pub open spec fn no_nl(s: Seq<char>) -> bool {
    forall|j: int| 0 <= j < s.len() ==> s[j] != '\n'
}

/// Newline-free text is its own last line.
pub proof fn lemma_suffix_no_nl(s: Seq<char>)
    requires
        no_nl(s),
    ensures
        suffix_after_nl(s) == s,
    decreases s.len(),
{
    if s.len() > 0 {
        lemma_suffix_no_nl(s.drop_last());
        assert(s.drop_last().push(s.last()) =~= s);
    }
}

/// Appending newline-free text extends the last line.
pub proof fn lemma_suffix_append_clean(a: Seq<char>, b: Seq<char>)
    requires
        no_nl(b),
    ensures
        suffix_after_nl(a + b) == suffix_after_nl(a) + b,
    decreases b.len(),
{
    if b.len() == 0 {
        assert(a + b =~= a);
        assert(suffix_after_nl(a) + b =~= suffix_after_nl(a));
    } else {
        let b2 = b.drop_last();
        lemma_suffix_append_clean(a, b2);
        let s = a + b;
        assert(s.last() == b.last());
        assert(s.drop_last() =~= a + b2);
        assert(suffix_after_nl(s) == suffix_after_nl(a + b2).push(b.last()));
        assert(suffix_after_nl(a) + b =~= (suffix_after_nl(a) + b2).push(b.last()));
    }
}

/// The last line after a concatenation lies in the second part, as
/// long as that part holds a newline.
pub proof fn lemma_suffix_concat_nl(a: Seq<char>, b: Seq<char>)
    requires
        exists|j: int| 0 <= j < b.len() && b[j] == '\n',
    ensures
        suffix_after_nl(a + b) == suffix_after_nl(b),
    decreases b.len(),
{
    let s = a + b;
    assert(b.len() > 0);
    assert(s.last() == b.last());
    if b.last() == '\n' {
    } else {
        let j = choose|j: int| 0 <= j < b.len() && b[j] == '\n';
        assert(j < b.len() - 1);
        assert(b.drop_last()[j] == '\n');
        lemma_suffix_concat_nl(a, b.drop_last());
        assert(s.drop_last() =~= a + b.drop_last());
        assert(suffix_after_nl(s) == suffix_after_nl(a + b.drop_last()).push(b.last()));
        assert(suffix_after_nl(b) == suffix_after_nl(b.drop_last()).push(b.last()));
    }
}

/// The text after the last newline starts right after a newline (or at
/// the start of `s`) and holds no newline itself.
pub proof fn lemma_suffix_props(s: Seq<char>)
    ensures
        suffix_after_nl(s).len() <= s.len(),
        suffix_after_nl(s) == s.subrange(s.len() - suffix_after_nl(s).len(), s.len() as int),
        s.len() > suffix_after_nl(s).len() ==> s[s.len() - suffix_after_nl(s).len() - 1] == '\n',
        forall|j: int| s.len() - suffix_after_nl(s).len() <= j < s.len() ==> s[j] != '\n',
    decreases s.len(),
{
    if s.len() == 0 {
        assert(suffix_after_nl(s) =~= s.subrange(0, 0));
    } else if s.last() == '\n' {
        assert(suffix_after_nl(s) =~= s.subrange(s.len() as int, s.len() as int));
    } else {
        lemma_suffix_props(s.drop_last());
        let d = s.drop_last();
        let k = d.len() - suffix_after_nl(d).len();
        assert(suffix_after_nl(s) == suffix_after_nl(d).push(s.last()));
        assert(suffix_after_nl(s).len() == suffix_after_nl(d).len() + 1);
        assert(s.len() - suffix_after_nl(s).len() == k);
        assert(suffix_after_nl(d) == d.subrange(k, d.len() as int));
        assert(d.subrange(k, d.len() as int).push(s.last()) =~= s.subrange(k, s.len() as int));
        assert forall|j: int| k <= j < s.len() implies s[j] != '\n' by {
            if j < s.len() - 1 {
                assert(d[j] != '\n');
            }
        }
    }
}

/// A carriage return dropped from the end of a line, if there is one.
pub open spec fn chomp_cr(l: Seq<char>) -> Seq<char> {
    if l.len() > 0 && l.last() == '\r' {
        l.drop_last()
    } else {
        l
    }
}

/// The lines of `s`: pieces split at `'\n'`, without a final empty piece
/// when `s` ends in a newline, and with a trailing `'\r'` dropped from
/// each piece.
pub open spec fn lines_spec(s: Seq<char>) -> Seq<Seq<char>> {
    if s.len() == 0 {
        seq![]
    } else {
        let p = split_char_from(s, '\n', 0);
        let q = if s.last() == '\n' {
            p.drop_last()
        } else {
            p
        };
        q.map_values(|l: Seq<char>| chomp_cr(l))
    }
}

/// Whether the views of two string slices are equal.
pub fn str_eq(a: &str, b: &str) -> (r: bool)
    ensures
        r == (a@ == b@),
{
    let na = a.unicode_len();
    let nb = b.unicode_len();
    if na != nb {
        proof {
            assert(a@ != b@) by {
                assert(a@.len() != b@.len());
            }
        }
        return false;
    }
    let mut i: usize = 0;
    while i < na
        invariant
            0 <= i <= na,
            na == a@.len(),
            na == b@.len(),
            forall|t: int| 0 <= t < i ==> a@[t] == b@[t],
        decreases na - i,
    {
        if a.get_char(i) != b.get_char(i) {
            return false;
        }
        i = i + 1;
    }
    proof {
        assert(a@ =~= b@);
    }
    true
}

/// An owned copy of the characters of `s` between `from` and `to`.
pub fn substr(s: &str, from: usize, to: usize) -> (r: String)
    requires
        from <= to <= s@.len(),
    ensures
        r@ == s@.subrange(from as int, to as int),
{
    String::from_str(s.substring_char(from, to))
}

/// The pieces of `s` split at every occurrence of `c`, empty pieces kept.
pub fn split_on(s: &str, c: char) -> (r: Vec<String>)
    ensures
        r.deep_view() == split_char_from(s@, c, 0),
{
    let n = s.unicode_len();
    let mut out: Vec<String> = Vec::new();
    let mut i: usize = 0;
    loop
        invariant_except_break
            i <= n,
            n == s@.len(),
            split_char_from(s@, c, 0) == out.deep_view() + split_char_from(s@, c, i as int),
        ensures
            out.deep_view() == split_char_from(s@, c, 0),
        decreases n - i,
    {
        let k = scan_char(s, c, i);
        proof {
            lemma_find_from(s@, c, i as int);
        }
        let piece = substr(s, i, k);
        let ghost old_dv = out.deep_view();
        out.push(piece);
        proof {
            assert(out.deep_view() =~= old_dv + seq![s@.subrange(i as int, k as int)]);
        }
        if k == n {
            proof {
                assert(split_char_from(s@, c, i as int) == seq![s@.subrange(i as int, k as int)]);
                assert(split_char_from(s@, c, 0) =~= out.deep_view());
            }
            break;
        }
        proof {
            assert(split_char_from(s@, c, i as int) == seq![s@.subrange(i as int, k as int)]
                + split_char_from(s@, c, k + 1));
            assert(split_char_from(s@, c, 0) =~= out.deep_view() + split_char_from(
                s@,
                c,
                k + 1 as int,
            ));
        }
        i = k + 1;
    }
    out
}

/// The whitespace-separated tokens of `s`.
pub fn split_ws(s: &str) -> (r: Vec<String>)
    ensures
        r.deep_view() == ws_split_from(s@, 0),
{
    let n = s.unicode_len();
    let mut out: Vec<String> = Vec::new();
    let mut i: usize = 0;
    loop
        invariant_except_break
            i <= n,
            n == s@.len(),
            ws_split_from(s@, 0) == out.deep_view() + ws_split_from(s@, i as int),
        ensures
            out.deep_view() == ws_split_from(s@, 0),
        decreases n - i,
    {
        let j = scan_non_ws(s, i);
        proof {
            lemma_next_non_ws(s@, i as int);
            lemma_ws_split_skip(s@, i as int, j as int);
        }
        if j == n {
            proof {
                assert(ws_split_from(s@, 0) =~= out.deep_view());
            }
            break;
        }
        let k = scan_ws(s, j);
        proof {
            lemma_next_ws(s@, j as int);
        }
        let piece = substr(s, j, k);
        let ghost old_dv = out.deep_view();
        out.push(piece);
        proof {
            assert(out.deep_view() =~= old_dv + seq![s@.subrange(j as int, k as int)]);
            assert(ws_split_from(s@, j as int) == seq![s@.subrange(j as int, k as int)]
                + ws_split_from(s@, k as int));
            assert(ws_split_from(s@, 0) =~= out.deep_view() + ws_split_from(s@, k as int));
        }
        i = k;
    }
    out
}

/// `s` with leading and trailing whitespace removed.
pub fn trim(s: &str) -> (r: &str)
    ensures
        r@ == trim_spec(s@),
{
    let n = s.unicode_len();
    let b = scan_non_ws(s, 0);
    let mut e = n;
    while e > b && is_ws(s.get_char(e - 1))
        invariant
            b <= e <= n,
            n == s@.len(),
            b == next_non_ws(s@, 0),
            forall|j: int| e <= j < n ==> is_ws_char(s@[j]),
        decreases e,
    {
        e = e - 1;
    }
    proof {
        lemma_next_non_ws(s@, 0);
        if b == n {
            lemma_trim_end_from(s@, n as int);
            assert(s@.subrange(n as int, n as int) =~= trim_spec(s@));
        } else {
            assert(e > b) by {
                if e == b {
                    assert(is_ws_char(s@[b as int]));
                }
            }
            assert(!is_ws_char(s@[e - 1]));
            lemma_trim_end_from_unique(s@, n as int, e as int);
        }
    }
    s.substring_char(b, e)
}

/// The ASCII-lowercase code of `c`.
pub fn lower_char_u(c: char) -> (r: u32)
    ensures
        r == lower_u(c),
{
    let u = c as u32;
    if 65 <= u && u <= 90 {
        u + 32
    } else {
        u
    }
}

/// Whether `a` and `b` are equal up to ASCII case.
pub fn eq_ignore_case(a: &str, b: &str) -> (r: bool)
    ensures
        r == lower_eq(a@, b@),
{
    let na = a.unicode_len();
    let nb = b.unicode_len();
    if na != nb {
        return false;
    }
    let mut i: usize = 0;
    while i < na
        invariant
            0 <= i <= na,
            na == a@.len(),
            na == b@.len(),
            forall|t: int| 0 <= t < i ==> lower_u(a@[t]) == lower_u(b@[t]),
        decreases na - i,
    {
        if lower_char_u(a.get_char(i)) != lower_char_u(b.get_char(i)) {
            return false;
        }
        i = i + 1;
    }
    true
}

/// Whether `a` comes strictly before `b` in lexicographic order.
pub fn str_lex_lt(a: &str, b: &str) -> (r: bool)
    ensures
        r == lex_lt(a@, b@),
{
    let na = a.unicode_len();
    let nb = b.unicode_len();
    let mut i: usize = 0;
    while i < na && i < nb && a.get_char(i) == b.get_char(i)
        invariant
            0 <= i <= na,
            i <= nb,
            na == a@.len(),
            nb == b@.len(),
            forall|t: int| 0 <= t < i ==> a@[t] == b@[t],
        decreases na - i,
    {
        i = i + 1;
    }
    proof {
        lemma_lex_lt_skip(a@, b@, i as int);
    }
    if i == na {
        i < nb
    } else if i == nb {
        false
    } else {
        (a.get_char(i) as u32) < (b.get_char(i) as u32)
    }
}

/// Whether every character of `s` is whitespace.
pub fn str_all_ws(s: &str) -> (r: bool)
    ensures
        r == all_ws(s@),
{
    let n = s.unicode_len();
    let mut i: usize = 0;
    while i < n
        invariant
            0 <= i <= n,
            n == s@.len(),
            forall|t: int| 0 <= t < i ==> is_ws_char(s@[t]),
        decreases n - i,
    {
        if !is_ws(s.get_char(i)) {
            return false;
        }
        i = i + 1;
    }
    true
}

/// The lines of `s`, as `lines_spec` describes them.
pub fn split_lines(s: &str) -> (r: Vec<String>)
    ensures
        r.deep_view() == lines_spec(s@),
{
    let n = s.unicode_len();
    if n == 0 {
        let out: Vec<String> = Vec::new();
        proof {
            assert(out.deep_view() =~= lines_spec(s@));
        }
        return out;
    }
    let mut pieces = split_on(s, '\n');
    proof {
        assert(pieces.deep_view().len() >= 1);
        assert(pieces@.len() == pieces.deep_view().len());
    }
    let ghost p_dv = pieces.deep_view();
    if s.get_char(n - 1) == '\n' {
        let popped = pieces.pop();
        proof {
            assert(pieces.deep_view() =~= p_dv.drop_last());
        }
    }
    let ghost q = pieces.deep_view();
    let mut out: Vec<String> = Vec::new();
    let mut idx: usize = 0;
    while idx < pieces.len()
        invariant
            0 <= idx <= pieces@.len(),
            q == pieces.deep_view(),
            out.deep_view() =~= q.take(idx as int).map_values(|l: Seq<char>| chomp_cr(l)),
        decreases pieces@.len() - idx,
    {
        let ghost old_dv = out.deep_view();
        let m = pieces[idx].unicode_len();
        if m > 0 && pieces[idx].as_str().get_char(m - 1) == '\r' {
            let chomped = substr(pieces[idx].as_str(), 0, m - 1);
            proof {
                assert(chomped@ =~= chomp_cr(q[idx as int]));
            }
            out.push(chomped);
        } else {
            let kept = pieces[idx].clone();
            proof {
                assert(kept@ =~= chomp_cr(q[idx as int]));
            }
            out.push(kept);
        }
        proof {
            assert(out.deep_view() =~= old_dv + seq![chomp_cr(q[idx as int])]);
            assert(q.take(idx + 1).map_values(|l: Seq<char>| chomp_cr(l)) =~= q.take(
                idx as int,
            ).map_values(|l: Seq<char>| chomp_cr(l)) + seq![chomp_cr(q[idx as int])]);
        }
        idx = idx + 1;
    }
    proof {
        assert(q.take(pieces@.len() as int) =~= q);
        assert(out.deep_view() =~= lines_spec(s@));
    }
    out
}

} // verus!
