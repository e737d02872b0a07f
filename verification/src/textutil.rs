//! Verified text primitives for the line-oriented configuration formats:
//! trimming, exact and prefix comparison, separator splitting and joining,
//! whitespace tokenisation, and decimal rendering/parsing of 16-bit ports.
//!
//! Every executable function here is specified against a spec-level model
//! of the same operation on `Seq<char>`, so the codec and the scanners can
//! state their contracts purely over those models.

use vstd::prelude::*;
use vstd::string::StrSliceExecFns;
use vstd::string::StringExecFns;

verus! {

/// The whitespace characters the configuration formats care about: the
/// blank, the tab, and the carriage return a CRLF line leaves behind.
pub open spec fn is_space_char(c: char) -> bool {
    c == ' ' || c == '\t' || c == '\r'
}

/// `s` with its leading whitespace removed.
pub open spec fn trim_front_spec(s: Seq<char>) -> Seq<char>
    decreases s.len(),
{
    if s.len() > 0 && is_space_char(s[0]) {
        trim_front_spec(s.drop_first())
    } else {
        s
    }
}

/// `s` with its trailing whitespace removed.
pub open spec fn trim_back_spec(s: Seq<char>) -> Seq<char>
    decreases s.len(),
{
    if s.len() > 0 && is_space_char(s.last()) {
        trim_back_spec(s.drop_last())
    } else {
        s
    }
}

/// `s` with surrounding whitespace removed.
pub open spec fn trim_spec(s: Seq<char>) -> Seq<char> {
    trim_back_spec(trim_front_spec(s))
}

/// A value that trimming leaves unchanged and that fits on one line.
pub open spec fn clean_value(s: Seq<char>) -> bool {
    &&& !s.contains('\n')
    &&& trim_spec(s) == s
}

proof fn lemma_trim_front_skip(s: Seq<char>, a: int)
    requires
        0 <= a <= s.len(),
        forall|i: int| 0 <= i < a ==> is_space_char(s[i]),
        a < s.len() ==> !is_space_char(s[a]),
    ensures
        trim_front_spec(s) =~= s.skip(a),
    decreases a,
{
    if a == 0 {
        assert(s.skip(0) =~= s);
    } else {
        assert(is_space_char(s[0]));
        lemma_trim_front_skip(s.drop_first(), a - 1);
        assert(s.drop_first().skip(a - 1) =~= s.skip(a));
    }
}

proof fn lemma_trim_back_take(s: Seq<char>, b: int)
    requires
        0 <= b <= s.len(),
        forall|i: int| b <= i < s.len() ==> is_space_char(s[i]),
        b > 0 ==> !is_space_char(s[b - 1]),
    ensures
        trim_back_spec(s) =~= s.take(b),
    decreases s.len() - b,
{
    if b == s.len() {
        if s.len() > 0 && is_space_char(s.last()) {
            assert(!is_space_char(s[b - 1]));
            assert(false);
        }
        assert(s.take(b) =~= s);
    } else {
        assert(is_space_char(s.last()));
        lemma_trim_back_take(s.drop_last(), b);
        assert(s.drop_last().take(b) =~= s.take(b));
    }
}

/// Both trims at once: whatever lies outside `[a, b)` is whitespace and the
/// boundary characters are not, so the trim of `s` is exactly `s[a..b)`.
pub proof fn lemma_trim_range(s: Seq<char>, a: int, b: int)
    requires
        0 <= a <= b <= s.len(),
        forall|i: int| 0 <= i < a ==> is_space_char(s[i]),
        forall|i: int| b <= i < s.len() ==> is_space_char(s[i]),
        a < s.len() ==> !is_space_char(s[a]),
        b > a ==> !is_space_char(s[b - 1]),
        a == b ==> b == s.len(),
    ensures
        trim_spec(s) =~= s.subrange(a, b),
    decreases a,
{
    lemma_trim_front_skip(s, a);
    let t = s.skip(a);
    lemma_trim_back_take(t, b - a);
    assert(t.take(b - a) =~= s.subrange(a, b));
}

proof fn lemma_trim_front_len(s: Seq<char>)
    ensures
        trim_front_spec(s).len() <= s.len(),
        s.len() > 0 && is_space_char(s[0]) ==> trim_front_spec(s).len() < s.len(),
    decreases s.len(),
{
    if s.len() > 0 && is_space_char(s[0]) {
        lemma_trim_front_len(s.drop_first());
    }
}

proof fn lemma_trim_back_len(s: Seq<char>)
    ensures
        trim_back_spec(s).len() <= s.len(),
        s.len() > 0 && is_space_char(s.last()) ==> trim_back_spec(s).len() < s.len(),
    decreases s.len(),
{
    if s.len() > 0 && is_space_char(s.last()) {
        lemma_trim_back_len(s.drop_last());
    }
}

/// A non-empty value that trimming leaves unchanged has no whitespace at
/// either end.
pub proof fn lemma_clean_endpoints(s: Seq<char>)
    requires
        trim_spec(s) == s,
        s.len() > 0,
    ensures
        !is_space_char(s[0]),
        !is_space_char(s.last()),
{
    lemma_trim_front_len(s);
    lemma_trim_back_len(trim_front_spec(s));
    if is_space_char(s[0]) {
        assert(trim_spec(s).len() < s.len());
        assert(false);
    }
    assert(trim_front_spec(s) == s);
    if is_space_char(s.last()) {
        assert(trim_spec(s).len() < s.len());
        assert(false);
    }
}

/// Surrounding whitespace is removed.
pub fn str_trim(s: &str) -> (r: String)
    ensures
        r@ == trim_spec(s@),
{
    let n: usize = s.unicode_len();
    let mut a: usize = 0;
    while a < n && is_space_exec(s.get_char(a))
        invariant
            0 <= a <= n,
            n == s@.len(),
            forall|i: int| 0 <= i < a ==> is_space_char(s@[i]),
        decreases n - a,
    {
        a = a + 1;
    }
    if a == n {
        proof {
            lemma_trim_front_skip(s@, a as int);
            assert(s@.skip(n as int) =~= Seq::<char>::empty());
            assert(trim_back_spec(Seq::<char>::empty()) =~= Seq::<char>::empty());
        }
        return String::new();
    }
    let mut b: usize = n;
    while b > a && is_space_exec(s.get_char(b - 1))
        invariant
            a <= b <= n,
            n == s@.len(),
            a < n,
            forall|i: int| b <= i < n ==> is_space_char(s@[i]),
        decreases b,
    {
        b = b - 1;
    }
    proof {
        lemma_trim_range(s@, a as int, b as int);
    }
    let piece = s.substring_char(a, b);
    piece.to_owned()
}

/// Executable twin of `is_space_char`.
pub fn is_space_exec(c: char) -> (r: bool)
    ensures
        r == is_space_char(c),
{
    c == ' ' || c == '\t' || c == '\r'
}

/// Character-for-character equality of two text slices.
pub fn str_eq(a: &str, b: &str) -> (r: bool)
    ensures
        r == (a@ == b@),
{
    let na: usize = a.unicode_len();
    let nb: usize = b.unicode_len();
    if na != nb {
        return false;
    }
    let mut i: usize = 0;
    while i < na
        invariant
            0 <= i <= na,
            na == a@.len(),
            na == b@.len(),
            forall|j: int| 0 <= j < i ==> a@[j] == b@[j],
        decreases na - i,
    {
        if a.get_char(i) != b.get_char(i) {
            return false;
        }
        i = i + 1;
    }
    proof {
        assert(a@ =~= b@);
    }
    true
}

/// Whether `p` is a prefix of `s`.
pub fn str_starts_with(s: &str, p: &str) -> (r: bool)
    ensures
        r == p@.is_prefix_of(s@),
{
    let ns: usize = s.unicode_len();
    let np: usize = p.unicode_len();
    if np > ns {
        assert(!p@.is_prefix_of(s@));
        return false;
    }
    let mut i: usize = 0;
    while i < np
        invariant
            0 <= i <= np,
            np <= ns,
            ns == s@.len(),
            np == p@.len(),
            forall|j: int| 0 <= j < i ==> s@[j] == p@[j],
        decreases np - i,
    {
        if s.get_char(i) != p.get_char(i) {
            assert(!p@.is_prefix_of(s@));
            return false;
        }
        i = i + 1;
    }
    proof {
        assert(p@ =~= s@.take(np as int));
    }
    true
}

/// Index of the first occurrence of `c` in `s`, or `s.len()` if absent.
pub open spec fn first_index_of(s: Seq<char>, c: char) -> int
    decreases s.len(),
{
    if s.len() == 0 {
        0
    } else if s[0] == c {
        0
    } else {
        1 + first_index_of(s.drop_first(), c)
    }
}

pub proof fn lemma_first_index_of(s: Seq<char>, c: char)
    ensures
        0 <= first_index_of(s, c) <= s.len(),
        first_index_of(s, c) < s.len() ==> s[first_index_of(s, c)] == c,
        forall|i: int| 0 <= i < first_index_of(s, c) ==> s[i] != c,
        first_index_of(s, c) == s.len() ==> !s.contains(c),
    decreases s.len(),
{
    if s.len() > 0 && s[0] != c {
        lemma_first_index_of(s.drop_first(), c);
        let r = first_index_of(s, c);
        assert(forall|i: int| 1 <= i < r ==> s[i] == s.drop_first()[i - 1]);
        if r == s.len() {
            assert forall|i: int| 0 <= i < s.len() implies s[i] != c by {
                if i >= 1 {
                    assert(s[i] == s.drop_first()[i - 1]);
                }
            }
            if s.contains(c) {
                let w = choose|w: int| 0 <= w < s.len() && s[w] == c;
                assert(false);
            }
        }
    }
}

/// The first index is pinned by its characteristic properties.
pub proof fn lemma_first_index_from_props(s: Seq<char>, c: char, k: int)
    requires
        0 <= k <= s.len(),
        forall|i: int| 0 <= i < k ==> s[i] != c,
        k < s.len() ==> s[k] == c,
    ensures
        first_index_of(s, c) == k,
    decreases k,
{
    if s.len() == 0 {
    } else if k == 0 {
        if s[0] != c {
            lemma_first_index_of(s, c);
        }
    } else {
        assert(s[0] != c);
        let t = s.drop_first();
        assert(forall|i: int| 0 <= i < k - 1 ==> t[i] == s[i + 1]);
        assert(k - 1 < t.len() ==> t[k - 1] == s[k]);
        lemma_first_index_from_props(t, c, k - 1);
    }
}

/// First occurrence inside a concatenation whose left part is free of `c`.
pub proof fn lemma_first_index_concat(a: Seq<char>, b: Seq<char>, c: char)
    requires
        !a.contains(c),
    ensures
        first_index_of(a + b, c) == a.len() + first_index_of(b, c),
{
    lemma_first_index_of(b, c);
    let k = first_index_of(b, c);
    let s = a + b;
    assert(forall|i: int| 0 <= i < a.len() ==> s[i] == a[i] && a.contains(a[i]));
    assert(forall|i: int| a.len() <= i < a.len() + k ==> s[i] == b[i - a.len()]);
    lemma_first_index_from_props(s, c, a.len() + k);
}

/// The pieces of `s` between occurrences of `sep`, in order; always at
/// least one piece, and `sep` occurs in none of them.
pub open spec fn spec_split(s: Seq<char>, sep: char) -> Seq<Seq<char>>
    decreases s.len(),
{
    if s.len() == 0 {
        seq![Seq::<char>::empty()]
    } else if s[0] == sep {
        seq![Seq::<char>::empty()] + spec_split(s.drop_first(), sep)
    } else {
        let r = spec_split(s.drop_first(), sep);
        seq![seq![s[0]] + r[0]] + r.drop_first()
    }
}

pub proof fn lemma_split_len(s: Seq<char>, sep: char)
    ensures
        spec_split(s, sep).len() >= 1,
    decreases s.len(),
{
    if s.len() > 0 {
        lemma_split_len(s.drop_first(), sep)
    }
}

/// Splitting at the first separator: the head piece is everything before
/// it, and the rest splits on its own.
pub proof fn lemma_split_at_first(s: Seq<char>, sep: char)
    ensures
        first_index_of(s, sep) == s.len() ==> spec_split(s, sep) =~= seq![s],
        first_index_of(s, sep) < s.len() ==> spec_split(s, sep) =~= seq![
            s.take(first_index_of(s, sep)),
        ] + spec_split(s.skip(first_index_of(s, sep) + 1), sep),
    decreases s.len(),
{
    lemma_first_index_of(s, sep);
    let k = first_index_of(s, sep);
    if s.len() == 0 {
        assert(s =~= Seq::<char>::empty());
        assert(spec_split(s, sep) =~= seq![s]);
    } else if s[0] == sep {
        assert(s.take(0) =~= Seq::<char>::empty());
        assert(s.skip(1) =~= s.drop_first());
        assert(spec_split(s, sep) =~= seq![s.take(0)] + spec_split(s.skip(1), sep));
    } else {
        let t = s.drop_first();
        lemma_split_at_first(t, sep);
        assert(forall|i: int| 0 <= i < k - 1 ==> t[i] == s[i + 1]);
        lemma_first_index_from_props(t, sep, k - 1);
        if k == s.len() {
            let r = spec_split(t, sep);
            assert(r =~= seq![t]);
            assert(r[0] == t);
            assert(r.drop_first() =~= Seq::<Seq<char>>::empty());
            assert(seq![s[0]] + r[0] =~= s);
            assert(spec_split(s, sep) == seq![seq![s[0]] + r[0]] + r.drop_first());
            assert(seq![seq![s[0]] + r[0]] + r.drop_first() =~= seq![s]);
        } else {
            assert(spec_split(t, sep) =~= seq![t.take(k - 1)] + spec_split(t.skip(k), sep));
            lemma_split_len(t.skip(k), sep);
            assert(seq![s[0]] + t.take(k - 1) =~= s.take(k));
            assert(t.skip(k) =~= s.skip(k + 1));
            assert(spec_split(s, sep) =~= seq![s.take(k)] + spec_split(s.skip(k + 1), sep));
        }
    }
}

/// The pieces joined back with `sep` between them.
pub open spec fn join_with(parts: Seq<Seq<char>>, sep: char) -> Seq<char>
    decreases parts.len(),
{
    if parts.len() == 0 {
        Seq::<char>::empty()
    } else if parts.len() == 1 {
        parts[0]
    } else {
        parts[0] + seq![sep] + join_with(parts.drop_first(), sep)
    }
}

/// Splitting inverts joining, as long as no piece contains the separator.
pub proof fn lemma_split_of_join(parts: Seq<Seq<char>>, sep: char)
    requires
        parts.len() >= 1,
        forall|i: int| 0 <= i < parts.len() ==> !(#[trigger] parts[i]).contains(sep),
    ensures
        spec_split(join_with(parts, sep), sep) =~= parts,
    decreases parts.len(),
{
    let s = join_with(parts, sep);
    if parts.len() == 1 {
        lemma_split_at_first(s, sep);
        lemma_first_index_of(s, sep);
        if first_index_of(s, sep) < s.len() {
            assert(s.contains(sep));
            assert(false);
        }
    } else {
        let rest = join_with(parts.drop_first(), sep);
        assert(s =~= parts[0] + (seq![sep] + rest));
        lemma_first_index_concat(parts[0], seq![sep] + rest, sep);
        lemma_first_index_from_props(seq![sep] + rest, sep, 0);
        let k = parts[0].len() as int;
        assert(first_index_of(s, sep) == k);
        lemma_split_at_first(s, sep);
        assert(s.take(k) =~= parts[0]);
        assert(s.skip(k + 1) =~= rest);
        lemma_split_of_join(parts.drop_first(), sep);
        assert(spec_split(s, sep) =~= seq![parts[0]] + parts.drop_first());
        assert(seq![parts[0]] + parts.drop_first() =~= parts);
    }
}

/// The pieces of `s` between occurrences of `sep`.
pub fn str_split(s: &str, sep: char) -> (r: Vec<String>)
    ensures
        r.deep_view() == spec_split(s@, sep),
{
    let n: usize = s.unicode_len();
    let mut parts: Vec<String> = Vec::new();
    let mut start: usize = 0;
    let mut i: usize = 0;
    proof {
        assert(parts.deep_view() =~= Seq::<Seq<char>>::empty());
        assert(s@.skip(0) =~= s@);
        assert(parts.deep_view() + spec_split(s@.skip(0), sep) =~= spec_split(s@, sep));
    }
    while i < n
        invariant
            0 <= start <= i <= n,
            n == s@.len(),
            forall|j: int| start <= j < i ==> s@[j] != sep,
            parts.deep_view() + spec_split(s@.skip(start as int), sep) =~= spec_split(s@, sep),
        decreases n - i,
    {
        if s.get_char(i) == sep {
            let ghost old_parts = parts.deep_view();
            let piece = s.substring_char(start, i);
            parts.push(piece.to_owned());
            proof {
                let t = s@.skip(start as int);
                assert(forall|j: int| 0 <= j < i - start ==> t[j] == s@[j + start]);
                lemma_first_index_from_props(t, sep, i - start);
                lemma_split_at_first(t, sep);
                assert(t.take(i - start) =~= s@.subrange(start as int, i as int));
                assert(t.skip(i - start + 1) =~= s@.skip(i + 1));
                assert(parts.deep_view() =~= old_parts + seq![s@.subrange(start as int, i as int)]);
                assert(parts.deep_view() + spec_split(s@.skip(i + 1), sep) =~= spec_split(s@, sep));
            }
            start = i + 1;
        }
        i = i + 1;
    }
    let ghost old_parts = parts.deep_view();
    let piece = s.substring_char(start, n);
    parts.push(piece.to_owned());
    proof {
        let t = s@.skip(start as int);
        assert(forall|j: int| 0 <= j < t.len() ==> t[j] == s@[j + start]);
        lemma_first_index_from_props(t, sep, t.len() as int);
        lemma_split_at_first(t, sep);
        assert(t =~= s@.subrange(start as int, n as int));
        assert(parts.deep_view() =~= old_parts + seq![t]);
        assert(parts.deep_view() =~= spec_split(s@, sep));
    }
    parts
}

/// The index of the first occurrence of `c`, or the length if absent.
pub fn str_find_char(s: &str, c: char) -> (r: usize)
    ensures
        r as int == first_index_of(s@, c),
        r as int <= s@.len(),
{
    let n: usize = s.unicode_len();
    let mut i: usize = 0;
    while i < n
        invariant
            0 <= i <= n,
            n == s@.len(),
            forall|j: int| 0 <= j < i ==> s@[j] != c,
        decreases n - i,
    {
        if s.get_char(i) == c {
            proof {
                lemma_first_index_from_props(s@, c, i as int);
            }
            return i;
        }
        i = i + 1;
    }
    proof {
        lemma_first_index_from_props(s@, c, n as int);
    }
    n
}

/// The maximal whitespace-free runs of `s`, in order: what
/// whitespace-splitting yields.
pub open spec fn ws_tokens(s: Seq<char>) -> Seq<Seq<char>>
    decreases s.len(),
{
    if s.len() == 0 {
        Seq::<Seq<char>>::empty()
    } else if is_space_char(s[0]) {
        ws_tokens(s.drop_first())
    } else {
        let r = ws_tokens(s.drop_first());
        if s.len() > 1 && !is_space_char(s[1]) {
            seq![seq![s[0]] + r[0]] + r.drop_first()
        } else {
            seq![seq![s[0]]] + r
        }
    }
}

/// A whitespace-free run followed by a boundary is the head token.
proof fn lemma_ws_token_head(u: Seq<char>, e: int)
    requires
        0 < e <= u.len(),
        forall|i: int| 0 <= i < e ==> !is_space_char(u[i]),
        e < u.len() ==> is_space_char(u[e]),
    ensures
        ws_tokens(u) =~= seq![u.take(e)] + ws_tokens(u.skip(e)),
    decreases e,
{
    let t = u.drop_first();
    if e == 1 {
        if u.len() == 1 {
            assert(t =~= Seq::<char>::empty());
            assert(u.take(1) =~= seq![u[0]]);
            assert(u.skip(1) =~= Seq::<char>::empty());
            assert(ws_tokens(u) =~= seq![u.take(1)] + ws_tokens(u.skip(1)));
        } else {
            assert(is_space_char(u[1]));
            assert(u.take(1) =~= seq![u[0]]);
            assert(u.skip(1) =~= t);
            assert(ws_tokens(u) =~= seq![u.take(1)] + ws_tokens(u.skip(1)));
        }
    } else {
        assert(forall|i: int| 0 <= i < e - 1 ==> t[i] == u[i + 1]);
        assert(e - 1 < t.len() ==> t[e - 1] == u[e]);
        lemma_ws_token_head(t, e - 1);
        let r = ws_tokens(t);
        assert(r == seq![t.take(e - 1)] + ws_tokens(t.skip(e - 1)));
        assert(r[0] == t.take(e - 1));
        assert(!is_space_char(u[1]));
        assert(ws_tokens(u) == seq![seq![u[0]] + r[0]] + r.drop_first());
        assert(seq![u[0]] + t.take(e - 1) =~= u.take(e));
        assert(r.drop_first() =~= ws_tokens(t.skip(e - 1)));
        assert(t.skip(e - 1) =~= u.skip(e));
    }
}

/// The whitespace-separated tokens of `s`.
pub fn str_ws_tokens(s: &str) -> (r: Vec<String>)
    ensures
        r.deep_view() == ws_tokens(s@),
{
    let n: usize = s.unicode_len();
    let mut toks: Vec<String> = Vec::new();
    let mut pos: usize = 0;
    proof {
        assert(toks.deep_view() =~= Seq::<Seq<char>>::empty());
        assert(s@.skip(0) =~= s@);
        assert(toks.deep_view() + ws_tokens(s@.skip(0)) =~= ws_tokens(s@));
    }
    while pos < n
        invariant
            0 <= pos <= n,
            n == s@.len(),
            toks.deep_view() + ws_tokens(s@.skip(pos as int)) =~= ws_tokens(s@),
        decreases n - pos,
    {
        if is_space_exec(s.get_char(pos)) {
            proof {
                let u = s@.skip(pos as int);
                assert(u[0] == s@[pos as int]);
                assert(u.drop_first() =~= s@.skip(pos + 1));
            }
            pos = pos + 1;
        } else {
            let mut e: usize = pos + 1;
            while e < n && !is_space_exec(s.get_char(e))
                invariant
                    pos < e <= n,
                    n == s@.len(),
                    forall|j: int| pos <= j < e ==> !is_space_char(s@[j]),
                decreases n - e,
            {
                e = e + 1;
            }
            let ghost old_toks = toks.deep_view();
            let piece = s.substring_char(pos, e);
            toks.push(piece.to_owned());
            proof {
                let u = s@.skip(pos as int);
                assert(forall|i: int| 0 <= i < u.len() ==> u[i] == s@[i + pos]);
                lemma_ws_token_head(u, e - pos);
                assert(u.take(e - pos) =~= s@.subrange(pos as int, e as int));
                assert(u.skip(e - pos) =~= s@.skip(e as int));
                assert(toks.deep_view() =~= old_toks + seq![s@.subrange(pos as int, e as int)]);
                assert(toks.deep_view() + ws_tokens(s@.skip(e as int)) =~= ws_tokens(s@));
            }
            pos = e;
        }
    }
    proof {
        assert(s@.skip(n as int) =~= Seq::<char>::empty());
        assert(toks.deep_view() =~= ws_tokens(s@));
    }
    toks
}

/// A decimal digit.
pub open spec fn is_digit_char(c: char) -> bool {
    '0' <= c && c <= '9'
}

/// The numeric value of a digit character.
pub open spec fn digit_val(c: char) -> int {
    c as int - '0' as int
}

/// Every character of `s` is a decimal digit.
pub open spec fn all_digits(s: Seq<char>) -> bool {
    forall|i: int| 0 <= i < s.len() ==> is_digit_char(#[trigger] s[i])
}

/// The value of a digit string read most-significant first.
pub open spec fn digits_val(s: Seq<char>) -> int
    decreases s.len(),
{
    if s.len() == 0 {
        0
    } else {
        digits_val(s.drop_last()) * 10 + digit_val(s.last())
    }
}

/// The digit character for a value below ten.
pub open spec fn digit_of(d: int) -> char {
    if d == 0 {
        '0'
    } else if d == 1 {
        '1'
    } else if d == 2 {
        '2'
    } else if d == 3 {
        '3'
    } else if d == 4 {
        '4'
    } else if d == 5 {
        '5'
    } else if d == 6 {
        '6'
    } else if d == 7 {
        '7'
    } else if d == 8 {
        '8'
    } else {
        '9'
    }
}

/// The shortest decimal rendering of a non-negative number.
pub open spec fn dec_rep(n: int) -> Seq<char>
    decreases n,
{
    if n < 10 {
        seq![digit_of(n)]
    } else {
        dec_rep(n / 10).push(digit_of(n % 10))
    }
}

/// A decimal rendering consists of digits and reads back to its value.
pub proof fn lemma_dec_rep_val(n: int)
    requires
        n >= 0,
    ensures
        dec_rep(n).len() >= 1,
        all_digits(dec_rep(n)),
        digits_val(dec_rep(n)) == n,
    decreases n,
{
    if n < 10 {
        let s = dec_rep(n);
        assert(s.drop_last() =~= Seq::<char>::empty());
        assert(digits_val(Seq::<char>::empty()) == 0);
        assert(s.last() == digit_of(n));
        assert(digits_val(s) == digit_val(digit_of(n)));
        assert(digit_val(digit_of(n)) == n);
    } else {
        lemma_dec_rep_val(n / 10);
        let s = dec_rep(n);
        assert(s.drop_last() =~= dec_rep(n / 10));
        assert(s.last() == digit_of(n % 10));
        assert(digit_val(digit_of(n % 10)) == n % 10);
        assert(digits_val(s) == (n / 10) * 10 + n % 10);
    }
}

/// A longer digit string never reads back to a smaller value.
proof fn lemma_digits_val_prefix_le(s: Seq<char>, m: int)
    requires
        0 <= m <= s.len(),
        all_digits(s),
    ensures
        digits_val(s.take(m)) <= digits_val(s),
        digits_val(s) >= 0,
    decreases s.len() - m,
{
    if m == s.len() {
        assert(s.take(m) =~= s);
        lemma_digits_val_nonneg(s);
    } else {
        lemma_digits_val_prefix_le(s, m + 1);
        let t = s.take(m + 1);
        assert(t.drop_last() =~= s.take(m));
        assert(is_digit_char(s[m]));
        lemma_digits_val_nonneg(s.take(m));
        assert(digits_val(t) == digits_val(s.take(m)) * 10 + digit_val(s[m]));
        assert(digits_val(s.take(m)) <= digits_val(t));
    }
}

proof fn lemma_digits_val_nonneg(s: Seq<char>)
    requires
        all_digits(s),
    ensures
        digits_val(s) >= 0,
    decreases s.len(),
{
    if s.len() > 0 {
        assert(forall|i: int| 0 <= i < s.len() - 1 ==> s.drop_last()[i] == s[i]);
        lemma_digits_val_nonneg(s.drop_last());
        assert(is_digit_char(s.last()));
    }
}

/// The number text with an optional leading plus sign removed.
pub open spec fn sign_stripped(s: Seq<char>) -> Seq<char> {
    if s.len() > 0 && s[0] == '+' {
        s.drop_first()
    } else {
        s
    }
}

/// What `u16` parsing accepts: an optional leading plus sign, then at least
/// one digit, with a value that fits.
pub open spec fn parse_u16_spec(s: Seq<char>) -> Option<u16> {
    let t = sign_stripped(s);
    if t.len() > 0 && all_digits(t) && digits_val(t) <= 65535 {
        Some(digits_val(t) as u16)
    } else {
        None
    }
}

/// A digit string is a clean value: no newline, no whitespace to trim.
pub proof fn lemma_digits_clean(s: Seq<char>)
    requires
        all_digits(s),
    ensures
        clean_value(s),
{
    assert(!s.contains('\n')) by {
        if s.contains('\n') {
            let w = choose|w: int| 0 <= w < s.len() && s[w] == '\n';
            assert(is_digit_char(s[w]));
            assert(false);
        }
    }
    if s.len() == 0 {
        assert(trim_front_spec(s) == s);
        assert(trim_spec(s) == s);
    } else {
        assert(is_digit_char(s[0]) && is_digit_char(s.last()));
        lemma_trim_range(s, 0, s.len() as int);
        assert(s.subrange(0, s.len() as int) =~= s);
    }
}

/// The decimal rendering of a 16-bit number parses back to that number.
pub proof fn lemma_parse_dec_rep(p: u16)
    ensures
        parse_u16_spec(dec_rep(p as int)) == Some(p),
{
    lemma_dec_rep_val(p as int);
    let s = dec_rep(p as int);
    assert(is_digit_char(s[0]));
    assert(s[0] != '+');
    assert(sign_stripped(s) == s);
    assert(digits_val(s) == p as int);
}

fn digit_str(d: u16) -> (r: &'static str)
    requires
        d < 10,
    ensures
        r@ =~= seq![digit_of(d as int)],
{
    proof {
        reveal_strlit("0");
        reveal_strlit("1");
        reveal_strlit("2");
        reveal_strlit("3");
        reveal_strlit("4");
        reveal_strlit("5");
        reveal_strlit("6");
        reveal_strlit("7");
        reveal_strlit("8");
        reveal_strlit("9");
    }
    match d {
        0 => "0",
        1 => "1",
        2 => "2",
        3 => "3",
        4 => "4",
        5 => "5",
        6 => "6",
        7 => "7",
        8 => "8",
        _ => "9",
    }
}

/// The decimal rendering of a 16-bit number.
pub fn u16_string(n: u16) -> (r: String)
    ensures
        r@ == dec_rep(n as int),
    decreases n,
{
    if n < 10 {
        let mut r = String::new();
        r.append(digit_str(n));
        proof {
            assert(r@ =~= dec_rep(n as int));
        }
        r
    } else {
        let mut r = u16_string(n / 10);
        r.append(digit_str(n % 10));
        proof {
            assert(r@ =~= dec_rep(n as int));
        }
        r
    }
}

/// Parse a 16-bit number exactly as `u16` string parsing would.
pub fn parse_u16(s: &str) -> (r: Option<u16>)
    ensures
        r == parse_u16_spec(s@),
{
    let n: usize = s.unicode_len();
    let mut start: usize = 0;
    if n > 0 && s.get_char(0) == '+' {
        start = 1;
    }
    let ghost t = sign_stripped(s@);
    proof {
        assert(t =~= s@.skip(start as int));
    }
    if start == n {
        return None;
    }
    let mut acc: u32 = 0;
    let mut i: usize = start;
    while i < n
        invariant
            start <= i <= n,
            n == s@.len(),
            start < n,
            t == sign_stripped(s@),
            t == s@.skip(start as int),
            forall|j: int| start <= j < i ==> is_digit_char(s@[j]),
            acc <= 65535,
            acc == digits_val(t.take(i - start)),
        decreases n - i,
    {
        let c = s.get_char(i);
        if c < '0' || c > '9' {
            proof {
                assert(t[i - start] == s@[i as int]);
                assert(!is_digit_char(t[i - start]));
                assert(!all_digits(t));
            }
            return None;
        }
        let d: u32 = c as u32 - 48;
        proof {
            assert(is_digit_char(s@[i as int]));
            assert(t.take(i - start + 1).drop_last() =~= t.take(i - start));
            assert(t.take(i - start + 1).last() == s@[i as int]);
            assert(digit_val(s@[i as int]) == d as int);
        }
        acc = acc * 10 + d;
        if acc > 65535 {
            proof {
                if all_digits(t) {
                    lemma_digits_val_prefix_le(t, i - start + 1);
                }
            }
            return None;
        }
        i = i + 1;
    }
    proof {
        assert(t.take(n - start) =~= t);
        assert(forall|j: int| 0 <= j < t.len() ==> t[j] == s@[j + start]);
        assert(all_digits(t));
    }
    Some(acc as u16)
}

} // verus!
